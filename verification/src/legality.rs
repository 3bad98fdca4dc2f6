//! Which principals an edge may tie together, and that the engine ties no
//! others.
//!
//! A principal takes members only of the kinds that its own kind admits.
//! What a principal is a member of through the fields `MemberOf`, `Lists`
//! and `Roles` is a group, a list or a role; a role may be one of the
//! built-in roles, which have no record. The kind of the member is not
//! held against the table on this second way.

use vstd::prelude::*;
use crate::changes::{add_edge_step, join_from, set_edges_step, Context, StateModel};
use crate::create::{new_edges_step, new_target_step, new_targets_from};
use crate::principal::PrincipalSetModel;
use crate::resolve::target_step;
use crate::snapshot::{Known, Step};
use crate::types::{is_builtin_role, PrincipalField, PrincipalInfo, Type};

verus! {

/// Whether `peer` may be tied through `field` to a principal of kind
/// `owner`.
pub open spec fn legal_tie(field: PrincipalField, owner: Type, peer: PrincipalInfo) -> bool {
    if field == PrincipalField::Members {
        owner.admits(peer.typ)
    } else {
        peer.typ == field.target_type()
    }
}

/// Whether `peer` is what `name` stands for: the principal of that name in
/// the sight of the tenant, or in a `Roles` field a built-in role.
pub open spec fn stands_for(
    known: Known,
    field: PrincipalField,
    name: Seq<char>,
    tenant: Option<u32>,
    peer: PrincipalInfo,
) -> bool {
    ||| known.info(name) == Some(Some(peer)) && peer.visible_to(tenant)
    ||| field == PrincipalField::Roles && is_builtin_role(peer.id) && peer.typ == Type::Role
            && peer.tenant is None
}

/// A name resolves to the principal of that name or to a built-in role.
pub proof fn targets_stand_for_names(
    known: Known,
    field: PrincipalField,
    name: Seq<char>,
    tenant: Option<u32>,
)
    ensures
        target_step(known, field, name, tenant) matches Step::Done(peer) ==> stands_for(
            known,
            field,
            name,
            tenant,
            peer,
        ),
{
}

/// An update that adds an edge to a principal and changes the batch has
/// tied a peer that the name stands for and that may be tied.
pub proof fn added_edge_is_legal(
    s: StateModel,
    c: Context,
    known: Known,
    field: PrincipalField,
    name: Seq<char>,
)
    ensures
        add_edge_step(s, c, known, field, name) matches Step::Done(after) ==> after == s || (
        target_step(known, field, name, c.tenant_id) matches Step::Done(peer) && legal_tie(
            field,
            c.typ,
            peer,
        ) && stands_for(known, field, name, c.tenant_id, peer) && after.batch == s.batch + c.link(
            field,
            peer,
        )),
{
}

/// An update that replaces the edges of a field has found every name from
/// position `from` on to stand for a peer that may be tied.
pub proof fn joined_edges_are_legal(
    known: Known,
    c: Context,
    field: PrincipalField,
    current: Seq<u32>,
    names: Seq<Seq<char>>,
    from: int,
    batch: Seq<crate::batch::OpModel>,
    joined: Seq<u32>,
)
    requires
        0 <= from <= names.len(),
    ensures
        join_from(known, c, field, current, names, from, batch, joined) is Done ==> forall|i: int|
            from <= i < names.len() ==> (target_step(
                known,
                field,
                #[trigger] names[i],
                c.tenant_id,
            ) matches Step::Done(peer) && legal_tie(field, c.typ, peer) && stands_for(
                known,
                field,
                names[i],
                c.tenant_id,
                peer,
            )),
    decreases names.len() - from,
{
    if from < names.len() {
        match target_step(known, field, names[from], c.tenant_id) {
            Step::Done(peer) => match c.refusal(field, names[from], peer) {
                None => {
                    joined_edges_are_legal(
                        known,
                        c,
                        field,
                        current,
                        names,
                        from + 1,
                        if current.contains(peer.id) {
                            batch
                        } else {
                            batch + c.link(field, peer)
                        },
                        joined.push(peer.id),
                    );
                },
                Some(_) => {},
            },
            _ => {},
        }
    }
}

/// A replacement of the edges of a field that succeeds has tied only peers
/// that may be tied.
pub proof fn set_edges_are_legal(
    s: StateModel,
    c: Context,
    known: Known,
    field: PrincipalField,
    names: Seq<Seq<char>>,
)
    ensures
        set_edges_step(s, c, known, field, names) is Done ==> forall|i: int|
            0 <= i < names.len() ==> (target_step(
                known,
                field,
                #[trigger] names[i],
                c.tenant_id,
            ) matches Step::Done(peer) && legal_tie(field, c.typ, peer)),
{
    joined_edges_are_legal(known, c, field, s.peers(field), names, 0, s.batch, Seq::empty());
}

/// A creation ties the new principal only to peers that may be tied: what
/// the names of a membership field resolve to is added behind what was
/// found before, in the order of the names, and each may be tied to a
/// principal of the new kind.
pub proof fn new_edges_are_legal(
    known: Known,
    field: PrincipalField,
    owner: Type,
    tenant: Option<u32>,
    names: Seq<Seq<char>>,
    from: int,
    found: Seq<PrincipalInfo>,
)
    requires
        0 <= from <= names.len(),
        field.is_membership(),
    ensures
        new_targets_from(known, field, owner, tenant, names, from, found) matches Step::Done(all)
            ==> all.len() == found.len() + names.len() - from && (forall|i: int|
            0 <= i < found.len() ==> all[i] == found[i]) && (forall|i: int|
            found.len() <= i < all.len() ==> legal_tie(field, owner, #[trigger] all[i]) && (
            known.info(names[from + i - found.len()]) == Some(Some(all[i])) && all[i].visible_to(
                tenant,
            ) || field == PrincipalField::Roles && is_builtin_role(all[i].id))),
    decreases names.len() - from,
{
    if from < names.len() {
        match new_target_step(known, field, owner, tenant, names[from]) {
            Step::Done(info) => {
                new_edges_are_legal(known, field, owner, tenant, names, from + 1, found.push(info));
            },
            _ => {},
        }
    }
}

/// What a creation ties to the new principal may be tied to it: each of
/// its members is of a kind that the kind of the new principal admits, and
/// each principal that it becomes a member of is a group, a list or a
/// role.
pub proof fn created_edges_are_legal(known: Known, p: PrincipalSetModel, tenant: Option<u32>)
    ensures
        new_edges_step(known, p, tenant) matches Step::Done(edges) ==> (forall|i: int|
            0 <= i < edges.1.len() ==> p.typ.admits((#[trigger] edges.1[i]).typ)) && (forall|i: int|
            0 <= i < edges.0.len() ==> ((#[trigger] edges.0[i]).typ == Type::Group || edges.0[i].typ
                == Type::List || edges.0[i].typ == Type::Role)),
{
    let none = Seq::<PrincipalInfo>::empty();
    new_edges_are_legal(known, PrincipalField::Members, p.typ, tenant, p.members, 0, none);
    new_edges_are_legal(known, PrincipalField::MemberOf, p.typ, tenant, p.member_of, 0, none);
    match new_targets_from(known, PrincipalField::MemberOf, p.typ, tenant, p.member_of, 0, none) {
        Step::Done(groups) => {
            new_edges_are_legal(known, PrincipalField::Lists, p.typ, tenant, p.lists, 0, groups);
            match new_targets_from(known, PrincipalField::Lists, p.typ, tenant, p.lists, 0, groups) {
                Step::Done(lists) => {
                    new_edges_are_legal(
                        known,
                        PrincipalField::Roles,
                        p.typ,
                        tenant,
                        p.roles,
                        0,
                        lists,
                    );
                    match new_targets_from(
                        known,
                        PrincipalField::Roles,
                        p.typ,
                        tenant,
                        p.roles,
                        0,
                        lists,
                    ) {
                        Step::Done(all) => {
                            assert forall|i: int| 0 <= i < all.len() implies ((#[trigger] all[i]).typ
                                == Type::Group || all[i].typ == Type::List || all[i].typ
                                == Type::Role) by {
                                if i < groups.len() {
                                    assert(lists[i] == groups[i]);
                                    assert(all[i] == lists[i]);
                                    assert(legal_tie(PrincipalField::MemberOf, p.typ, groups[i]));
                                } else if i < lists.len() {
                                    assert(all[i] == lists[i]);
                                    assert(legal_tie(PrincipalField::Lists, p.typ, lists[i]));
                                } else {
                                    assert(legal_tie(PrincipalField::Roles, p.typ, all[i]));
                                }
                            }
                        },
                        _ => {},
                    }
                },
                _ => {},
            }
        },
        _ => {},
    }
    match new_edges_step(known, p, tenant) {
        Step::Done(edges) => {
            assert forall|i: int| 0 <= i < edges.1.len() implies p.typ.admits(
                (#[trigger] edges.1[i]).typ,
            ) by {
                assert(legal_tie(PrincipalField::Members, p.typ, edges.1[i]));
            }
        },
        _ => {},
    }
}

} // verus!
