//! A creation, a claim and a deletion leave every edge of the store tying
//! principals that may be tied.

use vstd::prelude::*;
use crate::batch::OpModel;
use crate::create::{
    adopt_from, create_step, fresh, join_new_from, new_batch, new_edges_step, new_record,
    new_target_step, new_targets_from, new_tenant_step,
};
use crate::creation::{create_commit, create_files, created, filed_batch, views_agree};
use crate::delete::{delete_step, release_step};
use crate::deletion::{
    delete_commit, deleted_keys, deleted_principal_leaves_no_trace, settled_store,
};
use crate::index::link_ops;
use crate::invariants::{indexed, name_leads, tied};
use crate::keys::{Key, MaybeDynamicId};
use crate::kinds::{
    edge_legal_in, edges_legal, edges_legal_in, kind_known, kind_of, record_known, role_free,
    roles_reserved, tied_stays_legal,
};
use crate::legality::created_edges_are_legal;
use crate::model::{commit_append, commit_two, Directory};
use crate::principal::PrincipalSetModel;
use crate::query::{member_of_step, members_step};
use crate::races::claimed;
use crate::reflect::reflects;
use crate::resolve::{id_step, permissions_step, Selector};
use crate::snapshot::{Known, Step};
use crate::symmetry::symmetric;
use crate::text::lowercase;
use crate::types::{is_builtin_role, PrincipalField, PrincipalInfo, Type};

verus! {

/// What a name in a request resolves to has the kind that the store knows
/// for it, and a member has a record.
pub proof fn new_targets_are_known(
    d: Directory,
    known: Known,
    field: PrincipalField,
    owner: Type,
    tenant: Option<u32>,
    names: Seq<Seq<char>>,
    from: int,
    found: Seq<PrincipalInfo>,
)
    requires
        indexed(d),
        roles_reserved(d),
        reflects(known, d),
        0 <= from <= names.len(),
        forall|i: int| 0 <= i < found.len() ==> kind_known(d, #[trigger] found[i]),
        field == PrincipalField::Members ==> forall|i: int|
            0 <= i < found.len() ==> record_known(d, #[trigger] found[i]),
    ensures
        new_targets_from(known, field, owner, tenant, names, from, found) matches Step::Done(all)
            ==> (forall|i: int| 0 <= i < all.len() ==> kind_known(d, #[trigger] all[i])) && (field
            == PrincipalField::Members ==> forall|i: int|
            0 <= i < all.len() ==> record_known(d, #[trigger] all[i])),
    decreases names.len() - from,
{
    if from < names.len() {
        match new_target_step(known, field, owner, tenant, names[from]) {
            Step::Done(info) => {
                if known.info(names[from]) == Some(Some(info)) {
                    assert(d.info(names[from]) == Some(info));
                    assert(name_leads(d, names[from]));
                } else {
                    assert(field.builtin_role_info(names[from]) == Some(info));
                    assert(role_free(d, info.id));
                }
                let next = found.push(info);
                assert forall|i: int| 0 <= i < next.len() implies kind_known(
                    d,
                    #[trigger] next[i],
                ) by {
                    if i < found.len() {
                        assert(next[i] == found[i]);
                    }
                }
                if field == PrincipalField::Members {
                    assert forall|i: int| 0 <= i < next.len() implies record_known(
                        d,
                        #[trigger] next[i],
                    ) by {
                        if i < found.len() {
                            assert(next[i] == found[i]);
                        }
                    }
                }
                new_targets_are_known(d, known, field, owner, tenant, names, from + 1, next);
            },
            _ => {},
        }
    }
}

proof fn join_new_legal(
    d: Directory,
    m: Directory,
    r: Directory,
    groups: Seq<PrincipalInfo>,
    from: int,
    batch: Seq<OpModel>,
    id: u32,
)
    requires
        0 <= from <= groups.len(),
        d.commit(batch, id) == Some(m),
        edges_legal_in(m, r),
        r.record(id) is Some,
        forall|i: int|
            0 <= i < groups.len() ==> kind_known(r, #[trigger] groups[i]) && (groups[i].typ
                == Type::Group || groups[i].typ == Type::List || groups[i].typ == Type::Role),
    ensures
        d.commit(join_new_from(groups, from, batch), id) matches Some(after) && edges_legal_in(
            after,
            r,
        ),
    decreases groups.len() - from,
{
    if from < groups.len() {
        let group = groups[from];
        let ops = link_ops(fresh(), MaybeDynamicId::Static(group.id), group.typ);
        commit_append(d, batch, ops, id);
        assert(ops =~= seq![ops[0], ops[1]]);
        commit_two(m, ops[0], ops[1], id);
        assert(kind_known(r, groups[from]));
        tied_stays_legal(m, r, id, group.id, group.typ);
        let next = m.commit(ops, id)->0;
        join_new_legal(d, next, r, groups, from + 1, batch + ops, id);
    }
}

proof fn adopt_legal(
    d: Directory,
    m: Directory,
    r: Directory,
    members: Seq<PrincipalInfo>,
    owner: Type,
    from: int,
    batch: Seq<OpModel>,
    id: u32,
)
    requires
        0 <= from <= members.len(),
        d.commit(batch, id) == Some(m),
        edges_legal_in(m, r),
        kind_of(r, id) == Some(owner),
        forall|i: int|
            0 <= i < members.len() ==> record_known(r, #[trigger] members[i]) && owner.admits(
                members[i].typ,
            ),
    ensures
        d.commit(adopt_from(members, owner, from, batch), id) matches Some(after)
            && edges_legal_in(after, r),
    decreases members.len() - from,
{
    if from < members.len() {
        let member = members[from];
        let ops = link_ops(MaybeDynamicId::Static(member.id), fresh(), owner);
        commit_append(d, batch, ops, id);
        assert(ops =~= seq![ops[0], ops[1]]);
        commit_two(m, ops[0], ops[1], id);
        assert(record_known(r, members[from]));
        tied_stays_legal(m, r, member.id, id, owner);
        let next = m.commit(ops, id)->0;
        adopt_legal(d, next, r, members, owner, from + 1, batch + ops, id);
    }
}

/// A new record under a fresh identifier that is not that of a built-in
/// role leaves the edges of the store as legal as they were.
pub proof fn newcomer_keeps_edges_legal(d: Directory, after: Directory, id: u32)
    requires
        edges_legal(d),
        roles_reserved(d),
        d.record(id) is None,
        !is_builtin_role(id),
        forall|x: u32| x != id ==> #[trigger] after.record(x) == d.record(x),
        forall|a: u32, b: u32|
            #![trigger after.is_member_of(a, b)]
            after.is_member_of(a, b) == d.is_member_of(a, b) && (d.is_member_of(a, b)
                ==> after.entries[Key::MemberOf(a, b)] == d.entries[Key::MemberOf(a, b)]),
    ensures
        edges_legal_in(after, after),
        roles_reserved(after),
{
    assert forall|a: u32, b: u32| #[trigger] edge_legal_in(after, after, a, b) by {
        if after.is_member_of(a, b) {
            assert(edge_legal_in(d, d, a, b));
            assert(after.record(a) == d.record(a));
            assert(b != id);
            assert(after.record(b) == d.record(b));
        }
    }
    assert forall|x: u32| #[trigger] role_free(after, x) by {
        assert(role_free(d, x));
        if x != id {
            assert(after.record(x) == d.record(x));
        }
    }
}

/// After a creation every edge of the store ties two principals that may
/// be tied, as before: each member of the new principal is of a kind that
/// the kind of the new principal admits, what the new principal is a member
/// of is a group, a list or a role, and every edge carries the kind of what
/// the member belongs to.
pub proof fn created_edges_stay_legal(
    d: Directory,
    known: Known,
    p: PrincipalSetModel,
    tenant: Option<u32>,
    id: u32,
)
    requires
        indexed(d),
        edges_legal(d),
        roles_reserved(d),
        reflects(known, d),
        !d.entries.contains_key(Key::Principal(id)),
        !is_builtin_role(id),
        create_step(known, p, tenant) is Done,
    ensures
        d.commit(create_step(known, p, tenant)->Done_0, id) matches Some(after) && edges_legal(
            after,
        ) && roles_reserved(after),
{
    let name = lowercase(p.name);
    assert(known.info(name) == Some(None::<PrincipalInfo>));
    assert(!d.entries.contains_key(Key::NameToId(name)));
    let edges = new_edges_step(known, p, tenant)->Done_0;
    let enabled = permissions_step(
        known,
        PrincipalField::EnabledPermissions,
        p.enabled_permissions,
    )->Done_0;
    let disabled = permissions_step(
        known,
        PrincipalField::DisabledPermissions,
        p.disabled_permissions,
    )->Done_0;
    let owner = new_tenant_step(known, p.tenant, tenant)->Done_0;
    let record = new_record(p, name, owner, enabled, disabled);
    assert(create_step(known, p, tenant)->Done_0 == new_batch(record, owner, edges.0, edges.1));
    let r = created(d, record, owner, id);
    create_files(d, record, owner, id);
    // The store with the new record and its index entries has the edges
    // of the old one.
    assert forall|x: u32| x != id implies #[trigger] r.record(x) == d.record(x) by {}
    assert(r.record(id) == Some(record.with_id(id)));
    assert forall|a: u32, b: u32|
        #![trigger r.is_member_of(a, b)]
        r.is_member_of(a, b) == d.is_member_of(a, b) && (d.is_member_of(a, b)
            ==> r.entries[Key::MemberOf(a, b)] == d.entries[Key::MemberOf(a, b)]) by {}
    newcomer_keeps_edges_legal(d, r, id);
    // What the names resolve to is known to the store.
    let none = Seq::<PrincipalInfo>::empty();
    new_targets_are_known(d, known, PrincipalField::Members, p.typ, tenant, p.members, 0, none);
    new_targets_are_known(d, known, PrincipalField::MemberOf, p.typ, tenant, p.member_of, 0, none);
    let groups = new_targets_from(
        known,
        PrincipalField::MemberOf,
        p.typ,
        tenant,
        p.member_of,
        0,
        none,
    )->Done_0;
    new_targets_are_known(d, known, PrincipalField::Lists, p.typ, tenant, p.lists, 0, groups);
    let lists = new_targets_from(
        known,
        PrincipalField::Lists,
        p.typ,
        tenant,
        p.lists,
        0,
        groups,
    )->Done_0;
    new_targets_are_known(d, known, PrincipalField::Roles, p.typ, tenant, p.roles, 0, lists);
    created_edges_are_legal(known, p, tenant);
    assert forall|i: int| 0 <= i < edges.0.len() implies kind_known(r, #[trigger] edges.0[i])
        && (edges.0[i].typ == Type::Group || edges.0[i].typ == Type::List || edges.0[i].typ
        == Type::Role) by {
        assert(kind_known(d, edges.0[i]));
        assert(role_free(d, edges.0[i].id));
    }
    assert forall|i: int| 0 <= i < edges.1.len() implies record_known(r, #[trigger] edges.1[i])
        && p.typ.admits(edges.1[i].typ) by {
        assert(record_known(d, edges.1[i]));
    }
    let filed = filed_batch(record, owner);
    join_new_legal(d, r, r, edges.0, 0, filed, id);
    let joined = join_new_from(edges.0, 0, filed);
    let m3 = d.commit(joined, id)->0;
    adopt_legal(d, m3, r, edges.1, record.typ, 0, joined, id);
    create_commit(d, record, owner, edges.0, edges.1, id);
    let after = d.commit(new_batch(record, owner, edges.0, edges.1), id)->0;
    views_agree(r, after);
    assert forall|a: u32, b: u32| #[trigger] edge_legal_in(after, after, a, b) by {
        assert(edge_legal_in(after, r, a, b));
        assert(after.record(a) == r.record(a));
        assert(after.record(b) == r.record(b));
    }
    assert forall|x: u32| #[trigger] role_free(after, x) by {
        assert(role_free(r, x));
        assert(after.record(x) == r.record(x));
    }
}

/// After a name has been claimed for a new principal every edge of the
/// store ties two principals that may be tied, as before.
pub proof fn claimed_edges_stay_legal(d: Directory, name: Seq<char>, typ: Type, id: u32)
    requires
        edges_legal(d),
        roles_reserved(d),
        !d.entries.contains_key(Key::Principal(id)),
        !is_builtin_role(id),
    ensures
        edges_legal(claimed(d, name, typ, id)),
        roles_reserved(claimed(d, name, typ, id)),
{
    let after = claimed(d, name, typ, id);
    assert forall|x: u32| x != id implies #[trigger] after.record(x) == d.record(x) by {}
    assert forall|a: u32, b: u32|
        #![trigger after.is_member_of(a, b)]
        after.is_member_of(a, b) == d.is_member_of(a, b) && (d.is_member_of(a, b)
            ==> after.entries[Key::MemberOf(a, b)] == d.entries[Key::MemberOf(a, b)]) by {}
    newcomer_keeps_edges_legal(d, after, id);
}

/// After a deletion every edge of the store ties two principals that may
/// be tied, as before: the edges from and to the deleted principal are
/// gone, and the others are as they were.
pub proof fn deleted_edges_stay_legal(d: Directory, known: Known, by: Selector, assigned: u32)
    requires
        indexed(d),
        symmetric(d),
        edges_legal(d),
        roles_reserved(d),
        reflects(known, d),
        delete_step(known, by) is Done,
    ensures
        d.commit(delete_step(known, by)->Done_0.batch, assigned) matches Some(after) && edges_legal(
            after,
        ) && roles_reserved(after),
{
    deleted_principal_leaves_no_trace(d, known, by, assigned);
    let id = id_step(known, by)->Done_0;
    let record = known.record(id)->0->0.inner;
    let settled = release_step(known, id, record)->Done_0;
    let member_of = member_of_step(known, id)->Done_0;
    let members = members_step(known, id)->Done_0;
    delete_commit(d, id, record, settled, member_of, members, assigned);
    let m0 = settled_store(d, settled);
    let gone = deleted_keys(id, record, member_of, members);
    let after = Directory { entries: m0.entries.remove_keys(gone) };
    assert forall|x: u32| x != id implies #[trigger] after.record(x) == d.record(x) by {
        assert(!gone.contains(Key::Principal(x)));
    }
    assert(after.record(id) is None);
    assert forall|a: u32, b: u32| #[trigger] edge_legal_in(after, after, a, b) by {
        if after.is_member_of(a, b) {
            assert(d.is_member_of(a, b));
            assert(after.entries[Key::MemberOf(a, b)] == d.entries[Key::MemberOf(a, b)]);
            assert(edge_legal_in(d, d, a, b));
            assert(!tied(after, id));
            assert(a != id && b != id) by {
                if a == id {
                    assert(after.is_member_of(id, b));
                }
                if b == id {
                    assert(after.is_member_of(a, id));
                }
            }
            assert(after.record(a) == d.record(a));
            assert(after.record(b) == d.record(b));
        }
    }
    assert forall|x: u32| #[trigger] role_free(after, x) by {
        assert(role_free(d, x));
        if x != id {
            assert(after.record(x) == d.record(x));
        }
    }
}

} // verus!
