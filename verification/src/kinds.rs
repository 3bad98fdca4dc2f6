//! The kinds at the two ends of an edge.
//!
//! An edge from a member to what it is a member of carries the kind of the
//! latter. What a principal is a member of is a group, a list or a role,
//! or else a principal whose kind admits the kind of the member. A role may
//! be one of the built-in roles, which have no record.

use vstd::prelude::*;
use crate::batch::Stored;
use crate::keys::Key;
use crate::model::Directory;
use crate::types::{is_builtin_role, PrincipalInfo, Type};

verus! {

/// The kind of the principal `id`: that of its record, or for a built-in
/// role without a record that of a role.
pub open spec fn kind_of(d: Directory, id: u32) -> Option<Type> {
    match d.record(id) {
        Some(p) => Some(p.typ),
        None => if is_builtin_role(id) {
            Some(Type::Role)
        } else {
            None
        },
    }
}

/// Whether a principal of kind `member` may be a member of one of kind
/// `group`.
pub open spec fn may_belong(member: Type, group: Type) -> bool {
    group == Type::Group || group == Type::List || group == Type::Role || group.admits(member)
}

/// Whether the edge from `member` to `group` in the store `m`, if there is
/// one, ties two principals of `r` that may be tied and carries the kind of
/// `group`.
pub open spec fn edge_legal_in(m: Directory, r: Directory, member: u32, group: u32) -> bool {
    m.is_member_of(member, group) ==> (kind_of(r, group) matches Some(kind) && (r.record(
        member,
    ) matches Some(p) && may_belong(p.typ, kind)) && m.entries[Key::MemberOf(member, group)]
        == Stored::Bytes(seq![kind.code()]))
}

/// Whether every forward edge of `m` ties two principals of `r` that may
/// be tied and carries the kind of what the member belongs to.
pub open spec fn edges_legal_in(m: Directory, r: Directory) -> bool {
    forall|member: u32, group: u32| #[trigger] edge_legal_in(m, r, member, group)
}

/// Whether every forward edge of the store ties two of its principals that
/// may be tied and carries the kind of what the member belongs to.
pub open spec fn edges_legal(d: Directory) -> bool {
    edges_legal_in(d, d)
}

/// Whether no record stands under the identifier of a built-in role.
pub open spec fn role_free(d: Directory, id: u32) -> bool {
    is_builtin_role(id) ==> d.record(id) is None
}

/// Whether the identifiers of the built-in roles are kept free of
/// records.
pub open spec fn roles_reserved(d: Directory) -> bool {
    forall|id: u32| #[trigger] role_free(d, id)
}

/// Whether two stores hold the same forward edges.
pub open spec fn same_edges(a: Directory, b: Directory) -> bool {
    forall|member: u32, group: u32|
        #![trigger a.is_member_of(member, group)]
        #![trigger b.is_member_of(member, group)]
        a.is_member_of(member, group) == b.is_member_of(member, group) && (a.is_member_of(
            member,
            group,
        ) ==> a.entries[Key::MemberOf(member, group)] == b.entries[Key::MemberOf(member, group)])
}

/// Whether what a name resolved to has the kind that the store knows for
/// it.
pub open spec fn kind_known(d: Directory, info: PrincipalInfo) -> bool {
    kind_of(d, info.id) == Some(info.typ)
}

/// Whether what a name resolved to has a record of the same kind.
pub open spec fn record_known(d: Directory, info: PrincipalInfo) -> bool {
    d.record(info.id) matches Some(p) && p.typ == info.typ
}

/// The same edges are as legal.
pub proof fn legal_with_same_edges(m: Directory, after: Directory, r: Directory)
    requires
        edges_legal_in(m, r),
        same_edges(m, after),
    ensures
        edges_legal_in(after, r),
{
    assert forall|member: u32, group: u32| #[trigger] edge_legal_in(after, r, member, group) by {
        assert(edge_legal_in(m, r, member, group));
        assert(m.is_member_of(member, group) == after.is_member_of(member, group));
    }
}

/// Adding the forward edge from `member` to `group` with the kind of
/// `group` on it, where the two may be tied, keeps the edges legal.
pub proof fn tied_stays_legal(m: Directory, r: Directory, member: u32, group: u32, kind: Type)
    requires
        edges_legal_in(m, r),
        kind_of(r, group) == Some(kind),
        r.record(member) matches Some(p) && may_belong(p.typ, kind),
    ensures
        edges_legal_in(
            Directory {
                entries: m.entries.insert(
                    Key::MemberOf(member, group),
                    Stored::Bytes(seq![kind.code()]),
                ).insert(Key::Members(group, member), Stored::Bytes(Seq::empty())),
            },
            r,
        ),
{
    let after = Directory {
        entries: m.entries.insert(
            Key::MemberOf(member, group),
            Stored::Bytes(seq![kind.code()]),
        ).insert(Key::Members(group, member), Stored::Bytes(Seq::empty())),
    };
    assert forall|a: u32, b: u32| #[trigger] edge_legal_in(after, r, a, b) by {
        if a != member || b != group {
            assert(edge_legal_in(m, r, a, b));
        }
    }
}

/// Removing an edge in both directions keeps the edges legal.
pub proof fn untied_stays_legal(m: Directory, r: Directory, member: u32, group: u32)
    requires
        edges_legal_in(m, r),
    ensures
        edges_legal_in(
            Directory {
                entries: m.entries.remove(Key::MemberOf(member, group)).remove(
                    Key::Members(group, member),
                ),
            },
            r,
        ),
{
    let after = Directory {
        entries: m.entries.remove(Key::MemberOf(member, group)).remove(
            Key::Members(group, member),
        ),
    };
    assert forall|a: u32, b: u32| #[trigger] edge_legal_in(after, r, a, b) by {
        assert(edge_legal_in(m, r, a, b));
    }
}

} // verus!
