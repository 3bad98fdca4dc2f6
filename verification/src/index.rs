//! Keeping the secondary indexes in step with the principal records.
//!
//! Every write to the name index, the e-mail index or the membership graph
//! goes through one of these functions. An edge is never written or removed
//! without the opposite edge in the very next operation.

use vstd::prelude::*;
use crate::batch::{
    edges_paired, paired_push, paired_push_pair, BatchBuilder, BatchValue, OpModel, PayloadModel,
};
use crate::keys::{ClassModel, DirectoryClass, MaybeDynamicId};
use crate::types::{PrincipalInfo, Type};

verus! {

/// The operation that files `info` under a name.
pub open spec fn name_op(name: Seq<char>, info: PayloadModel) -> OpModel {
    OpModel::Put { class: ClassModel::NameToId(name), value: info }
}

/// The operation that takes a name out of the index.
pub open spec fn drop_name_op(name: Seq<char>) -> OpModel {
    OpModel::Clear { class: ClassModel::NameToId(name) }
}

/// The operation that files `info` under an address.
pub open spec fn email_op(email: Seq<char>, info: PayloadModel) -> OpModel {
    OpModel::Put { class: ClassModel::EmailToId(email), value: info }
}

/// The operation that takes an address out of the index.
pub open spec fn drop_email_op(email: Seq<char>) -> OpModel {
    OpModel::Clear { class: ClassModel::EmailToId(email) }
}

/// The two operations that make `member` a member of `group`, a principal
/// of kind `typ`: the forward edge with the kind on it, then the reverse.
pub open spec fn link_ops(member: MaybeDynamicId, group: MaybeDynamicId, typ: Type) -> Seq<
    OpModel,
> {
    seq![
        OpModel::Put {
            class: ClassModel::MemberOf { principal_id: member, member_of: group },
            value: PayloadModel::Bytes(seq![typ.code()]),
        },
        OpModel::Put {
            class: ClassModel::Members { principal_id: group, has_member: member },
            value: PayloadModel::Bytes(Seq::empty()),
        },
    ]
}

/// The two operations that end the membership of `member` in `group`.
pub open spec fn unlink_ops(member: MaybeDynamicId, group: MaybeDynamicId) -> Seq<OpModel> {
    seq![
        OpModel::Clear { class: ClassModel::MemberOf { principal_id: member, member_of: group } },
        OpModel::Clear { class: ClassModel::Members { principal_id: group, has_member: member } },
    ]
}

/// Adding a pair of edge operations keeps a batch paired.
pub proof fn paired_after_link(
    ops: Seq<OpModel>,
    member: MaybeDynamicId,
    group: MaybeDynamicId,
    typ: Type,
)
    requires
        edges_paired(ops),
    ensures
        edges_paired(ops + link_ops(member, group, typ)),
        edges_paired(ops + unlink_ops(member, group)),
{
    let l = link_ops(member, group, typ);
    let u = unlink_ops(member, group);
    paired_push_pair(ops, l[0], l[1]);
    paired_push_pair(ops, u[0], u[1]);
    assert(ops + l =~= ops.push(l[0]).push(l[1]));
    assert(ops + u =~= ops.push(u[0]).push(u[1]));
}

/// Files `info` under `name`.
pub fn add_name(batch: &mut BatchBuilder, name: String, info: BatchValue)
    ensures
        final(batch)@ == old(batch)@.push(name_op(name@, info@)),
        edges_paired(old(batch)@) ==> edges_paired(final(batch)@),
{
    proof {
        if edges_paired(batch@) {
            paired_push(batch@, name_op(name@, info@));
        }
    }
    batch.set(DirectoryClass::NameToId(name), info);
}

/// Takes `name` out of the index.
pub fn remove_name(batch: &mut BatchBuilder, name: String)
    ensures
        final(batch)@ == old(batch)@.push(drop_name_op(name@)),
        edges_paired(old(batch)@) ==> edges_paired(final(batch)@),
{
    proof {
        if edges_paired(batch@) {
            paired_push(batch@, drop_name_op(name@));
        }
    }
    batch.clear(DirectoryClass::NameToId(name));
}

/// Moves a principal from one name to another.
pub fn rename(batch: &mut BatchBuilder, old_name: String, new_name: String, info: PrincipalInfo)
    ensures
        final(batch)@ == old(batch)@.push(drop_name_op(old_name@)).push(
            name_op(new_name@, PayloadModel::Info(info)),
        ),
        edges_paired(old(batch)@) ==> edges_paired(final(batch)@),
{
    remove_name(batch, old_name);
    add_name(batch, new_name, BatchValue::Info(info));
}

/// Files `info` under `email`.
pub fn add_email(batch: &mut BatchBuilder, email: String, info: BatchValue)
    ensures
        final(batch)@ == old(batch)@.push(email_op(email@, info@)),
        edges_paired(old(batch)@) ==> edges_paired(final(batch)@),
{
    proof {
        if edges_paired(batch@) {
            paired_push(batch@, email_op(email@, info@));
        }
    }
    batch.set(DirectoryClass::EmailToId(email), info);
}

/// Takes `email` out of the index.
pub fn remove_email(batch: &mut BatchBuilder, email: String)
    ensures
        final(batch)@ == old(batch)@.push(drop_email_op(email@)),
        edges_paired(old(batch)@) ==> edges_paired(final(batch)@),
{
    proof {
        if edges_paired(batch@) {
            paired_push(batch@, drop_email_op(email@));
        }
    }
    batch.clear(DirectoryClass::EmailToId(email));
}

/// Makes `member` a member of `group`, a principal of kind `typ`.
pub fn link(batch: &mut BatchBuilder, member: MaybeDynamicId, group: MaybeDynamicId, typ: Type)
    ensures
        final(batch)@ == old(batch)@ + link_ops(member, group, typ),
        edges_paired(old(batch)@) ==> edges_paired(final(batch)@),
{
    proof {
        if edges_paired(batch@) {
            paired_after_link(batch@, member, group, typ);
        }
    }
    let mut kind: Vec<u8> = Vec::new();
    kind.push(typ.to_u8());
    assert(kind@ =~= seq![typ.code()]);
    batch.set(
        DirectoryClass::MemberOf { principal_id: member, member_of: group },
        BatchValue::Bytes(kind),
    );
    batch.set(
        DirectoryClass::Members { principal_id: group, has_member: member },
        BatchValue::Bytes(Vec::new()),
    );
    assert(batch@ =~= old(batch)@ + link_ops(member, group, typ));
}

/// Ends the membership of `member` in `group`.
pub fn unlink(batch: &mut BatchBuilder, member: MaybeDynamicId, group: MaybeDynamicId)
    ensures
        final(batch)@ == old(batch)@ + unlink_ops(member, group),
        edges_paired(old(batch)@) ==> edges_paired(final(batch)@),
{
    proof {
        if edges_paired(batch@) {
            paired_after_link(batch@, member, group, Type::Group);
        }
    }
    batch.clear(DirectoryClass::MemberOf { principal_id: member, member_of: group });
    batch.clear(DirectoryClass::Members { principal_id: group, has_member: member });
    assert(batch@ =~= old(batch)@ + unlink_ops(member, group));
}

} // verus!
