//! The directory as the store holds it, and what committing a batch does
//! to it. Nothing here runs: it is the mathematics against which the
//! batches of the engine are judged.

use vstd::prelude::*;
use crate::batch::{AssertModel, OpModel, Stored};
use crate::keys::{ClassModel, Key};
use crate::principal::PrincipalModel;
use crate::types::PrincipalInfo;

verus! {

/// The contents of the store.
pub struct Directory {
    pub entries: Map<Key, Stored>,
}

impl Directory {
    /// What the name index holds for a name.
    pub open spec fn info(self, name: Seq<char>) -> Option<PrincipalInfo> {
        if self.entries.contains_key(Key::NameToId(name)) {
            match self.entries[Key::NameToId(name)] {
                Stored::Info(info) => Some(info),
                _ => None,
            }
        } else {
            None
        }
    }

    /// What the e-mail index holds for an address.
    pub open spec fn email(self, email: Seq<char>) -> Option<PrincipalInfo> {
        if self.entries.contains_key(Key::EmailToId(email)) {
            match self.entries[Key::EmailToId(email)] {
                Stored::Info(info) => Some(info),
                _ => None,
            }
        } else {
            None
        }
    }

    /// The record of a principal.
    pub open spec fn record(self, id: u32) -> Option<PrincipalModel> {
        if self.entries.contains_key(Key::Principal(id)) {
            match self.entries[Key::Principal(id)] {
                Stored::Record(record) => Some(record),
                _ => None,
            }
        } else {
            None
        }
    }

    /// Whether `member` is a member of `group` by the forward edges.
    pub open spec fn is_member_of(self, member: u32, group: u32) -> bool {
        self.entries.contains_key(Key::MemberOf(member, group))
    }

    /// Whether `group` has `member` by the reverse edges.
    pub open spec fn has_member(self, group: u32, member: u32) -> bool {
        self.entries.contains_key(Key::Members(group, member))
    }

    /// The usage counter of a principal; a counter that is not there
    /// counts as nothing.
    pub open spec fn counter(self, id: u32) -> int {
        if self.entries.contains_key(Key::UsedQuota(id)) {
            match self.entries[Key::UsedQuota(id)] {
                Stored::Counter(n) => n,
                _ => 0,
            }
        } else {
            0
        }
    }

    /// Whether the store holds under `key` what a batch expects there. The
    /// store compares hashes; equal records stand for equal hashes here.
    pub open spec fn expects(self, key: Key, expected: AssertModel) -> bool {
        match expected {
            AssertModel::Absent => !self.entries.contains_key(key),
            AssertModel::Unchanged(hashed) => self.entries.contains_key(key) && self.entries[key]
                == Stored::Record(hashed.inner),
        }
    }

    /// The store after one operation of a batch to which `id` was assigned,
    /// or nothing where an assertion of the batch does not hold.
    pub open spec fn apply(self, op: OpModel, id: u32) -> Option<Directory> {
        match op {
            OpModel::AccountId(_) | OpModel::Collection(_) | OpModel::CreateDocument => Some(self),
            OpModel::AssertValue { class, assert_value } => if self.expects(
                class.bind(id),
                assert_value,
            ) {
                Some(self)
            } else {
                None
            },
            OpModel::Put { class, value } => Some(
                Directory { entries: self.entries.insert(class.bind(id), value.bind(id)) },
            ),
            OpModel::Clear { class } => Some(
                Directory { entries: self.entries.remove(class.bind(id)) },
            ),
            OpModel::Add { class, by } => match class {
                ClassModel::UsedQuota(account) => Some(
                    Directory {
                        entries: self.entries.insert(
                            Key::UsedQuota(account),
                            Stored::Counter(self.counter(account) + by),
                        ),
                    },
                ),
                _ => Some(self),
            },
        }
    }

    /// The store after a batch to which `id` was assigned, or nothing where
    /// the store rejects the batch: the operations apply in order, and all
    /// or none.
    pub open spec fn commit(self, ops: Seq<OpModel>, id: u32) -> Option<Directory>
        decreases ops.len(),
    {
        if ops.len() == 0 {
            Some(self)
        } else {
            match self.commit(ops.drop_last(), id) {
                Some(before) => before.apply(ops.last(), id),
                None => None,
            }
        }
    }
}

/// Committing a batch with one more operation is committing the batch and
/// then applying the operation.
pub proof fn commit_push(d: Directory, ops: Seq<OpModel>, op: OpModel, id: u32)
    ensures
        d.commit(ops.push(op), id) == match d.commit(ops, id) {
            Some(before) => before.apply(op, id),
            None => None,
        },
{
    assert(ops.push(op).drop_last() =~= ops);
}

/// Committing two batches in a row is committing the first and then the
/// second.
pub proof fn commit_append(d: Directory, first: Seq<OpModel>, second: Seq<OpModel>, id: u32)
    ensures
        d.commit(first + second, id) == match d.commit(first, id) {
            Some(before) => before.commit(second, id),
            None => None,
        },
    decreases second.len(),
{
    if second.len() == 0 {
        assert(first + second =~= first);
    } else {
        assert((first + second).drop_last() =~= first + second.drop_last());
        commit_append(d, first, second.drop_last(), id);
    }
}

/// Committing a batch of one operation is applying it.
pub proof fn commit_one(d: Directory, op: OpModel, id: u32)
    ensures
        d.commit(seq![op], id) == d.apply(op, id),
{
    assert(seq![op] =~= Seq::<OpModel>::empty().push(op));
    commit_push(d, Seq::empty(), op, id);
    assert(d.commit(Seq::empty(), id) == Some(d));
}

/// Committing a batch of two operations is applying one after the other.
pub proof fn commit_two(d: Directory, first: OpModel, second: OpModel, id: u32)
    ensures
        d.commit(seq![first, second], id) == match d.apply(first, id) {
            Some(before) => before.apply(second, id),
            None => None,
        },
{
    assert(seq![first, second] =~= seq![first].push(second));
    commit_push(d, seq![first], second, id);
    commit_one(d, first, id);
}

/// An operation in which the assigned identifier has been filled in does
/// to a store, whatever identifier it is then given, what the operation
/// itself does under the assigned identifier.
pub proof fn resolved_applies_alike(d: Directory, op: OpModel, resolved: OpModel, id: u32, any: u32)
    requires
        resolved.resolved_from(op, id),
    ensures
        d.apply(resolved, any) == d.apply(op, id),
{
    match op {
        OpModel::AssertValue { class, assert_value } => {
            assert(resolved->AssertValue_class.bind(any) == class.bind(id));
        },
        OpModel::Put { class, value } => {
            assert(resolved->Put_class.bind(any) == class.bind(id));
            assert(resolved->Put_value.bind(any) == value.bind(id));
        },
        OpModel::Clear { class } => {
            assert(resolved->Clear_class.bind(any) == class.bind(id));
        },
        OpModel::Add { class, by } => {
            assert(resolved->Add_class.bind(any) == class.bind(id));
        },
        _ => {},
    }
}

/// Committing a batch in which the assigned identifier has been filled in
/// does to a store what committing the batch itself under that identifier
/// does.
pub proof fn resolved_commits_alike(
    d: Directory,
    ops: Seq<OpModel>,
    resolved: Seq<OpModel>,
    id: u32,
    any: u32,
)
    requires
        resolved.len() == ops.len(),
        forall|i: int| 0 <= i < ops.len() ==> (#[trigger] resolved[i]).resolved_from(ops[i], id),
    ensures
        d.commit(resolved, any) == d.commit(ops, id),
    decreases ops.len(),
{
    if ops.len() > 0 {
        assert forall|i: int| 0 <= i < ops.drop_last().len() implies (
        #[trigger] resolved.drop_last()[i]).resolved_from(ops.drop_last()[i], id) by {
            assert(resolved[i].resolved_from(ops[i], id));
        }
        resolved_commits_alike(d, ops.drop_last(), resolved.drop_last(), id, any);
        assert(resolved.last().resolved_from(ops.last(), id));
        match d.commit(ops.drop_last(), id) {
            Some(before) => {
                resolved_applies_alike(before, ops.last(), resolved.last(), id, any);
            },
            None => {},
        }
    }
}

} // verus!
