//! The delete path: what has to go when a principal goes.

use vstd::prelude::*;
use crate::batch::{edges_paired, paired_push, Batch, BatchBuilder, OpModel};
use crate::changes::usage_op;
use crate::error::{DirectoryError, Fault};
use crate::index::{drop_email_op, drop_name_op, remove_email, remove_name, unlink, unlink_ops};
use crate::keys::{ClassModel, DirectoryClass, MaybeDynamicId};
use crate::messages::{tenant_has_members, tenant_members_fault};
use crate::principal::{PrincipalModel, QueryBy};
use crate::query::{list_step, member_of_step, members_step};
use crate::resolve::{id_step, resolve_id, Selector};
use crate::snapshot::{agrees, Known, Outcome, Question, Snapshot, Step};
use crate::text::{decimal, to_decimal};
use crate::types::{MemberOf, Type};

verus! {

/// What deleting a principal takes: the principal whose blobs, access
/// rights and account data are to be removed first, and the batch to commit
/// once all three are gone.
#[derive(Debug)]
pub struct Deletion {
    pub principal_id: u32,
    pub batch: Batch,
}

/// The mathematical value of a [`Deletion`].
pub struct DeletionModel {
    pub principal_id: u32,
    pub batch: Seq<OpModel>,
}

impl View for Deletion {
    type V = DeletionModel;

    open spec fn view(&self) -> DeletionModel {
        DeletionModel { principal_id: self.principal_id, batch: self.batch@ }
    }
}

/// What has to be settled before a principal of this record may go: an
/// individual or a group in a tenant gives back what it has used, and a
/// tenant must have no principals left.
pub open spec fn release_step(known: Known, id: u32, record: PrincipalModel) -> Step<Seq<OpModel>> {
    if record.typ == Type::Individual || record.typ == Type::Group {
        match record.tenant {
            None => Step::Done(Seq::empty()),
            Some(tenant) => match known.used_quota(id) {
                None => Step::Ask(Question::UsedQuota(id)),
                Some(used) => Step::Done(
                    if used > 0 {
                        seq![usage_op(tenant, -used)]
                    } else {
                        Seq::empty()
                    },
                ),
            },
        }
    } else if record.typ == Type::Tenant {
        match list_step(known, None, None, Some(record.id)) {
            Step::Ask(question) => Step::Ask(question),
            Step::Fail(fault) => Step::Fail(fault),
            Step::Done(names) => if names.len() > 0 {
                Step::Fail(tenant_members_fault(names))
            } else {
                Step::Done(Seq::empty())
            },
        }
    } else {
        Step::Done(Seq::empty())
    }
}

/// The batch after the index entry of every address from position `from`
/// on has been removed.
pub open spec fn drop_emails_from(emails: Seq<Seq<char>>, from: int, batch: Seq<OpModel>) -> Seq<
    OpModel,
>
    decreases emails.len() - from,
{
    if from < 0 || from >= emails.len() {
        batch
    } else {
        drop_emails_from(emails, from + 1, batch.push(drop_email_op(emails[from])))
    }
}

/// The batch after the principal has left everything from position `from`
/// on that it is a member of.
pub open spec fn leave_all_from(
    id: u32,
    member_of: Seq<MemberOf>,
    from: int,
    batch: Seq<OpModel>,
) -> Seq<OpModel>
    decreases member_of.len() - from,
{
    if from < 0 || from >= member_of.len() {
        batch
    } else {
        leave_all_from(
            id,
            member_of,
            from + 1,
            batch + unlink_ops(
                MaybeDynamicId::Static(id),
                MaybeDynamicId::Static(member_of[from].principal_id),
            ),
        )
    }
}

/// The batch after every member from position `from` on has left the
/// principal.
pub open spec fn expel_all_from(id: u32, members: Seq<u32>, from: int, batch: Seq<OpModel>) -> Seq<
    OpModel,
>
    decreases members.len() - from,
{
    if from < 0 || from >= members.len() {
        batch
    } else {
        expel_all_from(
            id,
            members,
            from + 1,
            batch + unlink_ops(MaybeDynamicId::Static(members[from]), MaybeDynamicId::Static(id)),
        )
    }
}

/// The operations that remove the name, the record and the usage counter
/// of a principal.
pub open spec fn erase_ops(id: u32, name: Seq<char>) -> Seq<OpModel> {
    seq![
        OpModel::AccountId(id),
        drop_name_op(name),
        OpModel::Clear { class: ClassModel::Principal(MaybeDynamicId::Static(id)) },
        OpModel::Clear { class: ClassModel::UsedQuota(id) },
    ]
}

/// The batch that deletes a principal: what was settled first, then the
/// name, the record, the usage counter, every address, and every edge from
/// and to the principal together with its opposite.
pub open spec fn delete_batch(
    id: u32,
    record: PrincipalModel,
    settled: Seq<OpModel>,
    member_of: Seq<MemberOf>,
    members: Seq<u32>,
) -> Seq<OpModel> {
    expel_all_from(
        id,
        members,
        0,
        leave_all_from(
            id,
            member_of,
            0,
            drop_emails_from(record.emails, 0, settled + erase_ops(id, record.name)),
        ),
    )
}

/// What a deletion gives.
pub open spec fn delete_step(known: Known, by: Selector) -> Step<DeletionModel> {
    match id_step(known, by) {
        Step::Ask(question) => Step::Ask(question),
        Step::Fail(fault) => Step::Fail(fault),
        Step::Done(id) => match known.record(id) {
            None => Step::Ask(Question::Record(id)),
            Some(None) => Step::Fail(Fault::NotFound(decimal(id as u64))),
            Some(Some(hashed)) => match release_step(known, id, hashed.inner) {
                Step::Ask(question) => Step::Ask(question),
                Step::Fail(fault) => Step::Fail(fault),
                Step::Done(settled) => match member_of_step(known, id) {
                    Step::Ask(question) => Step::Ask(question),
                    Step::Fail(fault) => Step::Fail(fault),
                    Step::Done(member_of) => match members_step(known, id) {
                        Step::Ask(question) => Step::Ask(question),
                        Step::Fail(fault) => Step::Fail(fault),
                        Step::Done(members) => Step::Done(
                            DeletionModel {
                                principal_id: id,
                                batch: delete_batch(id, hashed.inner, settled, member_of, members),
                            },
                        ),
                    },
                },
            },
        },
    }
}

impl Snapshot {
    /// Deletes a principal. The result names the principal and holds the
    /// batch; the caller unlinks the principal's blobs, revokes its access
    /// rights and purges its account, gives up if one of these fails, and
    /// commits the batch last.
    #[verifier::loop_isolation(false)]
    pub fn delete_principal(&self, by: QueryBy) -> (r: Outcome<Deletion>)
        ensures
            agrees(r, delete_step(self@, by@), |d: Deletion, m: DeletionModel| d@ == m),
            r matches Outcome::Done(d) ==> edges_paired(d@.batch),
            self@.well_formed() ==> (r matches Outcome::Ask(query) ==> self@.reply(query@) is None),
    {
        proof {
            if self@.well_formed() {
                crate::progress::delete_asks_anew(self@, by@);
            }
        }
        let principal_id = match resolve_id(self, &by) {
            Outcome::Ask(query) => {
                return Outcome::Ask(query);
            },
            Outcome::Fail(e) => {
                return Outcome::Fail(e);
            },
            Outcome::Done(id) => id,
        };
        let hashed = match self.record(principal_id) {
            Err(query) => {
                return Outcome::Ask(query);
            },
            Ok(None) => {
                return Outcome::Fail(DirectoryError::NotFound(to_decimal(principal_id as u64)));
            },
            Ok(Some(hashed)) => hashed,
        };
        let principal = &hashed.inner;
        let mut batch = BatchBuilder::new();
        match principal.typ {
            Type::Individual | Type::Group => {
                match principal.tenant {
                    Some(tenant) => {
                        let used = match self.used_quota(principal_id) {
                            Err(query) => {
                                return Outcome::Ask(query);
                            },
                            Ok(used) => used,
                        };
                        if used > 0 {
                            proof {
                                paired_push(batch@, usage_op(tenant, -used));
                            }
                            batch.add(DirectoryClass::UsedQuota(tenant), -used);
                            assert(batch@ =~= seq![usage_op(tenant, -used)]);
                        }
                    },
                    None => {},
                }
            },
            Type::Tenant => {
                let names = match self.list_principals(None, None, Some(principal.id)) {
                    Outcome::Ask(query) => {
                        return Outcome::Ask(query);
                    },
                    Outcome::Fail(e) => {
                        return Outcome::Fail(e);
                    },
                    Outcome::Done(names) => names,
                };
                if names.len() > 0 {
                    return Outcome::Fail(tenant_has_members(&names));
                }
            },
            _ => {},
        }
        let ghost settled = batch@;
        assert(release_step(self@, principal_id, principal@) == Step::Done::<Seq<OpModel>>(settled));
        let member_of = match self.get_member_of(principal_id) {
            Outcome::Ask(query) => {
                return Outcome::Ask(query);
            },
            Outcome::Fail(e) => {
                return Outcome::Fail(e);
            },
            Outcome::Done(list) => list,
        };
        let members = match self.get_members(principal_id) {
            Outcome::Ask(query) => {
                return Outcome::Ask(query);
            },
            Outcome::Fail(e) => {
                return Outcome::Fail(e);
            },
            Outcome::Done(list) => list,
        };
        proof {
            paired_push(batch@, OpModel::AccountId(principal_id));
        }
        batch.with_account_id(principal_id);
        remove_name(&mut batch, principal.name.clone());
        proof {
            paired_push(batch@, erase_ops(principal_id, principal@.name)[2]);
        }
        batch.clear(DirectoryClass::Principal(MaybeDynamicId::Static(principal_id)));
        proof {
            paired_push(batch@, erase_ops(principal_id, principal@.name)[3]);
        }
        batch.clear(DirectoryClass::UsedQuota(principal_id));
        assert(batch@ =~= settled + erase_ops(principal_id, principal@.name));
        let ghost erased = batch@;
        let mut i: usize = 0;
        while i < principal.emails.len()
            invariant
                i <= principal.emails.len(),
                edges_paired(batch@),
                drop_emails_from(principal@.emails, 0, erased) == drop_emails_from(
                    principal@.emails,
                    i as int,
                    batch@,
                ),
            decreases principal.emails.len() - i,
        {
            assert(principal@.emails[i as int] == principal.emails[i as int]@);
            remove_email(&mut batch, principal.emails[i].clone());
            i = i + 1;
        }
        let ghost unfiled = batch@;
        let mut j: usize = 0;
        while j < member_of.len()
            invariant
                j <= member_of.len(),
                edges_paired(batch@),
                leave_all_from(principal_id, member_of@, 0, unfiled) == leave_all_from(
                    principal_id,
                    member_of@,
                    j as int,
                    batch@,
                ),
            decreases member_of.len() - j,
        {
            unlink(
                &mut batch,
                MaybeDynamicId::Static(principal_id),
                MaybeDynamicId::Static(member_of[j].principal_id),
            );
            j = j + 1;
        }
        let ghost left = batch@;
        let mut k: usize = 0;
        while k < members.len()
            invariant
                k <= members.len(),
                edges_paired(batch@),
                expel_all_from(principal_id, members@, 0, left) == expel_all_from(
                    principal_id,
                    members@,
                    k as int,
                    batch@,
                ),
            decreases members.len() - k,
        {
            unlink(
                &mut batch,
                MaybeDynamicId::Static(members[k]),
                MaybeDynamicId::Static(principal_id),
            );
            k = k + 1;
        }
        Outcome::Done(Deletion { principal_id, batch: batch.build() })
    }
}

} // verus!
