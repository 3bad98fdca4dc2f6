//! Finding the identifier of a name or creating a principal for it, for
//! directories that learn of a principal only when it first shows up.
//!
//! One attempt looks the name up and, where it is free, builds the batch
//! that claims it. Two callers may race for a name; the batch of the loser
//! fails on its assertion, and the loser tries again a bounded number of
//! times.

use vstd::prelude::*;
use crate::batch::{
    edges_paired, paired_push, AssertModel, AssertValue, Batch, BatchBuilder, BatchValue,
    Collection, OpModel, PayloadModel,
};
use crate::create::{new_record_op, META_ACCOUNT};
use crate::error::{DirectoryError, Fault, StoreError, StoreFault};
use crate::index::{add_name, name_op};
use crate::keys::{ClassModel, DirectoryClass, MaybeDynamicId};
use crate::principal::{Principal, PrincipalModel};
use crate::snapshot::{agrees, Known, Outcome, Question, Snapshot, Step};
use crate::text::{lowercase, to_lowercase};
use crate::types::{DynamicPrincipalInfo, Type};

verus! {

/// How often a lost race is tried again.
pub const MAX_RETRIES: u32 = 3;

/// What one attempt gives: the identifier under the name, or the batch that
/// creates a principal of that name.
#[derive(Debug)]
pub enum Attempt {
    Found(u32),
    Create(Batch),
}

/// The mathematical value of an [`Attempt`].
pub enum AttemptModel {
    Found(u32),
    Create(Seq<OpModel>),
}

impl View for Attempt {
    type V = AttemptModel;

    open spec fn view(&self) -> AttemptModel {
        match self {
            Attempt::Found(id) => AttemptModel::Found(*id),
            Attempt::Create(batch) => AttemptModel::Create(batch@),
        }
    }
}

/// The batch that claims a free name for a new principal of kind `typ`: it
/// asserts that the name is free, reserves an identifier, and writes the
/// index entry and the bare record.
pub open spec fn claim_batch(name: Seq<char>, typ: Type) -> Seq<OpModel> {
    seq![
        OpModel::AccountId(META_ACCOUNT),
        OpModel::Collection(Collection::Principal),
        OpModel::AssertValue { class: ClassModel::NameToId(name), assert_value: AssertModel::Absent },
        OpModel::CreateDocument,
        name_op(name, PayloadModel::DynamicInfo(DynamicPrincipalInfo { typ, tenant: None })),
        new_record_op(PrincipalModel::bare(typ, name)),
    ]
}

/// What one attempt on the lower-cased name gives.
pub open spec fn attempt_step(known: Known, raw: Seq<char>, typ: Type) -> Step<AttemptModel> {
    let name = lowercase(raw);
    match known.info(name) {
        None => Step::Ask(Question::Info(name)),
        Some(Some(info)) => Step::Done(AttemptModel::Found(info.id)),
        Some(None) => Step::Done(AttemptModel::Create(claim_batch(name, typ))),
    }
}

/// What follows the commit of a claiming batch.
#[derive(Debug, PartialEq, Eq)]
pub enum Verdict {
    /// The operation ends with this result.
    Return(Result<u32, DirectoryError>),
    /// The race was lost: attempt again, with this count of retries.
    Retry(u32),
}

/// The mathematical value of a [`Verdict`].
pub enum VerdictModel {
    Id(u32),
    Failed(Fault),
    Retry(u32),
}

impl View for Verdict {
    type V = VerdictModel;

    open spec fn view(&self) -> VerdictModel {
        match self {
            Verdict::Return(Ok(id)) => VerdictModel::Id(*id),
            Verdict::Return(Err(e)) => VerdictModel::Failed(e@),
            Verdict::Retry(n) => VerdictModel::Retry(*n),
        }
    }
}

/// The mathematical value of the result of a commit.
pub open spec fn written(result: Result<u32, StoreError>) -> Result<u32, StoreFault> {
    match result {
        Ok(id) => Ok(id),
        Err(e) => Err(e@),
    }
}

/// What follows a commit after `try_count` retries: the new identifier
/// ends the operation; a failed assertion leads to another attempt while
/// fewer than three retries were made; every other failure, and a failed
/// assertion after the third retry, ends the operation with that failure.
pub open spec fn verdict(result: Result<u32, StoreFault>, try_count: u32) -> VerdictModel {
    match result {
        Ok(id) => VerdictModel::Id(id),
        Err(fault) => if fault == StoreFault::AssertionFailure && try_count < MAX_RETRIES {
            VerdictModel::Retry((try_count + 1) as u32)
        } else {
            VerdictModel::Failed(Fault::Store(fault))
        },
    }
}

/// Decides what follows the commit of a claiming batch.
pub fn retry_or_return(result: Result<u32, StoreError>, try_count: u32) -> (r: Verdict)
    ensures
        r@ == verdict(written(result), try_count),
{
    match result {
        Ok(id) => Verdict::Return(Ok(id)),
        Err(e) => {
            if e.is_assertion_failure() && try_count < MAX_RETRIES {
                Verdict::Retry(try_count + 1)
            } else {
                Verdict::Return(Err(DirectoryError::Store(e)))
            }
        },
    }
}

impl Snapshot {
    /// One attempt to find the identifier of a name or to create a
    /// principal for it.
    pub fn get_or_create_principal_id(&self, name: &str, typ: Type) -> (r: Outcome<Attempt>)
        ensures
            agrees(r, attempt_step(self@, name@, typ), |a: Attempt, m: AttemptModel| a@ == m),
            r matches Outcome::Done(Attempt::Create(b)) ==> edges_paired(b@),
            self@.well_formed() ==> (r matches Outcome::Ask(query) ==> self@.reply(query@) is None),
    {
        proof {
            if self@.well_formed() {
                crate::progress::reading_asks_anew(self@, None, None, None, 0, name@, typ);
            }
        }
        let name = to_lowercase(name);
        match self.info(name.as_str()) {
            Err(query) => {
                return Outcome::Ask(query);
            },
            Ok(Some(info)) => {
                return Outcome::Done(Attempt::Found(info.id));
            },
            Ok(None) => {},
        }
        let ghost claim = claim_batch(name@, typ);
        let mut batch = BatchBuilder::new();
        proof {
            paired_push(batch@, claim[0]);
        }
        batch.with_account_id(META_ACCOUNT);
        proof {
            paired_push(batch@, claim[1]);
        }
        batch.with_collection(Collection::Principal);
        proof {
            paired_push(batch@, claim[2]);
        }
        batch.assert_value(DirectoryClass::NameToId(name.clone()), AssertValue::Absent);
        proof {
            paired_push(batch@, claim[3]);
        }
        batch.create_document();
        add_name(
            &mut batch,
            name.clone(),
            BatchValue::DynamicInfo(DynamicPrincipalInfo::new(typ, None)),
        );
        proof {
            paired_push(batch@, claim[5]);
        }
        batch.set(
            DirectoryClass::Principal(MaybeDynamicId::Dynamic(0)),
            BatchValue::DynamicRecord(Principal::new(typ, name)),
        );
        assert(batch@ =~= claim);
        Outcome::Done(Attempt::Create(batch.build()))
    }
}

} // verus!
