//! What the assertions of a batch are good for: of two callers that race
//! for a name one wins and the other finds the winner, and an update that
//! changes nothing leaves the store as it is.

use vstd::prelude::*;
use crate::batch::{OpModel, Stored};
use crate::changes::rename_step;
use crate::error::StoreFault;
use crate::keys::Key;
use crate::model::{commit_push, commit_two, Directory};
use crate::principal::{ChangeModel, PrincipalModel, ValueModel};
use crate::query::{member_of_step, members_step};
use crate::reflect::reflects;
use crate::resolve::Selector;
use crate::snapshot::{Known, Step};
use crate::text::lowercase;
use crate::types::{PrincipalAction, PrincipalField, PrincipalInfo, Type};
use crate::update::{
    change_step, changes_from, initial_state, lock_op, touches_record, update_loaded, update_step,
    usage_step, write_back_op,
};
use crate::upsert::{attempt_step, claim_batch, verdict, AttemptModel, VerdictModel, MAX_RETRIES};

verus! {

/// The store after a name has been claimed for a new principal.
pub open spec fn claimed(d: Directory, name: Seq<char>, typ: Type, id: u32) -> Directory {
    Directory {
        entries: d.entries.insert(
            Key::NameToId(name),
            Stored::Info(PrincipalInfo { id, typ, tenant: None }),
        ).insert(Key::Principal(id), Stored::Record(PrincipalModel::bare(typ, name).with_id(id))),
    }
}

/// Claiming a free name adds the index entry and the record of one new
/// principal and nothing else; claiming a taken name is rejected.
pub proof fn claim_commits_iff_free(d: Directory, name: Seq<char>, typ: Type, id: u32)
    ensures
        d.commit(claim_batch(name, typ), id) == if d.entries.contains_key(Key::NameToId(name)) {
            None
        } else {
            Some(claimed(d, name, typ, id))
        },
{
    let ops = claim_batch(name, typ);
    let a = seq![ops[0]];
    let b = a.push(ops[1]);
    let c = b.push(ops[2]);
    let e = c.push(ops[3]);
    let f = e.push(ops[4]);
    assert(ops =~= f.push(ops[5]));
    assert(a =~= Seq::<OpModel>::empty().push(ops[0]));
    commit_push(d, Seq::empty(), ops[0], id);
    assert(d.commit(Seq::empty(), id) == Some(d));
    commit_push(d, a, ops[1], id);
    commit_push(d, b, ops[2], id);
    commit_push(d, c, ops[3], id);
    commit_push(d, e, ops[4], id);
    commit_push(d, f, ops[5], id);
    if !d.entries.contains_key(Key::NameToId(name)) {
        assert(d.commit(ops, id)->0.entries =~= claimed(d, name, typ, id).entries);
    }
}

/// Two callers look up a free name at the same time and both set out to
/// create a principal for it. Whichever batch the store applies first
/// wins; the other is rejected, the loser tries again, and the new attempt
/// finds the identifier of the winner. The store then holds one record
/// more than before, that of the winner.
pub proof fn racing_callers_agree(
    d: Directory,
    winner: Known,
    loser: Known,
    again: Known,
    raw: Seq<char>,
    typ: Type,
    other_typ: Type,
    id: u32,
    other_id: u32,
    try_count: u32,
)
    requires
        reflects(winner, d),
        reflects(loser, d),
        !d.entries.contains_key(Key::NameToId(lowercase(raw))),
        !d.entries.contains_key(Key::Principal(id)),
        winner.info(lowercase(raw)) is Some,
        loser.info(lowercase(raw)) is Some,
        reflects(again, claimed(d, lowercase(raw), typ, id)),
        again.info(lowercase(raw)) is Some,
        try_count < MAX_RETRIES,
    ensures
        attempt_step(winner, raw, typ) == Step::Done(
            AttemptModel::Create(claim_batch(lowercase(raw), typ)),
        ),
        attempt_step(loser, raw, other_typ) == Step::Done(
            AttemptModel::Create(claim_batch(lowercase(raw), other_typ)),
        ),
        d.commit(claim_batch(lowercase(raw), typ), id) == Some(
            claimed(d, lowercase(raw), typ, id),
        ),
        claimed(d, lowercase(raw), typ, id).commit(
            claim_batch(lowercase(raw), other_typ),
            other_id,
        ) is None,
        verdict(Err(StoreFault::AssertionFailure), try_count) == VerdictModel::Retry(
            (try_count + 1) as u32,
        ),
        attempt_step(again, raw, other_typ) == Step::Done(AttemptModel::Found(id)),
        forall|any: u32|
            #![trigger claimed(d, lowercase(raw), typ, id).record(any)]
            claimed(d, lowercase(raw), typ, id).record(any) == if any == id {
                Some(PrincipalModel::bare(typ, lowercase(raw)).with_id(id))
            } else {
                d.record(any)
            },
{
    let name = lowercase(raw);
    let after = claimed(d, name, typ, id);
    claim_commits_iff_free(d, name, typ, id);
    claim_commits_iff_free(after, name, other_typ, other_id);
    assert(after.entries.contains_key(Key::NameToId(name)));
    assert(after.info(name) == Some(PrincipalInfo { id, typ, tenant: None }));
}

/// The one change that sets the name.
pub open spec fn set_name(raw: Seq<char>) -> Seq<ChangeModel> {
    seq![
        ChangeModel {
            action: PrincipalAction::Replace,
            field: PrincipalField::Name,
            value: ValueModel::String(raw),
        },
    ]
}

/// Setting the name of a principal to the name that it has, in whatever
/// case, changes nothing: the update gives a batch, the store accepts it,
/// and the store is afterwards what it was before. A principal is created
/// under its name in lower case, so that setting its name back to the name
/// in the request that created it is such an update.
pub proof fn rename_to_own_name_is_idle(
    d: Directory,
    known: Known,
    id: u32,
    raw: Seq<char>,
    tenant: Option<u32>,
    assigned: u32,
)
    requires
        reflects(known, d),
        known.record(id) matches Some(Some(hashed)) && hashed.inner.name == lowercase(raw),
        member_of_step(known, id) is Done,
        members_step(known, id) is Done,
    ensures
        update_step(known, Selector::Id(id), set_name(raw), tenant) matches Step::Done(batch)
            && d.commit(batch, assigned) == Some(d),
{
    let hashed = known.record(id)->0->0;
    let changes = set_name(raw);
    let member_of = member_of_step(known, id)->Done_0;
    let members = members_step(known, id)->Done_0;
    assert(!changes[0].field.is_membership());
    assert(touches_record(changes));
    assert(usage_step(known, id, changes, tenant) == Step::Done::<Option<i64>>(None)) by {
        if tenant is None {
            assert(forall|i: int|
                0 <= i < changes.len() ==> (#[trigger] changes[i]).field != PrincipalField::Tenant);
        }
    }
    let c = crate::changes::Context {
        principal_id: id,
        typ: hashed.inner.typ,
        tenant_id: tenant,
        used_quota: None,
    };
    let start = initial_state(id, hashed, member_of, members, true);
    assert(rename_step(start, c, known, raw) == Step::Done(start));
    assert(change_step(start, c, known, changes[0]) == Step::Done(start));
    assert(changes_from(start, c, known, changes, 1) == Step::Done(start));
    assert(changes_from(start, c, known, changes, 0) == Step::Done(start));
    let batch = seq![lock_op(id, hashed), write_back_op(id, start)];
    assert(start.batch.push(write_back_op(id, start)) =~= batch);
    assert(update_loaded(known, id, hashed, member_of, members, None, changes, tenant)
        == Step::Done(batch));
    commit_two(d, lock_op(id, hashed), write_back_op(id, start), assigned);
    assert(d.record(id) == Some(hashed.inner));
    assert(d.entries.insert(Key::Principal(id), Stored::Record(hashed.inner)) =~= d.entries);
}

} // verus!
