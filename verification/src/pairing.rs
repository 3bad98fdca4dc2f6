//! Every batch of the engine writes and removes edges in pairs, and so
//! every batch of the engine keeps the two directions of the membership
//! graph in step.

use vstd::prelude::*;
use crate::batch::{edges_paired, paired_push, OpModel};
use crate::changes::{
    add_email_step, admit_from, join_from, leave_from, move_to_tenant, rename_step, retire_from,
    tenant_step, usage_op, Context, StateModel,
};
use crate::create::{
    adopt_from, create_step, file_emails_from, fresh, join_new_from, new_batch, new_header,
    new_record_op,
};
use crate::delete::{
    delete_batch, delete_step, drop_emails_from, erase_ops, expel_all_from, leave_all_from,
};
use crate::index::{drop_email_op, drop_name_op, email_op, name_op, paired_after_link};
use crate::keys::MaybeDynamicId;
use crate::model::Directory;
use crate::principal::{ChangeModel, PrincipalModel, PrincipalSetModel};
use crate::resolve::{admit_email_step, target_step, Selector};
use crate::snapshot::{Known, Step};
use crate::symmetry::{paired_batch_keeps_symmetry, symmetric};
use crate::types::{DynamicPrincipalInfo, MemberOf, PrincipalField, PrincipalInfo, Type};
use crate::update::{
    change_step, changes_from, initial_state, lock_op, touches_record, update_step, write_back_op,
};
use crate::upsert::{attempt_step, claim_batch, AttemptModel};

verus! {

/// Whether a step of the update, if it is done, has left the batch paired.
pub open spec fn stays_paired(step: Step<StateModel>) -> bool {
    step matches Step::Done(next) ==> edges_paired(next.batch)
}

proof fn admit_stays_paired(
    known: Known,
    c: Context,
    current: Seq<Seq<char>>,
    emails: Seq<Seq<char>>,
    from: int,
    batch: Seq<OpModel>,
)
    requires
        0 <= from <= emails.len(),
        edges_paired(batch),
    ensures
        admit_from(known, c, current, emails, from, batch) matches Step::Done(done)
            ==> edges_paired(done),
    decreases emails.len() - from,
{
    if from < emails.len() {
        if current.contains(emails[from]) {
            admit_stays_paired(known, c, current, emails, from + 1, batch);
        } else {
            match admit_email_step(known, emails[from]) {
                Step::Done(_) => {
                    let op = email_op(
                        emails[from],
                        crate::batch::PayloadModel::Info(c.email_info()),
                    );
                    paired_push(batch, op);
                    admit_stays_paired(known, c, current, emails, from + 1, batch.push(op));
                },
                _ => {},
            }
        }
    }
}

proof fn retire_stays_paired(
    current: Seq<Seq<char>>,
    emails: Seq<Seq<char>>,
    from: int,
    batch: Seq<OpModel>,
)
    requires
        0 <= from <= current.len(),
        edges_paired(batch),
    ensures
        edges_paired(retire_from(current, emails, from, batch)),
    decreases current.len() - from,
{
    if from < current.len() {
        if emails.contains(current[from]) {
            retire_stays_paired(current, emails, from + 1, batch);
        } else {
            paired_push(batch, drop_email_op(current[from]));
            retire_stays_paired(
                current,
                emails,
                from + 1,
                batch.push(drop_email_op(current[from])),
            );
        }
    }
}

proof fn tie_stays_paired(
    c: Context,
    field: PrincipalField,
    peer: PrincipalInfo,
    batch: Seq<OpModel>,
)
    requires
        edges_paired(batch),
    ensures
        edges_paired(batch + c.link(field, peer)),
        edges_paired(batch + c.unlink(field, peer.id)),
{
    paired_after_link(
        batch,
        MaybeDynamicId::Static(peer.id),
        MaybeDynamicId::Static(c.principal_id),
        c.typ,
    );
    paired_after_link(
        batch,
        MaybeDynamicId::Static(c.principal_id),
        MaybeDynamicId::Static(peer.id),
        peer.typ,
    );
}

proof fn join_stays_paired(
    known: Known,
    c: Context,
    field: PrincipalField,
    current: Seq<u32>,
    names: Seq<Seq<char>>,
    from: int,
    batch: Seq<OpModel>,
    joined: Seq<u32>,
)
    requires
        0 <= from <= names.len(),
        edges_paired(batch),
    ensures
        join_from(known, c, field, current, names, from, batch, joined) matches Step::Done(done)
            ==> edges_paired(done.0),
    decreases names.len() - from,
{
    if from < names.len() {
        match target_step(known, field, names[from], c.tenant_id) {
            Step::Done(peer) => match c.refusal(field, names[from], peer) {
                None => {
                    tie_stays_paired(c, field, peer, batch);
                    join_stays_paired(
                        known,
                        c,
                        field,
                        current,
                        names,
                        from + 1,
                        if current.contains(peer.id) {
                            batch
                        } else {
                            batch + c.link(field, peer)
                        },
                        joined.push(peer.id),
                    );
                },
                Some(_) => {},
            },
            _ => {},
        }
    }
}

proof fn leave_stays_paired(
    c: Context,
    field: PrincipalField,
    current: Seq<u32>,
    joined: Seq<u32>,
    from: int,
    batch: Seq<OpModel>,
)
    requires
        0 <= from <= current.len(),
        edges_paired(batch),
    ensures
        edges_paired(leave_from(c, field, current, joined, from, batch)),
    decreases current.len() - from,
{
    if from < current.len() {
        let peer = PrincipalInfo { id: current[from], typ: c.typ, tenant: None };
        tie_stays_paired(c, field, peer, batch);
        leave_stays_paired(
            c,
            field,
            current,
            joined,
            from + 1,
            if joined.contains(current[from]) {
                batch
            } else {
                batch + c.unlink(field, current[from])
            },
        );
    }
}

/// Every change leaves a paired batch paired.
pub proof fn change_stays_paired(s: StateModel, c: Context, known: Known, change: ChangeModel)
    requires
        edges_paired(s.batch),
    ensures
        stays_paired(change_step(s, c, known, change)),
{
    match change.value {
        crate::principal::ValueModel::String(text) => {
            match rename_step(s, c, known, text) {
                Step::Done(next) => {
                    if next != s {
                        let clear = drop_name_op(s.principal.name);
                        paired_push(s.batch, clear);
                        paired_push(
                            s.batch.push(clear),
                            name_op(
                                crate::text::lowercase(text),
                                crate::batch::PayloadModel::Info(s.pinfo_name),
                            ),
                        );
                    }
                },
                _ => {},
            }
            match tenant_step(s, c, known, text) {
                Step::Done(next) => {
                    if next != s {
                        let tenant = next.principal.tenant;
                        assert(next == move_to_tenant(s, c, tenant));
                        let left = match (c.used_quota, s.principal.tenant) {
                            (Some(used), Some(old)) => s.batch.push(usage_op(old, -used)),
                            _ => s.batch,
                        };
                        match (c.used_quota, s.principal.tenant) {
                            (Some(used), Some(old)) => {
                                paired_push(s.batch, usage_op(old, -used));
                            },
                            _ => {},
                        }
                        let joined = match (c.used_quota, tenant) {
                            (Some(used), Some(new)) => left.push(usage_op(new, used as int)),
                            _ => left,
                        };
                        match (c.used_quota, tenant) {
                            (Some(used), Some(new)) => {
                                paired_push(left, usage_op(new, used as int));
                            },
                            _ => {},
                        }
                        paired_push(
                            joined,
                            name_op(
                                s.principal.name,
                                crate::batch::PayloadModel::Info(c.name_info(tenant)),
                            ),
                        );
                    }
                },
                _ => {},
            }
            match add_email_step(s, c, known, text) {
                Step::Done(next) => {
                    paired_push(
                        s.batch,
                        email_op(
                            crate::text::lowercase(text),
                            crate::batch::PayloadModel::Info(c.email_info()),
                        ),
                    );
                },
                _ => {},
            }
            paired_push(s.batch, drop_email_op(crate::text::lowercase(text)));
            match target_step(known, change.field, text, c.tenant_id) {
                Step::Done(peer) => {
                    tie_stays_paired(c, change.field, peer, s.batch);
                },
                _ => {},
            }
            match crate::resolve::peer_id_step(known, change.field, text) {
                Step::Done(Some(peer)) => {
                    tie_stays_paired(
                        c,
                        change.field,
                        PrincipalInfo { id: peer, typ: c.typ, tenant: None },
                        s.batch,
                    );
                },
                _ => {},
            }
        },
        crate::principal::ValueModel::StringList(list) => {
            let emails = crate::lists::distinct(crate::lists::lowered(list));
            admit_stays_paired(known, c, s.principal.emails, emails, 0, s.batch);
            match admit_from(known, c, s.principal.emails, emails, 0, s.batch) {
                Step::Done(done) => {
                    retire_stays_paired(s.principal.emails, emails, 0, done);
                },
                _ => {},
            }
            join_stays_paired(
                known,
                c,
                change.field,
                s.peers(change.field),
                list,
                0,
                s.batch,
                Seq::empty(),
            );
            match join_from(
                known,
                c,
                change.field,
                s.peers(change.field),
                list,
                0,
                s.batch,
                Seq::empty(),
            ) {
                Step::Done(done) => {
                    leave_stays_paired(c, change.field, s.peers(change.field), done.1, 0, done.0);
                },
                _ => {},
            }
        },
        _ => {},
    }
}

proof fn changes_stay_paired(
    s: StateModel,
    c: Context,
    known: Known,
    changes: Seq<ChangeModel>,
    from: int,
)
    requires
        0 <= from <= changes.len(),
        edges_paired(s.batch),
    ensures
        stays_paired(changes_from(s, c, known, changes, from)),
    decreases changes.len() - from,
{
    if from < changes.len() {
        change_stays_paired(s, c, known, changes[from]);
        match change_step(s, c, known, changes[from]) {
            Step::Done(next) => {
                changes_stay_paired(next, c, known, changes, from + 1);
            },
            _ => {},
        }
    }
}

/// The batch of an update is paired.
pub proof fn update_is_paired(
    known: Known,
    by: Selector,
    changes: Seq<ChangeModel>,
    tenant: Option<u32>,
)
    ensures
        update_step(known, by, changes, tenant) matches Step::Done(batch) ==> edges_paired(batch),
{
    match update_step(known, by, changes, tenant) {
        Step::Done(batch) => {
            let id = crate::resolve::id_step(known, by)->Done_0;
            let hashed = known.record(id)->0->0;
            let member_of = crate::query::member_of_step(known, id)->Done_0;
            let members = crate::query::members_step(known, id)->Done_0;
            let used_quota = crate::update::usage_step(known, id, changes, tenant)->Done_0;
            let locked = touches_record(changes);
            let c = Context {
                principal_id: id,
                typ: hashed.inner.typ,
                tenant_id: tenant,
                used_quota,
            };
            let start = initial_state(id, hashed, member_of, members, locked);
            if locked {
                paired_push(Seq::empty(), lock_op(id, hashed));
                assert(start.batch =~= Seq::<OpModel>::empty().push(lock_op(id, hashed)));
            }
            changes_stay_paired(start, c, known, changes, 0);
            let last = changes_from(start, c, known, changes, 0)->Done_0;
            if locked {
                paired_push(last.batch, write_back_op(id, last));
            }
        },
        _ => {},
    }
}

proof fn file_emails_stay_paired(
    emails: Seq<Seq<char>>,
    info: DynamicPrincipalInfo,
    from: int,
    batch: Seq<OpModel>,
)
    requires
        0 <= from <= emails.len(),
        edges_paired(batch),
    ensures
        edges_paired(file_emails_from(emails, info, from, batch)),
    decreases emails.len() - from,
{
    if from < emails.len() {
        let op = email_op(emails[from], crate::batch::PayloadModel::DynamicInfo(info));
        paired_push(batch, op);
        file_emails_stay_paired(emails, info, from + 1, batch.push(op));
    }
}

proof fn join_new_stays_paired(groups: Seq<PrincipalInfo>, from: int, batch: Seq<OpModel>)
    requires
        0 <= from <= groups.len(),
        edges_paired(batch),
    ensures
        edges_paired(join_new_from(groups, from, batch)),
    decreases groups.len() - from,
{
    if from < groups.len() {
        paired_after_link(
            batch,
            fresh(),
            MaybeDynamicId::Static(groups[from].id),
            groups[from].typ,
        );
        join_new_stays_paired(
            groups,
            from + 1,
            batch + crate::index::link_ops(
                fresh(),
                MaybeDynamicId::Static(groups[from].id),
                groups[from].typ,
            ),
        );
    }
}

proof fn adopt_stays_paired(
    members: Seq<PrincipalInfo>,
    owner: Type,
    from: int,
    batch: Seq<OpModel>,
)
    requires
        0 <= from <= members.len(),
        edges_paired(batch),
    ensures
        edges_paired(adopt_from(members, owner, from, batch)),
    decreases members.len() - from,
{
    if from < members.len() {
        paired_after_link(batch, MaybeDynamicId::Static(members[from].id), fresh(), owner);
        adopt_stays_paired(
            members,
            owner,
            from + 1,
            batch + crate::index::link_ops(
                MaybeDynamicId::Static(members[from].id),
                fresh(),
                owner,
            ),
        );
    }
}

/// The batch that creates a principal is paired.
pub proof fn new_batch_is_paired(
    record: PrincipalModel,
    tenant: Option<u32>,
    member_of: Seq<PrincipalInfo>,
    members: Seq<PrincipalInfo>,
)
    ensures
        edges_paired(new_batch(record, tenant, member_of, members)),
{
    let header = new_header(record.name);
    let a = Seq::<OpModel>::empty().push(header[0]);
    let b = a.push(header[1]);
    let c = b.push(header[2]);
    assert(header =~= c.push(header[3]));
    paired_push(Seq::empty(), header[0]);
    paired_push(a, header[1]);
    paired_push(b, header[2]);
    paired_push(c, header[3]);
    paired_push(header, new_record_op(record));
    let index_op = name_op(
        record.name,
        crate::batch::PayloadModel::DynamicInfo(DynamicPrincipalInfo { typ: record.typ, tenant }),
    );
    paired_push(header.push(new_record_op(record)), index_op);
    let named = header.push(new_record_op(record)).push(index_op);
    let email_info = DynamicPrincipalInfo { typ: record.typ, tenant: None };
    file_emails_stay_paired(record.emails, email_info, 0, named);
    let filed = file_emails_from(record.emails, email_info, 0, named);
    join_new_stays_paired(member_of, 0, filed);
    adopt_stays_paired(members, record.typ, 0, join_new_from(member_of, 0, filed));
}

/// The batch of a creation is paired.
pub proof fn create_is_paired(known: Known, p: PrincipalSetModel, tenant: Option<u32>)
    ensures
        create_step(known, p, tenant) matches Step::Done(batch) ==> edges_paired(batch),
{
    match create_step(known, p, tenant) {
        Step::Done(batch) => {
            let name = crate::text::lowercase(p.name);
            let edges = crate::create::new_edges_step(known, p, tenant)->Done_0;
            let enabled = crate::resolve::permissions_step(
                known,
                PrincipalField::EnabledPermissions,
                p.enabled_permissions,
            )->Done_0;
            let disabled = crate::resolve::permissions_step(
                known,
                PrincipalField::DisabledPermissions,
                p.disabled_permissions,
            )->Done_0;
            let owner = crate::create::new_tenant_step(known, p.tenant, tenant)->Done_0;
            let record = crate::create::new_record(p, name, owner, enabled, disabled);
            assert(batch == new_batch(record, owner, edges.0, edges.1));
            new_batch_is_paired(record, owner, edges.0, edges.1);
        },
        _ => {},
    }
}

/// The batch that claims a name is paired.
pub proof fn claim_is_paired(name: Seq<char>, typ: Type)
    ensures
        edges_paired(claim_batch(name, typ)),
{
    let ops = claim_batch(name, typ);
    let a = Seq::<OpModel>::empty().push(ops[0]);
    let b = a.push(ops[1]);
    let c = b.push(ops[2]);
    let e = c.push(ops[3]);
    let f = e.push(ops[4]);
    assert(ops =~= f.push(ops[5]));
    paired_push(Seq::empty(), ops[0]);
    paired_push(a, ops[1]);
    paired_push(b, ops[2]);
    paired_push(c, ops[3]);
    paired_push(e, ops[4]);
    paired_push(f, ops[5]);
}

proof fn drop_emails_stay_paired(emails: Seq<Seq<char>>, from: int, batch: Seq<OpModel>)
    requires
        0 <= from <= emails.len(),
        edges_paired(batch),
    ensures
        edges_paired(drop_emails_from(emails, from, batch)),
    decreases emails.len() - from,
{
    if from < emails.len() {
        paired_push(batch, drop_email_op(emails[from]));
        drop_emails_stay_paired(emails, from + 1, batch.push(drop_email_op(emails[from])));
    }
}

proof fn leave_all_stays_paired(id: u32, member_of: Seq<MemberOf>, from: int, batch: Seq<OpModel>)
    requires
        0 <= from <= member_of.len(),
        edges_paired(batch),
    ensures
        edges_paired(leave_all_from(id, member_of, from, batch)),
    decreases member_of.len() - from,
{
    if from < member_of.len() {
        let peer = MaybeDynamicId::Static(member_of[from].principal_id);
        paired_after_link(batch, MaybeDynamicId::Static(id), peer, Type::Group);
        leave_all_stays_paired(
            id,
            member_of,
            from + 1,
            batch + crate::index::unlink_ops(MaybeDynamicId::Static(id), peer),
        );
    }
}

proof fn expel_all_stays_paired(id: u32, members: Seq<u32>, from: int, batch: Seq<OpModel>)
    requires
        0 <= from <= members.len(),
        edges_paired(batch),
    ensures
        edges_paired(expel_all_from(id, members, from, batch)),
    decreases members.len() - from,
{
    if from < members.len() {
        let peer = MaybeDynamicId::Static(members[from]);
        paired_after_link(batch, peer, MaybeDynamicId::Static(id), Type::Group);
        expel_all_stays_paired(
            id,
            members,
            from + 1,
            batch + crate::index::unlink_ops(peer, MaybeDynamicId::Static(id)),
        );
    }
}

/// The batch that deletes a principal is paired, if what was settled
/// first touches no edge.
pub proof fn delete_batch_is_paired(
    id: u32,
    record: PrincipalModel,
    settled: Seq<OpModel>,
    member_of: Seq<MemberOf>,
    members: Seq<u32>,
)
    requires
        settled.len() == 0 || (settled.len() == 1 && settled[0] is Add),
    ensures
        edges_paired(delete_batch(id, record, settled, member_of, members)),
{
    if settled.len() == 1 {
        paired_push(Seq::empty(), settled[0]);
        assert(settled =~= Seq::<OpModel>::empty().push(settled[0]));
    }
    let erase = erase_ops(id, record.name);
    let a = settled.push(erase[0]);
    let b = a.push(erase[1]);
    let c = b.push(erase[2]);
    assert(settled + erase =~= c.push(erase[3]));
    paired_push(settled, erase[0]);
    paired_push(a, erase[1]);
    paired_push(b, erase[2]);
    paired_push(c, erase[3]);
    drop_emails_stay_paired(record.emails, 0, settled + erase);
    let unfiled = drop_emails_from(record.emails, 0, settled + erase);
    leave_all_stays_paired(id, member_of, 0, unfiled);
    expel_all_stays_paired(id, members, 0, leave_all_from(id, member_of, 0, unfiled));
}

/// The batch of a deletion is paired.
pub proof fn delete_is_paired(known: Known, by: Selector)
    ensures
        delete_step(known, by) matches Step::Done(deletion) ==> edges_paired(deletion.batch),
{
    match delete_step(known, by) {
        Step::Done(deletion) => {
            let id = crate::resolve::id_step(known, by)->Done_0;
            let record = known.record(id)->0->0.inner;
            let settled = crate::delete::release_step(known, id, record)->Done_0;
            let member_of = crate::query::member_of_step(known, id)->Done_0;
            let members = crate::query::members_step(known, id)->Done_0;
            delete_batch_is_paired(id, record, settled, member_of, members);
        },
        _ => {},
    }
}

/// For every two principals, the one is a member of the other by the
/// forward edges exactly if the other has it as a member by the reverse
/// edges. Whatever the engine commits keeps it so: the batch of a creation,
/// of an update, of a deletion, and the batch that claims a name.
pub proof fn engine_keeps_symmetry(
    d: Directory,
    known: Known,
    p: PrincipalSetModel,
    by: Selector,
    changes: Seq<ChangeModel>,
    name: Seq<char>,
    typ: Type,
    tenant: Option<u32>,
    assigned: u32,
)
    requires
        symmetric(d),
    ensures
        create_step(known, p, tenant) matches Step::Done(batch) ==> (d.commit(
            batch,
            assigned,
        ) matches Some(after) ==> symmetric(after)),
        update_step(known, by, changes, tenant) matches Step::Done(batch) ==> (d.commit(
            batch,
            assigned,
        ) matches Some(after) ==> symmetric(after)),
        delete_step(known, by) matches Step::Done(deletion) ==> (d.commit(
            deletion.batch,
            assigned,
        ) matches Some(after) ==> symmetric(after)),
        attempt_step(known, name, typ) matches Step::Done(AttemptModel::Create(batch)) ==> (
        d.commit(batch, assigned) matches Some(after) ==> symmetric(after)),
{
    create_is_paired(known, p, tenant);
    update_is_paired(known, by, changes, tenant);
    delete_is_paired(known, by);
    claim_is_paired(crate::text::lowercase(name), typ);
    match create_step(known, p, tenant) {
        Step::Done(batch) => {
            paired_batch_keeps_symmetry(d, batch, assigned);
        },
        _ => {},
    }
    match update_step(known, by, changes, tenant) {
        Step::Done(batch) => {
            paired_batch_keeps_symmetry(d, batch, assigned);
        },
        _ => {},
    }
    match delete_step(known, by) {
        Step::Done(deletion) => {
            paired_batch_keeps_symmetry(d, deletion.batch, assigned);
        },
        _ => {},
    }
    match attempt_step(known, name, typ) {
        Step::Done(AttemptModel::Create(batch)) => {
            paired_batch_keeps_symmetry(d, batch, assigned);
        },
        _ => {},
    }
}

} // verus!
