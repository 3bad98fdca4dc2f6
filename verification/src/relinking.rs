//! An update leaves every edge of the store tying principals that may be
//! tied.

use vstd::prelude::*;
use crate::batch::{OpModel, PayloadModel, Stored};
use crate::changes::{
    add_email_step, admit_from, join_from, leave_from, move_to_tenant, rename_step, retire_from,
    tenant_step, usage_op, Context, StateModel,
};
use crate::index::{drop_email_op, drop_name_op, email_op, name_op};
use crate::invariants::{indexed, name_leads};
use crate::keys::Key;
use crate::kinds::{
    edge_legal_in, edges_legal, edges_legal_in, kind_known, legal_with_same_edges, record_known,
    role_free, roles_reserved, tied_stays_legal, untied_stays_legal,
};
use crate::lists::{distinct, lowered};
use crate::model::{commit_append, commit_one, commit_push, commit_two, Directory};
use crate::principal::{ChangeModel, ValueModel};
use crate::query::{member_of_step, members_step};
use crate::reflect::reflects;
use crate::resolve::{admit_email_step, id_step, peer_id_step, target_step, Selector};
use crate::snapshot::{Known, Step};
use crate::text::lowercase;
use crate::types::{PrincipalField, PrincipalInfo};
use crate::update::{
    change_step, changes_from, initial_state, lock_op, touches_record, update_step, usage_step,
    write_back_op,
};
use crate::updated::{changes_stay_in_flight, start_is_on_course};
use crate::updating::{in_flight, on_course, Flight};

verus! {

/// Whether the batch gathered so far leads from the store that was read to
/// a store whose edges tie principals of the store that was read that may
/// be tied.
pub open spec fn legal_in_flight(f: Flight, s: StateModel) -> bool {
    f.d.commit(s.batch, f.assigned) matches Some(m) && edges_legal_in(m, f.d)
}

/// Whether a step of the update, if it is done, leaves the edges legal.
pub open spec fn stays_legal(f: Flight, step: Step<StateModel>) -> bool {
    step matches Step::Done(next) ==> legal_in_flight(f, next)
}

/// An operation that touches no edge and asserts nothing leaves the edges
/// as legal as they were.
pub proof fn plain_push_stays_legal(f: Flight, batch: Seq<OpModel>, op: OpModel)
    requires
        f.d.commit(batch, f.assigned) matches Some(m) && edges_legal_in(m, f.d),
        !op.touches_edge(),
        !(op is AssertValue),
    ensures
        f.d.commit(batch.push(op), f.assigned) matches Some(after) && edges_legal_in(after, f.d),
{
    let m = f.d.commit(batch, f.assigned)->0;
    commit_push(f.d, batch, op, f.assigned);
    let after = m.apply(op, f.assigned)->0;
    assert forall|a: u32, b: u32|
        #![trigger m.is_member_of(a, b)]
        #![trigger after.is_member_of(a, b)]
        m.is_member_of(a, b) == after.is_member_of(a, b) && (m.is_member_of(a, b)
            ==> m.entries[Key::MemberOf(a, b)] == after.entries[Key::MemberOf(a, b)]) by {}
    legal_with_same_edges(m, after, f.d);
}

proof fn admit_stays_legal(
    f: Flight,
    known: Known,
    c: Context,
    current: Seq<Seq<char>>,
    emails: Seq<Seq<char>>,
    from: int,
    batch: Seq<OpModel>,
)
    requires
        0 <= from <= emails.len(),
        f.d.commit(batch, f.assigned) matches Some(m) && edges_legal_in(m, f.d),
    ensures
        admit_from(known, c, current, emails, from, batch) matches Step::Done(done) ==> (
        f.d.commit(done, f.assigned) matches Some(after) && edges_legal_in(after, f.d)),
    decreases emails.len() - from,
{
    if from < emails.len() {
        if current.contains(emails[from]) {
            admit_stays_legal(f, known, c, current, emails, from + 1, batch);
        } else {
            match admit_email_step(known, emails[from]) {
                Step::Done(_) => {
                    let op = email_op(emails[from], PayloadModel::Info(c.email_info()));
                    plain_push_stays_legal(f, batch, op);
                    admit_stays_legal(f, known, c, current, emails, from + 1, batch.push(op));
                },
                _ => {},
            }
        }
    }
}

proof fn retire_stays_legal(
    f: Flight,
    current: Seq<Seq<char>>,
    emails: Seq<Seq<char>>,
    from: int,
    batch: Seq<OpModel>,
)
    requires
        0 <= from <= current.len(),
        f.d.commit(batch, f.assigned) matches Some(m) && edges_legal_in(m, f.d),
    ensures
        f.d.commit(retire_from(current, emails, from, batch), f.assigned) matches Some(after)
            && edges_legal_in(after, f.d),
    decreases current.len() - from,
{
    if from < current.len() {
        if emails.contains(current[from]) {
            retire_stays_legal(f, current, emails, from + 1, batch);
        } else {
            let op = drop_email_op(current[from]);
            plain_push_stays_legal(f, batch, op);
            retire_stays_legal(f, current, emails, from + 1, batch.push(op));
        }
    }
}

/// What a name in a change resolves to has the kind that the store knows
/// for it; if it is found by the name index, it has a record.
pub proof fn target_is_known(
    d: Directory,
    known: Known,
    field: PrincipalField,
    name: Seq<char>,
    tenant: Option<u32>,
)
    requires
        indexed(d),
        roles_reserved(d),
        reflects(known, d),
    ensures
        target_step(known, field, name, tenant) matches Step::Done(peer) ==> kind_known(d, peer)
            && (field == PrincipalField::Members ==> record_known(d, peer)),
{
    match target_step(known, field, name, tenant) {
        Step::Done(peer) => {
            if known.info(name) == Some(Some(peer)) {
                assert(d.info(name) == Some(peer));
                assert(name_leads(d, name));
            } else {
                assert(role_free(d, peer.id));
            }
        },
        _ => {},
    }
}

/// Tying a peer that may be tied keeps the edges legal, and so does
/// untying any peer.
pub proof fn tie_stays_legal(
    f: Flight,
    c: Context,
    field: PrincipalField,
    peer: PrincipalInfo,
    batch: Seq<OpModel>,
)
    requires
        f.d.commit(batch, f.assigned) matches Some(m) && edges_legal_in(m, f.d),
        c.principal_id == f.id,
        f.d.record(f.id) matches Some(p) && p.typ == c.typ,
    ensures
        (c.refusal(field, Seq::empty(), peer) is None && kind_known(f.d, peer) && (field
            == PrincipalField::Members ==> record_known(f.d, peer)) && field.is_membership()) ==> (
        f.d.commit(batch + c.link(field, peer), f.assigned) matches Some(after) && edges_legal_in(
            after,
            f.d,
        )),
        f.d.commit(batch + c.unlink(field, peer.id), f.assigned) matches Some(after)
            && edges_legal_in(after, f.d),
{
    let m = f.d.commit(batch, f.assigned)->0;
    let tie = c.link(field, peer);
    commit_append(f.d, batch, tie, f.assigned);
    assert(tie =~= seq![tie[0], tie[1]]);
    commit_two(m, tie[0], tie[1], f.assigned);
    if c.refusal(field, Seq::empty(), peer) is None && kind_known(f.d, peer) && (field
        == PrincipalField::Members ==> record_known(f.d, peer)) && field.is_membership() {
        if field == PrincipalField::Members {
            tied_stays_legal(m, f.d, peer.id, f.id, c.typ);
        } else {
            tied_stays_legal(m, f.d, f.id, peer.id, peer.typ);
        }
    }
    let untie = c.unlink(field, peer.id);
    commit_append(f.d, batch, untie, f.assigned);
    assert(untie =~= seq![untie[0], untie[1]]);
    commit_two(m, untie[0], untie[1], f.assigned);
    if field == PrincipalField::Members {
        untied_stays_legal(m, f.d, peer.id, f.id);
    } else {
        untied_stays_legal(m, f.d, f.id, peer.id);
    }
}

/// Whether a peer is refused does not depend on the name by which it is
/// called.
proof fn refusal_whatever_the_name(
    c: Context,
    field: PrincipalField,
    name: Seq<char>,
    peer: PrincipalInfo,
)
    ensures
        c.refusal(field, name, peer) is None <==> c.refusal(field, Seq::empty(), peer) is None,
{
}

proof fn join_stays_legal(
    f: Flight,
    known: Known,
    c: Context,
    field: PrincipalField,
    current: Seq<u32>,
    names: Seq<Seq<char>>,
    from: int,
    batch: Seq<OpModel>,
    joined: Seq<u32>,
)
    requires
        0 <= from <= names.len(),
        indexed(f.d),
        roles_reserved(f.d),
        reflects(known, f.d),
        field.is_membership(),
        c.principal_id == f.id,
        f.d.record(f.id) matches Some(p) && p.typ == c.typ,
        f.d.commit(batch, f.assigned) matches Some(m) && edges_legal_in(m, f.d),
    ensures
        join_from(known, c, field, current, names, from, batch, joined) matches Step::Done(done)
            ==> (f.d.commit(done.0, f.assigned) matches Some(after) && edges_legal_in(
            after,
            f.d,
        )),
    decreases names.len() - from,
{
    if from < names.len() {
        match target_step(known, field, names[from], c.tenant_id) {
            Step::Done(peer) => match c.refusal(field, names[from], peer) {
                None => {
                    target_is_known(f.d, known, field, names[from], c.tenant_id);
                    refusal_whatever_the_name(c, field, names[from], peer);
                    tie_stays_legal(f, c, field, peer, batch);
                    join_stays_legal(
                        f,
                        known,
                        c,
                        field,
                        current,
                        names,
                        from + 1,
                        if current.contains(peer.id) {
                            batch
                        } else {
                            batch + c.link(field, peer)
                        },
                        joined.push(peer.id),
                    );
                },
                Some(_) => {},
            },
            _ => {},
        }
    }
}

proof fn leave_stays_legal(
    f: Flight,
    c: Context,
    field: PrincipalField,
    current: Seq<u32>,
    joined: Seq<u32>,
    from: int,
    batch: Seq<OpModel>,
)
    requires
        0 <= from <= current.len(),
        c.principal_id == f.id,
        f.d.record(f.id) matches Some(p) && p.typ == c.typ,
        f.d.commit(batch, f.assigned) matches Some(m) && edges_legal_in(m, f.d),
    ensures
        f.d.commit(leave_from(c, field, current, joined, from, batch), f.assigned) matches Some(
            after,
        ) && edges_legal_in(after, f.d),
    decreases current.len() - from,
{
    if from < current.len() {
        let peer = PrincipalInfo { id: current[from], typ: c.typ, tenant: None };
        tie_stays_legal(f, c, field, peer, batch);
        leave_stays_legal(
            f,
            c,
            field,
            current,
            joined,
            from + 1,
            if joined.contains(current[from]) {
                batch
            } else {
                batch + c.unlink(field, current[from])
            },
        );
    }
}

/// Every change leaves the edges legal.
pub proof fn change_stays_legal(
    f: Flight,
    s: StateModel,
    c: Context,
    known: Known,
    change: ChangeModel,
)
    requires
        indexed(f.d),
        roles_reserved(f.d),
        reflects(known, f.d),
        c.principal_id == f.id,
        f.d.record(f.id) matches Some(p) && p.typ == c.typ,
        legal_in_flight(f, s),
    ensures
        stays_legal(f, change_step(s, c, known, change)),
{
    match change.value {
        ValueModel::String(text) => {
            match rename_step(s, c, known, text) {
                Step::Done(next) => {
                    if next != s {
                        let clear = drop_name_op(s.principal.name);
                        plain_push_stays_legal(f, s.batch, clear);
                        plain_push_stays_legal(
                            f,
                            s.batch.push(clear),
                            name_op(lowercase(text), PayloadModel::Info(s.pinfo_name)),
                        );
                    }
                },
                _ => {},
            }
            match tenant_step(s, c, known, text) {
                Step::Done(next) => {
                    if next != s {
                        let tenant = next.principal.tenant;
                        assert(next == move_to_tenant(s, c, tenant));
                        let left = match (c.used_quota, s.principal.tenant) {
                            (Some(used), Some(old)) => s.batch.push(usage_op(old, -used)),
                            _ => s.batch,
                        };
                        match (c.used_quota, s.principal.tenant) {
                            (Some(used), Some(old)) => {
                                plain_push_stays_legal(f, s.batch, usage_op(old, -used));
                            },
                            _ => {},
                        }
                        let joined = match (c.used_quota, tenant) {
                            (Some(used), Some(new)) => left.push(usage_op(new, used as int)),
                            _ => left,
                        };
                        match (c.used_quota, tenant) {
                            (Some(used), Some(new)) => {
                                plain_push_stays_legal(f, left, usage_op(new, used as int));
                            },
                            _ => {},
                        }
                        plain_push_stays_legal(
                            f,
                            joined,
                            name_op(s.principal.name, PayloadModel::Info(c.name_info(tenant))),
                        );
                    }
                },
                _ => {},
            }
            match add_email_step(s, c, known, text) {
                Step::Done(next) => {
                    plain_push_stays_legal(
                        f,
                        s.batch,
                        email_op(lowercase(text), PayloadModel::Info(c.email_info())),
                    );
                },
                _ => {},
            }
            plain_push_stays_legal(f, s.batch, drop_email_op(lowercase(text)));
            match target_step(known, change.field, text, c.tenant_id) {
                Step::Done(peer) => {
                    target_is_known(f.d, known, change.field, text, c.tenant_id);
                    refusal_whatever_the_name(c, change.field, text, peer);
                    tie_stays_legal(f, c, change.field, peer, s.batch);
                },
                _ => {},
            }
            match peer_id_step(known, change.field, text) {
                Step::Done(Some(peer)) => {
                    tie_stays_legal(
                        f,
                        c,
                        change.field,
                        PrincipalInfo { id: peer, typ: c.typ, tenant: None },
                        s.batch,
                    );
                },
                _ => {},
            }
        },
        ValueModel::StringList(list) => {
            let emails = distinct(lowered(list));
            admit_stays_legal(f, known, c, s.principal.emails, emails, 0, s.batch);
            match admit_from(known, c, s.principal.emails, emails, 0, s.batch) {
                Step::Done(done) => {
                    retire_stays_legal(f, s.principal.emails, emails, 0, done);
                },
                _ => {},
            }
            if change.field.is_membership() {
                join_stays_legal(
                    f,
                    known,
                    c,
                    change.field,
                    s.peers(change.field),
                    list,
                    0,
                    s.batch,
                    Seq::empty(),
                );
                match join_from(
                    known,
                    c,
                    change.field,
                    s.peers(change.field),
                    list,
                    0,
                    s.batch,
                    Seq::empty(),
                ) {
                    Step::Done(done) => {
                        leave_stays_legal(
                            f,
                            c,
                            change.field,
                            s.peers(change.field),
                            done.1,
                            0,
                            done.0,
                        );
                    },
                    _ => {},
                }
            }
        },
        _ => {},
    }
}

proof fn changes_stay_legal(
    f: Flight,
    s: StateModel,
    c: Context,
    known: Known,
    changes: Seq<ChangeModel>,
    from: int,
)
    requires
        indexed(f.d),
        roles_reserved(f.d),
        reflects(known, f.d),
        c.principal_id == f.id,
        f.d.record(f.id) matches Some(p) && p.typ == c.typ,
        legal_in_flight(f, s),
        0 <= from <= changes.len(),
    ensures
        stays_legal(f, changes_from(s, c, known, changes, from)),
    decreases changes.len() - from,
{
    if from < changes.len() {
        change_stays_legal(f, s, c, known, changes[from]);
        match change_step(s, c, known, changes[from]) {
            Step::Done(next) => {
                changes_stay_legal(f, next, c, known, changes, from + 1);
            },
            _ => {},
        }
    }
}

/// After an update every edge of the store ties two principals that may
/// be tied, as before: each member that the update gave the principal is
/// of a kind that the kind of the principal admits, what the update made
/// the principal a member of is a group, a list or a role, and every edge
/// carries the kind of what the member belongs to.
pub proof fn updated_edges_stay_legal(
    d: Directory,
    known: Known,
    by: Selector,
    changes: Seq<ChangeModel>,
    tenant: Option<u32>,
    assigned: u32,
)
    requires
        indexed(d),
        edges_legal(d),
        roles_reserved(d),
        reflects(known, d),
        update_step(known, by, changes, tenant) is Done,
    ensures
        d.commit(update_step(known, by, changes, tenant)->Done_0, assigned) matches Some(after)
            && edges_legal(after) && roles_reserved(after),
{
    let id = id_step(known, by)->Done_0;
    let hashed = known.record(id)->0->0;
    let member_of = member_of_step(known, id)->Done_0;
    let members = members_step(known, id)->Done_0;
    let used_quota = usage_step(known, id, changes, tenant)->Done_0;
    let locked = touches_record(changes);
    let c = Context { principal_id: id, typ: hashed.inner.typ, tenant_id: tenant, used_quota };
    let start = initial_state(id, hashed, member_of, members, locked);
    let f = Flight { d, id, orig: hashed.inner, assigned };
    assert(d.record(id) == Some(hashed.inner));
    start_is_on_course(f, start);
    if locked {
        commit_one(d, lock_op(id, hashed), assigned);
        assert(start.batch =~= seq![lock_op(id, hashed)]);
    } else {
        assert(d.commit(start.batch, assigned) == Some(d));
    }
    assert(in_flight(f, start));
    assert(legal_in_flight(f, start));
    changes_stay_in_flight(f, start, c, known, changes, 0);
    changes_stay_legal(f, start, c, known, changes, 0);
    let last = changes_from(start, c, known, changes, 0)->Done_0;
    let m = d.commit(last.batch, assigned)->0;
    assert(on_course(f, last, m));
    let after = if locked {
        Directory { entries: m.entries.insert(Key::Principal(id), Stored::Record(last.principal)) }
    } else {
        m
    };
    if locked {
        commit_push(d, last.batch, write_back_op(id, last), assigned);
    }
    assert(role_free(d, id));
    assert forall|x: u32| x != id implies #[trigger] after.record(x) == d.record(x) by {
        assert(m.record(x) == d.record(x));
    }
    assert(after.record(id) matches Some(p) && p.typ == hashed.inner.typ) by {
        assert(m.record(id) == d.record(id));
    }
    assert forall|a: u32, b: u32| #[trigger] edge_legal_in(after, after, a, b) by {
        assert(edge_legal_in(m, d, a, b));
        assert(after.is_member_of(a, b) == m.is_member_of(a, b));
        if a != id {
            assert(after.record(a) == d.record(a));
        }
        if b != id {
            assert(after.record(b) == d.record(b));
        }
    }
    assert forall|x: u32| #[trigger] role_free(after, x) by {
        assert(role_free(d, x));
        if x != id {
            assert(after.record(x) == d.record(x));
        }
    }
}

} // verus!
