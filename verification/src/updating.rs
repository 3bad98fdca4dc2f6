//! What an update keeps: while the changes of an update are applied one
//! after the other, the batch gathered so far always leads to a store in
//! which the principal in flight is indexed under the name and the
//! addresses that it has at that moment, and every other principal as
//! before.

use vstd::prelude::*;
use crate::batch::{OpModel, PayloadModel, Stored};
use crate::changes::{
    add_edge_step, add_email_step, admit_from, join_from, leave_from, move_to_tenant,
    remove_edge_step, remove_email_state, rename_step, retire_from, set_edges_step, set_emails_step,
    tenant_step, usage_op, Context, StateModel,
};
use crate::creation::views_agree;
use crate::index::{drop_email_op, drop_name_op, email_op, name_op};
use crate::invariants::{is_edge_key, same_at, same_but_edges};
use crate::keys::Key;
use crate::lists::{distinct, lowered, surviving, surviving_push, Taken};
use crate::model::{commit_append, commit_push, commit_two, Directory};
use crate::principal::PrincipalModel;
use crate::reflect::reflects;
use crate::resolve::admit_email_step;
use crate::snapshot::{Known, Step};
use crate::text::lowercase;
use crate::types::{PrincipalField, PrincipalInfo};

verus! {

/// What stays the same while an update is in flight: the store that the
/// update was read from, the principal that it is about with the record
/// that was read, and the identifier that the store will assign to the
/// batch.
pub struct Flight {
    pub d: Directory,
    pub id: u32,
    pub orig: PrincipalModel,
    pub assigned: u32,
}

/// Whether two stores show the same index entries and records.
pub open spec fn same_index(a: Directory, b: Directory) -> bool {
    &&& forall|name: Seq<char>| #[trigger] a.info(name) == b.info(name)
    &&& forall|email: Seq<char>| #[trigger] a.email(email) == b.email(email)
    &&& forall|id: u32| #[trigger] a.record(id) == b.record(id)
}

/// Whether the store `m` is what the indexes should be while the principal
/// in flight has the name, the tenant and the addresses of `s`: the records
/// are those of the store that was read; the name of the principal leads to
/// its identifier, kind and tenant, its former name to nothing, every other
/// name to what it led to; each address of the principal leads to it, each
/// address that it gave up to nothing, every other address to what it led
/// to.
pub open spec fn on_course(f: Flight, s: StateModel, m: Directory) -> bool {
    &&& s.pinfo_name.id == f.id
    &&& s.pinfo_name.typ == f.orig.typ
    &&& s.pinfo_name.tenant == s.principal.tenant
    &&& s.principal.typ == f.orig.typ
    &&& forall|x: u32| #[trigger] m.record(x) == f.d.record(x)
    &&& m.info(s.principal.name) == Some(s.pinfo_name)
    &&& (s.principal.name == f.orig.name || f.d.info(s.principal.name) is None)
    &&& forall|name: Seq<char>|
        name != s.principal.name ==> #[trigger] m.info(name) == (if name == f.orig.name {
            None
        } else {
            f.d.info(name)
        })
    &&& forall|email: Seq<char>|
        s.principal.emails.contains(email) ==> ((#[trigger] m.email(email) matches Some(info)
            && info.id == f.id) && (f.d.email(email) matches Some(info) ==> info.id == f.id))
    &&& forall|email: Seq<char>|
        !s.principal.emails.contains(email) ==> #[trigger] m.email(email) == (if f.d.email(
            email,
        ) matches Some(info) && info.id == f.id {
            None
        } else {
            f.d.email(email)
        })
}

/// Whether the batch gathered so far leads from the store that was read to
/// a store that is on course.
pub open spec fn in_flight(f: Flight, s: StateModel) -> bool {
    f.d.commit(s.batch, f.assigned) matches Some(m) && on_course(f, s, m)
}

/// Whether a step of the update, if it is done, leaves the update in
/// flight.
pub open spec fn stays_in_flight(f: Flight, step: Step<StateModel>) -> bool {
    step matches Step::Done(next) ==> in_flight(f, next)
}

/// A store that shows the same index entries and records is as much on
/// course, whatever else of the state has changed.
pub proof fn on_course_frame(
    f: Flight,
    s: StateModel,
    next: StateModel,
    m: Directory,
    after: Directory,
)
    requires
        on_course(f, s, m),
        same_index(m, after),
        next.principal.name == s.principal.name,
        next.principal.emails == s.principal.emails,
        next.principal.typ == s.principal.typ,
        next.principal.tenant == s.principal.tenant,
        next.pinfo_name == s.pinfo_name,
    ensures
        on_course(f, next, after),
{
    assert forall|x: u32| #[trigger] after.record(x) == f.d.record(x) by {
        assert(m.record(x) == after.record(x));
    }
    assert(m.info(s.principal.name) == after.info(s.principal.name));
    assert forall|name: Seq<char>| name != next.principal.name implies #[trigger] after.info(name)
        == (if name == f.orig.name {
        None
    } else {
        f.d.info(name)
    }) by {
        assert(m.info(name) == after.info(name));
    }
    assert forall|email: Seq<char>| next.principal.emails.contains(email) implies ((
    #[trigger] after.email(email) matches Some(info) && info.id == f.id) && (f.d.email(
        email,
    ) matches Some(info) ==> info.id == f.id)) by {
        assert(m.email(email) == after.email(email));
    }
    assert forall|email: Seq<char>| !next.principal.emails.contains(email) implies #[trigger] after.email(
        email,
    ) == (if f.d.email(email) matches Some(info) && info.id == f.id {
        None
    } else {
        f.d.email(email)
    }) by {
        assert(m.email(email) == after.email(email));
    }
}

/// Stores that differ in their edges only show the same index entries and
/// records.
pub proof fn edges_leave_index(a: Directory, b: Directory)
    requires
        same_but_edges(a, b),
    ensures
        same_index(a, b),
{
    views_agree(a, b);
}

/// A state that differs from one in flight in the record only, name and
/// addresses left alone, is in flight.
pub proof fn record_change_stays_in_flight(f: Flight, s: StateModel, next: StateModel)
    requires
        in_flight(f, s),
        next.batch == s.batch,
        next.principal.name == s.principal.name,
        next.principal.emails == s.principal.emails,
        next.principal.typ == s.principal.typ,
        next.principal.tenant == s.principal.tenant,
        next.pinfo_name == s.pinfo_name,
    ensures
        in_flight(f, next),
{
    let m = f.d.commit(s.batch, f.assigned)->0;
    on_course_frame(f, s, next, m, m);
}

/// Two operations on edges change nothing but edges.
pub proof fn edge_pair_changes_edges_only(m: Directory, ops: Seq<OpModel>, id: u32)
    requires
        ops.len() == 2,
        ops[0].touches_edge(),
        ops[1].touches_edge(),
    ensures
        m.commit(ops, id) matches Some(after) && same_but_edges(m, after),
{
    assert(ops =~= seq![ops[0], ops[1]]);
    commit_two(m, ops[0], ops[1], id);
    let after = m.commit(ops, id)->0;
    assert forall|key: Key| !is_edge_key(key) implies #[trigger] same_at(m, after, key) by {}
}

/// Differing in edges only carries over two steps.
pub proof fn same_but_edges_chain(a: Directory, b: Directory, c: Directory)
    requires
        same_but_edges(a, b),
        same_but_edges(b, c),
    ensures
        same_but_edges(a, c),
{
    assert forall|key: Key| !is_edge_key(key) implies #[trigger] same_at(a, c, key) by {
        assert(same_at(a, b, key));
        assert(same_at(b, c, key));
    }
}

/// A store differs from itself in nothing.
pub proof fn same_but_edges_itself(a: Directory)
    ensures
        same_but_edges(a, a),
{
    assert forall|key: Key| !is_edge_key(key) implies #[trigger] same_at(a, a, key) by {}
}

/// Tying or untying one peer changes nothing but edges.
pub proof fn tie_changes_edges_only(
    d: Directory,
    m: Directory,
    c: Context,
    field: PrincipalField,
    peer: PrincipalInfo,
    batch: Seq<OpModel>,
    id: u32,
)
    requires
        d.commit(batch, id) == Some(m),
    ensures
        d.commit(batch + c.link(field, peer), id) matches Some(after) && same_but_edges(m, after),
        d.commit(batch + c.unlink(field, peer.id), id) matches Some(after) && same_but_edges(
            m,
            after,
        ),
{
    commit_append(d, batch, c.link(field, peer), id);
    edge_pair_changes_edges_only(m, c.link(field, peer), id);
    commit_append(d, batch, c.unlink(field, peer.id), id);
    edge_pair_changes_edges_only(m, c.unlink(field, peer.id), id);
}

proof fn join_commit(
    d: Directory,
    m: Directory,
    known: Known,
    c: Context,
    field: PrincipalField,
    current: Seq<u32>,
    names: Seq<Seq<char>>,
    from: int,
    batch: Seq<OpModel>,
    joined: Seq<u32>,
    id: u32,
)
    requires
        0 <= from <= names.len(),
        d.commit(batch, id) == Some(m),
    ensures
        join_from(known, c, field, current, names, from, batch, joined) matches Step::Done(done)
            ==> (d.commit(done.0, id) matches Some(after) && same_but_edges(m, after)),
    decreases names.len() - from,
{
    if from >= names.len() {
        same_but_edges_itself(m);
    } else {
        match crate::resolve::target_step(known, field, names[from], c.tenant_id) {
            Step::Done(peer) => match c.refusal(field, names[from], peer) {
                None => {
                    if current.contains(peer.id) {
                        join_commit(
                            d,
                            m,
                            known,
                            c,
                            field,
                            current,
                            names,
                            from + 1,
                            batch,
                            joined.push(peer.id),
                            id,
                        );
                    } else {
                        tie_changes_edges_only(d, m, c, field, peer, batch, id);
                        let next = d.commit(batch + c.link(field, peer), id)->0;
                        join_commit(
                            d,
                            next,
                            known,
                            c,
                            field,
                            current,
                            names,
                            from + 1,
                            batch + c.link(field, peer),
                            joined.push(peer.id),
                            id,
                        );
                        match join_from(known, c, field, current, names, from, batch, joined) {
                            Step::Done(done) => {
                                same_but_edges_chain(m, next, d.commit(done.0, id)->0);
                            },
                            _ => {},
                        }
                    }
                },
                Some(_) => {},
            },
            _ => {},
        }
    }
}

proof fn leave_commit(
    d: Directory,
    m: Directory,
    c: Context,
    field: PrincipalField,
    current: Seq<u32>,
    joined: Seq<u32>,
    from: int,
    batch: Seq<OpModel>,
    id: u32,
)
    requires
        0 <= from <= current.len(),
        d.commit(batch, id) == Some(m),
    ensures
        d.commit(leave_from(c, field, current, joined, from, batch), id) matches Some(after)
            && same_but_edges(m, after),
    decreases current.len() - from,
{
    if from >= current.len() {
        same_but_edges_itself(m);
    } else if joined.contains(current[from]) {
        leave_commit(d, m, c, field, current, joined, from + 1, batch, id);
    } else {
        let peer = PrincipalInfo { id: current[from], typ: c.typ, tenant: None };
        tie_changes_edges_only(d, m, c, field, peer, batch, id);
        let next = d.commit(batch + c.unlink(field, current[from]), id)->0;
        leave_commit(
            d,
            next,
            c,
            field,
            current,
            joined,
            from + 1,
            batch + c.unlink(field, current[from]),
            id,
        );
        same_but_edges_chain(
            m,
            next,
            d.commit(leave_from(c, field, current, joined, from, batch), id)->0,
        );
    }
}

/// A change to the edges of a principal leaves the update in flight.
pub proof fn edges_stay_in_flight(
    f: Flight,
    s: StateModel,
    c: Context,
    known: Known,
    field: PrincipalField,
    names: Seq<Seq<char>>,
    name: Seq<char>,
)
    requires
        in_flight(f, s),
    ensures
        stays_in_flight(f, set_edges_step(s, c, known, field, names)),
        stays_in_flight(f, add_edge_step(s, c, known, field, name)),
        stays_in_flight(f, remove_edge_step(s, c, known, field, name)),
{
    let m = f.d.commit(s.batch, f.assigned)->0;
    match set_edges_step(s, c, known, field, names) {
        Step::Done(next) => {
            join_commit(
                f.d,
                m,
                known,
                c,
                field,
                s.peers(field),
                names,
                0,
                s.batch,
                Seq::empty(),
                f.assigned,
            );
            let done = join_from(
                known,
                c,
                field,
                s.peers(field),
                names,
                0,
                s.batch,
                Seq::empty(),
            )->Done_0;
            let tied = f.d.commit(done.0, f.assigned)->0;
            leave_commit(f.d, tied, c, field, s.peers(field), done.1, 0, done.0, f.assigned);
            let after = f.d.commit(next.batch, f.assigned)->0;
            same_but_edges_chain(m, tied, after);
            edges_leave_index(m, after);
            on_course_frame(f, s, next, m, after);
        },
        _ => {},
    }
    match add_edge_step(s, c, known, field, name) {
        Step::Done(next) => {
            if next != s {
                let peer = crate::resolve::target_step(known, field, name, c.tenant_id)->Done_0;
                tie_changes_edges_only(f.d, m, c, field, peer, s.batch, f.assigned);
                let after = f.d.commit(next.batch, f.assigned)->0;
                edges_leave_index(m, after);
                on_course_frame(f, s, next, m, after);
            }
        },
        _ => {},
    }
    match remove_edge_step(s, c, known, field, name) {
        Step::Done(next) => {
            if next != s {
                let peer = crate::resolve::peer_id_step(known, field, name)->Done_0->0;
                tie_changes_edges_only(
                    f.d,
                    m,
                    c,
                    field,
                    PrincipalInfo { id: peer, typ: c.typ, tenant: None },
                    s.batch,
                    f.assigned,
                );
                let after = f.d.commit(next.batch, f.assigned)->0;
                edges_leave_index(m, after);
                on_course_frame(f, s, next, m, after);
            }
        },
        _ => {},
    }
}

/// Renaming leaves the update in flight.
pub proof fn rename_stays_in_flight(
    f: Flight,
    s: StateModel,
    c: Context,
    known: Known,
    raw: Seq<char>,
)
    requires
        in_flight(f, s),
        reflects(known, f.d),
    ensures
        stays_in_flight(f, rename_step(s, c, known, raw)),
{
    let m = f.d.commit(s.batch, f.assigned)->0;
    match rename_step(s, c, known, raw) {
        Step::Done(next) => {
            if next != s {
                let name = lowercase(raw);
                let old = s.principal.name;
                assert(known.info(name) == Some(None::<PrincipalInfo>));
                assert(f.d.info(name) is None);
                let clear = drop_name_op(old);
                let put = name_op(name, PayloadModel::Info(s.pinfo_name));
                commit_push(f.d, s.batch, clear, f.assigned);
                commit_push(f.d, s.batch.push(clear), put, f.assigned);
                let after = f.d.commit(next.batch, f.assigned)->0;
                assert(after.entries == m.entries.remove(Key::NameToId(old)).insert(
                    Key::NameToId(name),
                    Stored::Info(s.pinfo_name),
                ));
                assert forall|x: u32| #[trigger] after.record(x) == f.d.record(x) by {
                    assert(m.record(x) == f.d.record(x));
                }
                assert forall|other: Seq<char>| other != name implies #[trigger] after.info(other)
                    == (if other == f.orig.name {
                    None
                } else {
                    f.d.info(other)
                }) by {
                    if other != old {
                        assert(after.info(other) == m.info(other));
                    }
                }
                assert forall|email: Seq<char>| #[trigger] after.email(email) == m.email(email) by {}
                assert forall|email: Seq<char>| next.principal.emails.contains(email) implies ((
                #[trigger] after.email(email) matches Some(info) && info.id == f.id) && (f.d.email(
                    email,
                ) matches Some(info) ==> info.id == f.id)) by {
                    assert(after.email(email) == m.email(email));
                }
                assert forall|email: Seq<char>|
                    !next.principal.emails.contains(email) implies #[trigger] after.email(email) == (
                if f.d.email(email) matches Some(info) && info.id == f.id {
                    None
                } else {
                    f.d.email(email)
                }) by {
                    assert(after.email(email) == m.email(email));
                }
            }
        },
        _ => {},
    }
}

/// Adding to a usage counter changes no index entry and no record.
pub proof fn usage_leaves_index(m: Directory, tenant: u32, by: int, id: u32)
    ensures
        m.apply(usage_op(tenant, by), id) matches Some(after) && same_index(m, after),
{
}

/// Setting the tenant leaves the update in flight.
pub proof fn tenant_stays_in_flight(
    f: Flight,
    s: StateModel,
    c: Context,
    known: Known,
    name: Seq<char>,
)
    requires
        in_flight(f, s),
        c.principal_id == f.id,
        c.typ == f.orig.typ,
    ensures
        stays_in_flight(f, tenant_step(s, c, known, name)),
{
    let m = f.d.commit(s.batch, f.assigned)->0;
    match tenant_step(s, c, known, name) {
        Step::Done(next) => {
            if next != s {
                let tenant = next.principal.tenant;
                assert(next == move_to_tenant(s, c, tenant));
                let left = match (c.used_quota, s.principal.tenant) {
                    (Some(used), Some(old)) => s.batch.push(usage_op(old, -used)),
                    _ => s.batch,
                };
                let joined = match (c.used_quota, tenant) {
                    (Some(used), Some(new)) => left.push(usage_op(new, used as int)),
                    _ => left,
                };
                let m1 = match (c.used_quota, s.principal.tenant) {
                    (Some(used), Some(old)) => m.apply(usage_op(old, -used), f.assigned)->0,
                    _ => m,
                };
                match (c.used_quota, s.principal.tenant) {
                    (Some(used), Some(old)) => {
                        commit_push(f.d, s.batch, usage_op(old, -used), f.assigned);
                        usage_leaves_index(m, old, -used, f.assigned);
                    },
                    _ => {},
                }
                assert(f.d.commit(left, f.assigned) == Some(m1));
                assert(same_index(m, m1));
                let m2 = match (c.used_quota, tenant) {
                    (Some(used), Some(new)) => m1.apply(usage_op(new, used as int), f.assigned)->0,
                    _ => m1,
                };
                match (c.used_quota, tenant) {
                    (Some(used), Some(new)) => {
                        commit_push(f.d, left, usage_op(new, used as int), f.assigned);
                        usage_leaves_index(m1, new, used as int, f.assigned);
                    },
                    _ => {},
                }
                assert(f.d.commit(joined, f.assigned) == Some(m2));
                assert(same_index(m1, m2));
                let put = name_op(s.principal.name, PayloadModel::Info(c.name_info(tenant)));
                commit_push(f.d, joined, put, f.assigned);
                let after = f.d.commit(next.batch, f.assigned)->0;
                assert(after.entries == m2.entries.insert(
                    Key::NameToId(s.principal.name),
                    Stored::Info(c.name_info(tenant)),
                ));
                assert forall|x: u32| #[trigger] after.record(x) == f.d.record(x) by {
                    assert(m2.record(x) == m1.record(x));
                    assert(m1.record(x) == m.record(x));
                    assert(m.record(x) == f.d.record(x));
                }
                assert forall|other: Seq<char>|
                    other != next.principal.name implies #[trigger] after.info(other) == (if other
                    == f.orig.name {
                    None
                } else {
                    f.d.info(other)
                }) by {
                    assert(after.info(other) == m2.info(other));
                    assert(m2.info(other) == m1.info(other));
                    assert(m1.info(other) == m.info(other));
                }
                assert forall|email: Seq<char>| #[trigger] after.email(email) == m.email(email) by {
                    assert(m2.email(email) == m1.email(email));
                    assert(m1.email(email) == m.email(email));
                }
                assert forall|email: Seq<char>| next.principal.emails.contains(email) implies ((
                #[trigger] after.email(email) matches Some(info) && info.id == f.id) && (f.d.email(
                    email,
                ) matches Some(info) ==> info.id == f.id)) by {
                    assert(after.email(email) == m.email(email));
                }
                assert forall|email: Seq<char>|
                    !next.principal.emails.contains(email) implies #[trigger] after.email(email) == (
                if f.d.email(email) matches Some(info) && info.id == f.id {
                    None
                } else {
                    f.d.email(email)
                }) by {
                    assert(after.email(email) == m.email(email));
                }
            }
        },
        _ => {},
    }
}

/// What is left of a list after a removal holds exactly the entries of
/// the list that the removal does not take.
pub proof fn surviving_contains(list: Seq<Seq<char>>, removal: Taken, x: Seq<char>)
    ensures
        surviving(list, removal).contains(x) <==> list.contains(x) && !removal.takes(x),
    decreases list.len(),
{
    if list.len() == 0 {
        surviving_push(Seq::empty(), x, removal);
        assert(list =~= Seq::<Seq<char>>::empty());
    } else {
        let head = list.drop_last();
        let last = list.last();
        assert(list =~= head.push(last));
        surviving_push(head, last, removal);
        surviving_contains(head, removal, x);
        if list.contains(x) {
            let j = choose|j: int| 0 <= j < list.len() && list[j] == x;
            if j < head.len() {
                assert(head[j] == x);
            }
        }
        if head.contains(x) {
            let j = choose|j: int| 0 <= j < head.len() && head[j] == x;
            assert(list[j] == x);
        }
        if !removal.takes(last) {
            let kept = surviving(head, removal);
            assert(kept.push(last).last() == last);
            if kept.contains(x) {
                let j = choose|j: int| 0 <= j < kept.len() && kept[j] == x;
                assert(kept.push(last)[j] == x);
            }
            if kept.push(last).contains(x) {
                let j = choose|j: int| 0 <= j < kept.push(last).len() && kept.push(last)[j] == x;
                if j < kept.len() {
                    assert(kept[j] == x);
                }
            }
            assert(kept.push(last)[kept.len() as int] == last);
        }
    }
}

/// An address that an update admits receives no mail yet.
pub proof fn admitted_is_free(known: Known, d: Directory, email: Seq<char>)
    requires
        reflects(known, d),
        admit_email_step(known, email) is Done,
    ensures
        !d.entries.contains_key(Key::EmailToId(email)),
        d.email(email) is None,
{
    assert(known.rcpt(email) == Some(false));
}

/// Adding an address leaves the update in flight.
pub proof fn add_email_stays_in_flight(
    f: Flight,
    s: StateModel,
    c: Context,
    known: Known,
    raw: Seq<char>,
)
    requires
        in_flight(f, s),
        reflects(known, f.d),
        c.principal_id == f.id,
    ensures
        stays_in_flight(f, add_email_step(s, c, known, raw)),
{
    let m = f.d.commit(s.batch, f.assigned)->0;
    match add_email_step(s, c, known, raw) {
        Step::Done(next) => {
            if next != s {
                let email = lowercase(raw);
                admitted_is_free(known, f.d, email);
                let put = email_op(email, PayloadModel::Info(c.email_info()));
                commit_push(f.d, s.batch, put, f.assigned);
                let after = f.d.commit(next.batch, f.assigned)->0;
                assert(after.entries == m.entries.insert(
                    Key::EmailToId(email),
                    Stored::Info(c.email_info()),
                ));
                let current = s.principal.emails;
                assert(next.principal.emails == current.push(email));
                assert forall|x: Seq<char>| #[trigger]
                    next.principal.emails.contains(x) <==> (current.contains(x) || set![
                        email,
                    ].contains(x)) && !Set::<Seq<char>>::empty().contains(x) by {
                    if current.contains(x) {
                        let j = choose|j: int| 0 <= j < current.len() && current[j] == x;
                        assert(current.push(email)[j] == x);
                    }
                    if x == email {
                        assert(current.push(email)[current.len() as int] == x);
                    }
                    if current.push(email).contains(x) {
                        let j = choose|j: int|
                            0 <= j < current.push(email).len() && current.push(email)[j] == x;
                        if j < current.len() {
                            assert(current[j] == x);
                        }
                    }
                }
                emails_on_course(f, s, next, m, after, set![email], Set::empty());
            }
        },
        _ => {},
    }
}

/// Whether `after` is `m` with the addresses of `put` filed under the
/// principal in flight and the addresses of `gone` taken out.
pub open spec fn refiled(f: Flight, m: Directory, after: Directory, put: Set<Seq<char>>, gone: Set<Seq<char>>) -> bool {
    &&& forall|name: Seq<char>| #[trigger] after.info(name) == m.info(name)
    &&& forall|x: u32| #[trigger] after.record(x) == m.record(x)
    &&& forall|email: Seq<char>|
        put.contains(email) ==> (#[trigger] after.email(email) matches Some(info) && info.id
            == f.id)
    &&& forall|email: Seq<char>| gone.contains(email) ==> #[trigger] after.email(email) is None
    &&& forall|email: Seq<char>|
        !put.contains(email) && !gone.contains(email) ==> #[trigger] after.email(email)
            == m.email(email)
}

/// Filing free addresses under the principal in flight and taking out
/// addresses that it had keeps the store on course, if the principal then
/// has the addresses that it had or that were filed, without those that
/// were taken out.
pub proof fn emails_on_course(
    f: Flight,
    s: StateModel,
    next: StateModel,
    m: Directory,
    after: Directory,
    put: Set<Seq<char>>,
    gone: Set<Seq<char>>,
)
    requires
        on_course(f, s, m),
        refiled(f, m, after, put, gone),
        next.principal.name == s.principal.name,
        next.principal.typ == s.principal.typ,
        next.principal.tenant == s.principal.tenant,
        next.pinfo_name == s.pinfo_name,
        forall|email: Seq<char>| #[trigger]
            put.contains(email) ==> f.d.email(email) is None && !gone.contains(email),
        forall|email: Seq<char>| #[trigger]
            gone.contains(email) ==> s.principal.emails.contains(email),
        forall|email: Seq<char>| #[trigger]
            next.principal.emails.contains(email) <==> (s.principal.emails.contains(email)
                || put.contains(email)) && !gone.contains(email),
    ensures
        on_course(f, next, after),
{
    assert forall|x: u32| #[trigger] after.record(x) == f.d.record(x) by {
        assert(m.record(x) == f.d.record(x));
    }
    assert(after.info(s.principal.name) == m.info(s.principal.name));
    assert forall|name: Seq<char>| name != next.principal.name implies #[trigger] after.info(name)
        == (if name == f.orig.name {
        None
    } else {
        f.d.info(name)
    }) by {
        assert(after.info(name) == m.info(name));
    }
    assert forall|email: Seq<char>| next.principal.emails.contains(email) implies ((
    #[trigger] after.email(email) matches Some(info) && info.id == f.id) && (f.d.email(
        email,
    ) matches Some(info) ==> info.id == f.id)) by {
        assert((s.principal.emails.contains(email) || put.contains(email)) && !gone.contains(
            email,
        ));
        if !put.contains(email) {
            assert(after.email(email) == m.email(email));
            assert(m.email(email) matches Some(info) && info.id == f.id);
        }
    }
    assert forall|email: Seq<char>| !next.principal.emails.contains(email) implies #[trigger] after.email(
        email,
    ) == (if f.d.email(email) matches Some(info) && info.id == f.id {
        None
    } else {
        f.d.email(email)
    }) by {
        if gone.contains(email) {
            assert(s.principal.emails.contains(email));
            assert(m.email(email) matches Some(info) && info.id == f.id);
            assert(after.email(email) is None);
        } else {
            assert(!put.contains(email) && !s.principal.emails.contains(email));
            assert(after.email(email) == m.email(email));
        }
    }
}

/// Removing an address leaves the update in flight.
pub proof fn remove_email_stays_in_flight(f: Flight, s: StateModel, raw: Seq<char>)
    requires
        in_flight(f, s),
    ensures
        in_flight(f, remove_email_state(s, raw)),
{
    let m = f.d.commit(s.batch, f.assigned)->0;
    let next = remove_email_state(s, raw);
    let email = lowercase(raw);
    if s.principal.emails.contains(email) {
        commit_push(f.d, s.batch, drop_email_op(email), f.assigned);
        let after = f.d.commit(next.batch, f.assigned)->0;
        assert(after.entries == m.entries.remove(Key::EmailToId(email)));
        assert forall|x: Seq<char>| #[trigger]
            next.principal.emails.contains(x) <==> (s.principal.emails.contains(x)
                || Set::<Seq<char>>::empty().contains(x)) && !set![email].contains(x) by {
            surviving_contains(s.principal.emails, Taken::Equal(email), x);
        }
        emails_on_course(f, s, next, m, after, Set::empty(), set![email]);
    }
}

/// The addresses from position `from` on that the principal does not have
/// yet.
pub open spec fn admitted(current: Seq<Seq<char>>, emails: Seq<Seq<char>>, from: int) -> Set<
    Seq<char>,
> {
    Set::new(
        |email: Seq<char>|
            exists|j: int|
                from <= j < emails.len() && #[trigger] emails[j] == email && !current.contains(email),
    )
}

/// The addresses of the principal from position `from` on that are not
/// among the new ones.
pub open spec fn retired(current: Seq<Seq<char>>, emails: Seq<Seq<char>>, from: int) -> Set<
    Seq<char>,
> {
    Set::new(
        |email: Seq<char>|
            exists|j: int|
                from <= j < current.len() && #[trigger] current[j] == email && !emails.contains(
                    email,
                ),
    )
}

proof fn admit_commit(
    f: Flight,
    m: Directory,
    start: Directory,
    known: Known,
    c: Context,
    current: Seq<Seq<char>>,
    emails: Seq<Seq<char>>,
    from: int,
    batch: Seq<OpModel>,
    filed: Set<Seq<char>>,
)
    requires
        0 <= from <= emails.len(),
        reflects(known, f.d),
        c.principal_id == f.id,
        f.d.commit(batch, f.assigned) == Some(m),
        refiled(f, start, m, filed, Set::empty()),
        filed.subset_of(admitted(current, emails, 0)),
        forall|j: int|
            0 <= j < from && !current.contains(#[trigger] emails[j]) ==> filed.contains(emails[j])
                && f.d.email(emails[j]) is None,
    ensures
        admit_from(known, c, current, emails, from, batch) matches Step::Done(done) ==> (
        f.d.commit(done, f.assigned) matches Some(after) && refiled(
            f,
            start,
            after,
            admitted(current, emails, 0),
            Set::empty(),
        ) && forall|j: int|
            0 <= j < emails.len() && !current.contains(#[trigger] emails[j]) ==> f.d.email(
                emails[j],
            ) is None),
    decreases emails.len() - from,
{
    let all = admitted(current, emails, 0);
    if from >= emails.len() {
        assert(filed =~= all) by {
            assert forall|x: Seq<char>| all.contains(x) implies filed.contains(x) by {
                let j = choose|j: int|
                    0 <= j < emails.len() && #[trigger] emails[j] == x && !current.contains(x);
                assert(filed.contains(emails[j]));
            }
        }
    } else {
        let email = emails[from];
        if current.contains(email) {
            admit_commit(f, m, start, known, c, current, emails, from + 1, batch, filed);
        } else {
            match admit_email_step(known, email) {
                Step::Done(_) => {
                    admitted_is_free(known, f.d, email);
                    let put = email_op(email, PayloadModel::Info(c.email_info()));
                    commit_push(f.d, batch, put, f.assigned);
                    let next = Directory {
                        entries: m.entries.insert(
                            Key::EmailToId(email),
                            Stored::Info(c.email_info()),
                        ),
                    };
                    assert(all.contains(email)) by {
                        assert(0 <= from < emails.len() && emails[from] == email);
                    }
                    let grown = filed.insert(email);
                    assert(refiled(f, start, next, grown, Set::empty())) by {
                        assert forall|name: Seq<char>| #[trigger] next.info(name) == start.info(
                            name,
                        ) by {
                            assert(m.info(name) == start.info(name));
                        }
                        assert forall|x: u32| #[trigger] next.record(x) == start.record(x) by {
                            assert(m.record(x) == start.record(x));
                        }
                        assert forall|x: Seq<char>| grown.contains(x) implies (#[trigger] next.email(
                            x,
                        ) matches Some(info) && info.id == f.id) by {
                            if x != email {
                                assert(filed.contains(x));
                                assert(m.email(x) matches Some(info) && info.id == f.id);
                            }
                        }
                        assert forall|x: Seq<char>|
                            !grown.contains(x) && !Set::<Seq<char>>::empty().contains(
                                x,
                            ) implies #[trigger] next.email(x) == start.email(x) by {
                            assert(!filed.contains(x));
                            assert(m.email(x) == start.email(x));
                        }
                    }
                    admit_commit(
                        f,
                        next,
                        start,
                        known,
                        c,
                        current,
                        emails,
                        from + 1,
                        batch.push(put),
                        grown,
                    );
                },
                _ => {},
            }
        }
    }
}

proof fn retire_commit(
    f: Flight,
    m: Directory,
    start: Directory,
    current: Seq<Seq<char>>,
    emails: Seq<Seq<char>>,
    from: int,
    batch: Seq<OpModel>,
    put: Set<Seq<char>>,
    gone: Set<Seq<char>>,
)
    requires
        0 <= from <= current.len(),
        f.d.commit(batch, f.assigned) == Some(m),
        refiled(f, start, m, put, gone),
        forall|x: Seq<char>| #[trigger] put.contains(x) ==> !current.contains(x),
        gone.subset_of(retired(current, emails, 0)),
        forall|j: int|
            0 <= j < from && !emails.contains(#[trigger] current[j]) ==> gone.contains(current[j]),
    ensures
        f.d.commit(retire_from(current, emails, from, batch), f.assigned) matches Some(after)
            && refiled(f, start, after, put, retired(current, emails, 0)),
    decreases current.len() - from,
{
    let all = retired(current, emails, 0);
    if from >= current.len() {
        assert(gone =~= all) by {
            assert forall|x: Seq<char>| all.contains(x) implies gone.contains(x) by {
                let j = choose|j: int|
                    0 <= j < current.len() && #[trigger] current[j] == x && !emails.contains(x);
                assert(gone.contains(current[j]));
            }
        }
    } else {
        let email = current[from];
        if emails.contains(email) {
            retire_commit(f, m, start, current, emails, from + 1, batch, put, gone);
        } else {
            let clear = drop_email_op(email);
            commit_push(f.d, batch, clear, f.assigned);
            let next = Directory { entries: m.entries.remove(Key::EmailToId(email)) };
            assert(all.contains(email)) by {
                assert(0 <= from < current.len() && current[from] == email);
            }
            assert(current.contains(email));
            let grown = gone.insert(email);
            assert(refiled(f, start, next, put, grown)) by {
                assert forall|name: Seq<char>| #[trigger] next.info(name) == start.info(name) by {
                    assert(m.info(name) == start.info(name));
                }
                assert forall|x: u32| #[trigger] next.record(x) == start.record(x) by {
                    assert(m.record(x) == start.record(x));
                }
                assert forall|x: Seq<char>| put.contains(x) implies (#[trigger] next.email(
                    x,
                ) matches Some(info) && info.id == f.id) by {
                    assert(x != email);
                    assert(m.email(x) matches Some(info) && info.id == f.id);
                }
                assert forall|x: Seq<char>| grown.contains(x) implies #[trigger] next.email(
                    x,
                ) is None by {
                    if x != email {
                        assert(gone.contains(x));
                        assert(m.email(x) is None);
                    }
                }
                assert forall|x: Seq<char>|
                    !put.contains(x) && !grown.contains(x) implies #[trigger] next.email(x)
                    == start.email(x) by {
                    assert(!gone.contains(x));
                    assert(m.email(x) == start.email(x));
                }
            }
            retire_commit(f, next, start, current, emails, from + 1, batch.push(clear), put, grown);
        }
    }
}

/// Replacing the addresses leaves the update in flight.
pub proof fn set_emails_stays_in_flight(
    f: Flight,
    s: StateModel,
    c: Context,
    known: Known,
    raw: Seq<Seq<char>>,
)
    requires
        in_flight(f, s),
        reflects(known, f.d),
        c.principal_id == f.id,
    ensures
        stays_in_flight(f, set_emails_step(s, c, known, raw)),
{
    let m = f.d.commit(s.batch, f.assigned)->0;
    let current = s.principal.emails;
    let emails = distinct(lowered(raw));
    match set_emails_step(s, c, known, raw) {
        Step::Done(next) => {
            let put = admitted(current, emails, 0);
            let gone = retired(current, emails, 0);
            assert(refiled(f, m, m, Set::empty(), Set::empty()));
            admit_commit(f, m, m, known, c, current, emails, 0, s.batch, Set::empty());
            let admitted_batch = admit_from(known, c, current, emails, 0, s.batch)->Done_0;
            let filed = f.d.commit(admitted_batch, f.assigned)->0;
            retire_commit(
                f,
                filed,
                m,
                current,
                emails,
                0,
                admitted_batch,
                put,
                Set::empty(),
            );
            let after = f.d.commit(next.batch, f.assigned)->0;
            assert forall|x: Seq<char>| #[trigger] put.contains(x) implies f.d.email(x) is None
                && !gone.contains(x) by {
                let j = choose|j: int|
                    0 <= j < emails.len() && #[trigger] emails[j] == x && !current.contains(x);
                assert(f.d.email(emails[j]) is None);
            }
            assert forall|x: Seq<char>| #[trigger] gone.contains(x) implies current.contains(x) by {
                let j = choose|j: int|
                    0 <= j < current.len() && #[trigger] current[j] == x && !emails.contains(x);
            }
            assert forall|x: Seq<char>| #[trigger]
                next.principal.emails.contains(x) <==> (current.contains(x) || put.contains(x))
                    && !gone.contains(x) by {
                if emails.contains(x) {
                    let j = choose|j: int| 0 <= j < emails.len() && emails[j] == x;
                    if !current.contains(x) {
                        assert(0 <= j < emails.len() && emails[j] == x && !current.contains(x));
                    }
                    if gone.contains(x) {
                        let k = choose|k: int|
                            0 <= k < current.len() && #[trigger] current[k] == x
                                && !emails.contains(x);
                    }
                }
                if current.contains(x) && !gone.contains(x) {
                    let k = choose|k: int| 0 <= k < current.len() && current[k] == x;
                    if !emails.contains(x) {
                        assert(0 <= k < current.len() && current[k] == x && !emails.contains(x));
                    }
                }
                if put.contains(x) {
                    let j = choose|j: int|
                        0 <= j < emails.len() && #[trigger] emails[j] == x && !current.contains(x);
                }
            }
            emails_on_course(f, s, next, m, after, put, gone);
        },
        _ => {},
    }
}

} // verus!
