//! What an update leaves behind: a store whose indexes agree with the
//! records as they did before.

use vstd::prelude::*;
use crate::batch::Stored;
use crate::changes::{Context, StateModel};
use crate::invariants::{email_filed, email_leads, indexed, name_leads, record_named};
use crate::keys::Key;
use crate::model::{commit_one, commit_push, Directory};
use crate::principal::{ChangeModel, QuotaModel, ValueModel};
use crate::query::{member_of_step, members_step};
use crate::reflect::reflects;
use crate::resolve::{id_step, Selector};
use crate::snapshot::{Known, Step};
use crate::update::{
    change_step, changes_from, initial_state, lock_op, touches_record, update_step, usage_step,
    write_back_op,
};
use crate::updating::{
    add_email_stays_in_flight, edges_stay_in_flight, in_flight, on_course,
    record_change_stays_in_flight, remove_email_stays_in_flight, rename_stays_in_flight,
    set_emails_stays_in_flight, stays_in_flight, tenant_stays_in_flight, Flight,
};

verus! {

/// Every change leaves the update in flight, and a change to a membership
/// field leaves the record as it is.
pub proof fn change_stays_in_flight(
    f: Flight,
    s: StateModel,
    c: Context,
    known: Known,
    change: ChangeModel,
)
    requires
        in_flight(f, s),
        reflects(known, f.d),
        c.principal_id == f.id,
        c.typ == f.orig.typ,
    ensures
        stays_in_flight(f, change_step(s, c, known, change)),
        change.field.is_membership() ==> (change_step(s, c, known, change) matches Step::Done(
            next,
        ) ==> next.principal == s.principal),
{
    match change.value {
        ValueModel::String(text) => {
            rename_stays_in_flight(f, s, c, known, text);
            tenant_stays_in_flight(f, s, c, known, text);
            add_email_stays_in_flight(f, s, c, known, text);
            remove_email_stays_in_flight(f, s, text);
            edges_stay_in_flight(f, s, c, known, change.field, Seq::empty(), text);
            record_change_stays_in_flight(
                f,
                s,
                s.with_principal(s.principal.with_secrets(seq![text])),
            );
            record_change_stays_in_flight(f, s, s.with_principal(s.principal.add_secret(text)));
            record_change_stays_in_flight(f, s, s.with_principal(s.principal.remove_secret(text)));
            record_change_stays_in_flight(
                f,
                s,
                s.with_principal(s.principal.with_description(text)),
            );
            record_change_stays_in_flight(f, s, s.with_principal(s.principal.with_quota(None)));
            match crate::resolve::permission_step(known, change.field, text) {
                Step::Done(id) => {
                    record_change_stays_in_flight(
                        f,
                        s,
                        s.with_principal(s.principal.add_permission(change.field, id)),
                    );
                    record_change_stays_in_flight(
                        f,
                        s,
                        s.with_principal(s.principal.remove_permission(change.field, id)),
                    );
                },
                _ => {},
            }
        },
        ValueModel::StringList(list) => {
            set_emails_stays_in_flight(f, s, c, known, list);
            edges_stay_in_flight(f, s, c, known, change.field, list, Seq::empty());
            record_change_stays_in_flight(f, s, s.with_principal(s.principal.with_secrets(list)));
            match crate::resolve::permissions_step(known, change.field, list) {
                Step::Done(ids) => {
                    record_change_stays_in_flight(
                        f,
                        s,
                        s.with_principal(s.principal.with_permissions(change.field, ids)),
                    );
                },
                _ => {},
            }
        },
        ValueModel::Integer(quota) => {
            record_change_stays_in_flight(
                f,
                s,
                s.with_principal(s.principal.with_quota(Some(QuotaModel::Scalar(quota)))),
            );
        },
        ValueModel::IntegerList(quotas) => {
            record_change_stays_in_flight(
                f,
                s,
                s.with_principal(s.principal.with_quota(Some(QuotaModel::PerType(quotas)))),
            );
        },
    }
}

/// The changes of an update, applied one after the other, leave the update
/// in flight; where all of them are to membership fields, they leave the
/// record as it is.
pub proof fn changes_stay_in_flight(
    f: Flight,
    s: StateModel,
    c: Context,
    known: Known,
    changes: Seq<ChangeModel>,
    from: int,
)
    requires
        in_flight(f, s),
        reflects(known, f.d),
        c.principal_id == f.id,
        c.typ == f.orig.typ,
        0 <= from <= changes.len(),
    ensures
        changes_from(s, c, known, changes, from) matches Step::Done(last) ==> in_flight(f, last)
            && ((forall|i: int|
            from <= i < changes.len() ==> (#[trigger] changes[i]).field.is_membership())
            ==> last.principal == s.principal),
    decreases changes.len() - from,
{
    if from < changes.len() {
        change_stays_in_flight(f, s, c, known, changes[from]);
        match change_step(s, c, known, changes[from]) {
            Step::Done(next) => {
                changes_stay_in_flight(f, next, c, known, changes, from + 1);
                if forall|i: int|
                    from <= i < changes.len() ==> (#[trigger] changes[i]).field.is_membership() {
                    assert(changes[from].field.is_membership());
                }
            },
            _ => {},
        }
    }
}

/// A store that is on course for the record that the update ends with is,
/// once that record is written, a store whose indexes agree with the
/// records.
pub proof fn landed_is_indexed(f: Flight, s: StateModel, m: Directory)
    requires
        indexed(f.d),
        f.d.record(f.id) == Some(f.orig),
        on_course(f, s, m),
    ensures
        indexed(
            Directory { entries: m.entries.insert(Key::Principal(f.id), Stored::Record(s.principal)) },
        ),
{
    let after = Directory {
        entries: m.entries.insert(Key::Principal(f.id), Stored::Record(s.principal)),
    };
    assert forall|x: u32| #[trigger] after.record(x) == (if x == f.id {
        Some(s.principal)
    } else {
        f.d.record(x)
    }) by {
        assert(m.record(x) == f.d.record(x));
    }
    assert forall|name: Seq<char>| #[trigger] after.info(name) == m.info(name) by {}
    assert forall|email: Seq<char>| #[trigger] after.email(email) == m.email(email) by {}
    assert(record_named(f.d, f.id));
    assert forall|name: Seq<char>| #[trigger] name_leads(after, name) by {
        assert(after.info(name) == m.info(name));
        if name != s.principal.name && m.info(name) is Some {
            assert(m.info(name) == f.d.info(name));
            assert(name_leads(f.d, name));
        }
    }
    assert forall|x: u32| #[trigger] record_named(after, x) by {
        if x != f.id && f.d.record(x) is Some {
            let p = f.d.record(x)->0;
            assert(record_named(f.d, x));
            assert(after.info(p.name) == m.info(p.name));
            assert(m.info(p.name) == f.d.info(p.name));
        }
        if x == f.id {
            assert(after.info(s.principal.name) == m.info(s.principal.name));
        }
    }
    assert forall|email: Seq<char>| #[trigger] email_leads(after, email) by {
        assert(after.email(email) == m.email(email));
        if !s.principal.emails.contains(email) && m.email(email) is Some {
            assert(m.email(email) == f.d.email(email));
            assert(email_leads(f.d, email));
        }
    }
    assert forall|x: u32, email: Seq<char>| #[trigger] email_filed(after, x, email) by {
        assert(after.email(email) == m.email(email));
        if x != f.id && f.d.record(x) is Some && f.d.record(x)->0.emails.contains(email) {
            assert(email_filed(f.d, x, email));
        }
    }
}

/// A store is on course for the record that was read from it.
pub proof fn start_is_on_course(f: Flight, s: StateModel)
    requires
        indexed(f.d),
        f.d.record(f.id) == Some(f.orig),
        s.principal == f.orig,
        s.pinfo_name.id == f.id,
        s.pinfo_name.typ == f.orig.typ,
        s.pinfo_name.tenant == f.orig.tenant,
    ensures
        on_course(f, s, f.d),
{
    assert(record_named(f.d, f.id));
    assert(name_leads(f.d, f.orig.name));
    assert forall|email: Seq<char>| s.principal.emails.contains(email) implies ((
    #[trigger] f.d.email(email) matches Some(info) && info.id == f.id) && (f.d.email(
        email,
    ) matches Some(info) ==> info.id == f.id)) by {
        assert(email_filed(f.d, f.id, email));
    }
    assert forall|email: Seq<char>| !s.principal.emails.contains(email) implies #[trigger] f.d.email(
        email,
    ) == (if f.d.email(email) matches Some(info) && info.id == f.id {
        None
    } else {
        f.d.email(email)
    }) by {
        assert(email_leads(f.d, email));
    }
}

/// After an update, the principal is found under the name and under each
/// of the addresses that it now has, and nowhere else, and so is every
/// other principal: the store accepts the batch of the update while the
/// record has not changed since it was read, and the indexes of the store
/// agree with the records afterwards as they did before.
pub proof fn updated_principal_stays_indexed(
    d: Directory,
    known: Known,
    by: Selector,
    changes: Seq<ChangeModel>,
    tenant: Option<u32>,
    assigned: u32,
)
    requires
        indexed(d),
        reflects(known, d),
        update_step(known, by, changes, tenant) is Done,
    ensures
        d.commit(update_step(known, by, changes, tenant)->Done_0, assigned) matches Some(after)
            && indexed(after),
{
    let id = id_step(known, by)->Done_0;
    let hashed = known.record(id)->0->0;
    let member_of = member_of_step(known, id)->Done_0;
    let members = members_step(known, id)->Done_0;
    let used_quota = usage_step(known, id, changes, tenant)->Done_0;
    let locked = touches_record(changes);
    let c = Context { principal_id: id, typ: hashed.inner.typ, tenant_id: tenant, used_quota };
    let start = initial_state(id, hashed, member_of, members, locked);
    let f = Flight { d, id, orig: hashed.inner, assigned };
    assert(d.record(id) == Some(hashed.inner));
    start_is_on_course(f, start);
    if locked {
        commit_one(d, lock_op(id, hashed), assigned);
        assert(start.batch =~= seq![lock_op(id, hashed)]);
    } else {
        assert(d.commit(start.batch, assigned) == Some(d));
    }
    assert(in_flight(f, start));
    changes_stay_in_flight(f, start, c, known, changes, 0);
    let last = changes_from(start, c, known, changes, 0)->Done_0;
    let m = d.commit(last.batch, assigned)->0;
    landed_is_indexed(f, last, m);
    if locked {
        commit_push(d, last.batch, write_back_op(id, last), assigned);
    } else {
        assert(forall|i: int|
            0 <= i < changes.len() ==> (#[trigger] changes[i]).field.is_membership());
        assert(last.principal == hashed.inner);
        assert(m.record(id) == Some(last.principal));
        assert(m.entries.insert(Key::Principal(id), Stored::Record(last.principal)) =~= m.entries);
    }
}

} // verus!
