//! What a deletion leaves behind: nothing that speaks of the principal, and
//! indexes that still agree with the records.

use vstd::prelude::*;
use crate::batch::OpModel;
use crate::delete::{
    delete_batch, delete_step, drop_emails_from, erase_ops, expel_all_from, leave_all_from,
    release_step,
};
use crate::index::{drop_email_op, unlink_ops};
use crate::invariants::{
    email_filed, email_leads, indexed, mentions, name_leads, pointed_at, record_named, tied,
};
use crate::keys::{Key, MaybeDynamicId};
use crate::model::{commit_append, commit_one, commit_push, commit_two, Directory};
use crate::principal::PrincipalModel;
use crate::query::{member_of_step, members_step};
use crate::reflect::reflects;
use crate::resolve::{id_step, Selector};
use crate::snapshot::Known;
use crate::symmetry::symmetric;
use crate::types::{MemberOf, Type};

verus! {

/// The index keys of the addresses from position `from` on.
pub open spec fn email_keys(emails: Seq<Seq<char>>, from: int) -> Set<Key> {
    Set::new(
        |key: Key|
            exists|j: int| from <= j < emails.len() && key == Key::EmailToId(#[trigger] emails[j]),
    )
}

/// The keys of the edges, in both directions, between a principal and what
/// it is a member of, from position `from` on.
pub open spec fn left_keys(id: u32, member_of: Seq<MemberOf>, from: int) -> Set<Key> {
    Set::new(
        |key: Key|
            exists|j: int|
                from <= j < member_of.len() && (key == Key::MemberOf(
                    id,
                    (#[trigger] member_of[j]).principal_id,
                ) || key == Key::Members(member_of[j].principal_id, id)),
    )
}

/// The keys of the edges, in both directions, between a principal and its
/// members, from position `from` on.
pub open spec fn expelled_keys(id: u32, members: Seq<u32>, from: int) -> Set<Key> {
    Set::new(
        |key: Key|
            exists|j: int|
                from <= j < members.len() && (key == Key::MemberOf(#[trigger] members[j], id) || key
                    == Key::Members(id, members[j])),
    )
}

/// The keys that the removal of the name, the record and the usage counter
/// takes out.
pub open spec fn erased_keys(id: u32, name: Seq<char>) -> Set<Key> {
    set![Key::NameToId(name), Key::Principal(id), Key::UsedQuota(id)]
}

/// Every key that a deletion takes out.
pub open spec fn deleted_keys(
    id: u32,
    record: PrincipalModel,
    member_of: Seq<MemberOf>,
    members: Seq<u32>,
) -> Set<Key> {
    erased_keys(id, record.name) + email_keys(record.emails, 0) + left_keys(id, member_of, 0)
        + expelled_keys(id, members, 0)
}

proof fn drop_emails_commit(
    d: Directory,
    m: Directory,
    emails: Seq<Seq<char>>,
    from: int,
    batch: Seq<OpModel>,
    id: u32,
)
    requires
        0 <= from <= emails.len(),
        d.commit(batch, id) == Some(m),
    ensures
        d.commit(drop_emails_from(emails, from, batch), id) == Some(
            Directory { entries: m.entries.remove_keys(email_keys(emails, from)) },
        ),
    decreases emails.len() - from,
{
    if from >= emails.len() {
        assert(m.entries.remove_keys(email_keys(emails, from)) =~= m.entries);
    } else {
        let op = drop_email_op(emails[from]);
        commit_push(d, batch, op, id);
        let next = Directory { entries: m.entries.remove(Key::EmailToId(emails[from])) };
        drop_emails_commit(d, next, emails, from + 1, batch.push(op), id);
        assert(next.entries.remove_keys(email_keys(emails, from + 1)) =~= m.entries.remove_keys(
            email_keys(emails, from),
        )) by {
            assert forall|key: Key|
                email_keys(emails, from).contains(key) <==> (key == Key::EmailToId(emails[from])
                    || email_keys(emails, from + 1).contains(key)) by {
                if email_keys(emails, from).contains(key) {
                    let j = choose|j: int|
                        from <= j < emails.len() && key == Key::EmailToId(#[trigger] emails[j]);
                    if j != from {
                        assert(from + 1 <= j < emails.len() && key == Key::EmailToId(emails[j]));
                    }
                }
                if key == Key::EmailToId(emails[from]) {
                    assert(from <= from < emails.len() && key == Key::EmailToId(emails[from]));
                }
                if email_keys(emails, from + 1).contains(key) {
                    let j = choose|j: int|
                        from + 1 <= j < emails.len() && key == Key::EmailToId(#[trigger] emails[j]);
                    assert(from <= j < emails.len() && key == Key::EmailToId(emails[j]));
                }
            }
        }
    }
}

proof fn leave_all_commit(
    d: Directory,
    m: Directory,
    id: u32,
    member_of: Seq<MemberOf>,
    from: int,
    batch: Seq<OpModel>,
    assigned: u32,
)
    requires
        0 <= from <= member_of.len(),
        d.commit(batch, assigned) == Some(m),
    ensures
        d.commit(leave_all_from(id, member_of, from, batch), assigned) == Some(
            Directory { entries: m.entries.remove_keys(left_keys(id, member_of, from)) },
        ),
    decreases member_of.len() - from,
{
    if from >= member_of.len() {
        assert(m.entries.remove_keys(left_keys(id, member_of, from)) =~= m.entries);
    } else {
        let peer = member_of[from].principal_id;
        let ops = unlink_ops(MaybeDynamicId::Static(id), MaybeDynamicId::Static(peer));
        commit_append(d, batch, ops, assigned);
        assert(ops =~= seq![ops[0], ops[1]]);
        commit_two(m, ops[0], ops[1], assigned);
        let next = Directory {
            entries: m.entries.remove(Key::MemberOf(id, peer)).remove(Key::Members(peer, id)),
        };
        leave_all_commit(d, next, id, member_of, from + 1, batch + ops, assigned);
        assert(next.entries.remove_keys(left_keys(id, member_of, from + 1))
            =~= m.entries.remove_keys(left_keys(id, member_of, from))) by {
            assert forall|key: Key|
                left_keys(id, member_of, from).contains(key) <==> (key == Key::MemberOf(id, peer)
                    || key == Key::Members(peer, id) || left_keys(id, member_of, from + 1).contains(
                    key,
                )) by {
                if left_keys(id, member_of, from).contains(key) {
                    let j = choose|j: int|
                        from <= j < member_of.len() && (key == Key::MemberOf(
                            id,
                            (#[trigger] member_of[j]).principal_id,
                        ) || key == Key::Members(member_of[j].principal_id, id));
                    if j != from {
                        assert(from + 1 <= j < member_of.len() && (key == Key::MemberOf(
                            id,
                            member_of[j].principal_id,
                        ) || key == Key::Members(member_of[j].principal_id, id)));
                    }
                }
                if key == Key::MemberOf(id, peer) || key == Key::Members(peer, id) {
                    assert(from <= from < member_of.len() && (key == Key::MemberOf(
                        id,
                        member_of[from].principal_id,
                    ) || key == Key::Members(member_of[from].principal_id, id)));
                }
                if left_keys(id, member_of, from + 1).contains(key) {
                    let j = choose|j: int|
                        from + 1 <= j < member_of.len() && (key == Key::MemberOf(
                            id,
                            (#[trigger] member_of[j]).principal_id,
                        ) || key == Key::Members(member_of[j].principal_id, id));
                    assert(from <= j < member_of.len() && (key == Key::MemberOf(
                        id,
                        member_of[j].principal_id,
                    ) || key == Key::Members(member_of[j].principal_id, id)));
                }
            }
        }
    }
}

proof fn expel_all_commit(
    d: Directory,
    m: Directory,
    id: u32,
    members: Seq<u32>,
    from: int,
    batch: Seq<OpModel>,
    assigned: u32,
)
    requires
        0 <= from <= members.len(),
        d.commit(batch, assigned) == Some(m),
    ensures
        d.commit(expel_all_from(id, members, from, batch), assigned) == Some(
            Directory { entries: m.entries.remove_keys(expelled_keys(id, members, from)) },
        ),
    decreases members.len() - from,
{
    if from >= members.len() {
        assert(m.entries.remove_keys(expelled_keys(id, members, from)) =~= m.entries);
    } else {
        let peer = members[from];
        let ops = unlink_ops(MaybeDynamicId::Static(peer), MaybeDynamicId::Static(id));
        commit_append(d, batch, ops, assigned);
        assert(ops =~= seq![ops[0], ops[1]]);
        commit_two(m, ops[0], ops[1], assigned);
        let next = Directory {
            entries: m.entries.remove(Key::MemberOf(peer, id)).remove(Key::Members(id, peer)),
        };
        expel_all_commit(d, next, id, members, from + 1, batch + ops, assigned);
        assert(next.entries.remove_keys(expelled_keys(id, members, from + 1))
            =~= m.entries.remove_keys(expelled_keys(id, members, from))) by {
            assert forall|key: Key|
                expelled_keys(id, members, from).contains(key) <==> (key == Key::MemberOf(peer, id)
                    || key == Key::Members(id, peer) || expelled_keys(id, members, from + 1).contains(
                    key,
                )) by {
                if expelled_keys(id, members, from).contains(key) {
                    let j = choose|j: int|
                        from <= j < members.len() && (key == Key::MemberOf(
                            #[trigger] members[j],
                            id,
                        ) || key == Key::Members(id, members[j]));
                    if j != from {
                        assert(from + 1 <= j < members.len() && (key == Key::MemberOf(
                            members[j],
                            id,
                        ) || key == Key::Members(id, members[j])));
                    }
                }
                if key == Key::MemberOf(peer, id) || key == Key::Members(id, peer) {
                    assert(from <= from < members.len() && (key == Key::MemberOf(members[from], id)
                        || key == Key::Members(id, members[from])));
                }
                if expelled_keys(id, members, from + 1).contains(key) {
                    let j = choose|j: int|
                        from + 1 <= j < members.len() && (key == Key::MemberOf(
                            #[trigger] members[j],
                            id,
                        ) || key == Key::Members(id, members[j]));
                    assert(from <= j < members.len() && (key == Key::MemberOf(members[j], id) || key
                        == Key::Members(id, members[j])));
                }
            }
        }
    }
}

/// The store after what a deletion settles first: the tenant's usage
/// counter without what the principal has used.
pub open spec fn settled_store(d: Directory, settled: Seq<OpModel>) -> Directory {
    if settled.len() == 0 {
        d
    } else {
        d.apply(settled[0], 0)->0
    }
}

/// Committing the batch of a deletion removes the keys of the deletion
/// from the store as it is after the settlement, and nothing else.
pub proof fn delete_commit(
    d: Directory,
    id: u32,
    record: PrincipalModel,
    settled: Seq<OpModel>,
    member_of: Seq<MemberOf>,
    members: Seq<u32>,
    assigned: u32,
)
    requires
        settled.len() == 0 || (settled.len() == 1 && settled[0] is Add),
    ensures
        d.commit(delete_batch(id, record, settled, member_of, members), assigned) == Some(
            Directory {
                entries: settled_store(d, settled).entries.remove_keys(
                    deleted_keys(id, record, member_of, members),
                ),
            },
        ),
{
    let m0 = settled_store(d, settled);
    if settled.len() == 0 {
        assert(d.commit(settled, assigned) == Some(m0));
    } else {
        assert(settled =~= seq![settled[0]]);
        commit_one(d, settled[0], assigned);
    }
    let erase = erase_ops(id, record.name);
    commit_append(d, settled, erase, assigned);
    let a = seq![erase[0]];
    let b = a.push(erase[1]);
    let c = b.push(erase[2]);
    assert(erase =~= c.push(erase[3]));
    commit_one(m0, erase[0], assigned);
    commit_push(m0, a, erase[1], assigned);
    commit_push(m0, b, erase[2], assigned);
    commit_push(m0, c, erase[3], assigned);
    let m1 = Directory {
        entries: m0.entries.remove(Key::NameToId(record.name)).remove(Key::Principal(id)).remove(
            Key::UsedQuota(id),
        ),
    };
    assert(d.commit(settled + erase, assigned) == Some(m1));
    drop_emails_commit(d, m1, record.emails, 0, settled + erase, assigned);
    let m2 = Directory { entries: m1.entries.remove_keys(email_keys(record.emails, 0)) };
    let unfiled = drop_emails_from(record.emails, 0, settled + erase);
    leave_all_commit(d, m2, id, member_of, 0, unfiled, assigned);
    let m3 = Directory { entries: m2.entries.remove_keys(left_keys(id, member_of, 0)) };
    let left = leave_all_from(id, member_of, 0, unfiled);
    expel_all_commit(d, m3, id, members, 0, left, assigned);
    assert(m3.entries.remove_keys(expelled_keys(id, members, 0)) =~= m0.entries.remove_keys(
        deleted_keys(id, record, member_of, members),
    ));
}

/// After a principal has been deleted, nothing in the store speaks of it:
/// neither its record nor its usage counter, no index entry and no edge.
/// The indexes of the store agree with the records as before. The usage
/// counter of the tenant that an individual or a group belonged to is the
/// one key that the deletion writes rather than removes.
pub proof fn deleted_principal_leaves_no_trace(
    d: Directory,
    known: Known,
    by: Selector,
    assigned: u32,
)
    requires
        indexed(d),
        symmetric(d),
        reflects(known, d),
        delete_step(known, by) is Done,
    ensures
        d.commit(delete_step(known, by)->Done_0.batch, assigned) matches Some(after) && !mentions(
            after,
            delete_step(known, by)->Done_0.principal_id,
        ) && indexed(after),
{
    let id = id_step(known, by)->Done_0;
    let hashed = known.record(id)->0->0;
    let record = hashed.inner;
    let settled = release_step(known, id, record)->Done_0;
    let member_of = member_of_step(known, id)->Done_0;
    let members = members_step(known, id)->Done_0;
    delete_commit(d, id, record, settled, member_of, members, assigned);
    let m0 = settled_store(d, settled);
    let gone = deleted_keys(id, record, member_of, members);
    let after = Directory { entries: m0.entries.remove_keys(gone) };
    assert(d.record(id) == Some(record));
    assert forall|key: Key| !(key is UsedQuota) implies (m0.entries.contains_key(key)
        == d.entries.contains_key(key) && (d.entries.contains_key(key) ==> m0.entries[key]
        == d.entries[key])) by {}
    assert(gone.contains(Key::NameToId(record.name)));
    assert(gone.contains(Key::Principal(id)));
    assert(gone.contains(Key::UsedQuota(id)));
    assert forall|email: Seq<char>| record.emails.contains(email) implies gone.contains(
        Key::EmailToId(email),
    ) by {
        let j = choose|j: int| 0 <= j < record.emails.len() && record.emails[j] == email;
        assert(0 <= j < record.emails.len() && Key::EmailToId(email) == Key::EmailToId(
            record.emails[j],
        ));
        assert(email_keys(record.emails, 0).contains(Key::EmailToId(email)));
    }
    assert forall|key: Key| gone.contains(key) && key is NameToId implies key == Key::NameToId(
        record.name,
    ) by {}
    assert forall|key: Key| gone.contains(key) && key is Principal implies key == Key::Principal(
        id,
    ) by {}
    assert forall|email: Seq<char>| gone.contains(Key::EmailToId(email)) implies record.emails.contains(
        email,
    ) by {
        assert(email_keys(record.emails, 0).contains(Key::EmailToId(email)));
    }
    assert(record_named(d, id));
    // No index entry points at the principal.
    assert forall|name: Seq<char>| !(#[trigger] after.info(name) matches Some(info) && info.id
        == id) by {
        if after.info(name) matches Some(info) && info.id == id {
            assert(d.info(name) == after.info(name));
            assert(name_leads(d, name));
        }
    }
    assert forall|email: Seq<char>| !(#[trigger] after.email(email) matches Some(info) && info.id
        == id) by {
        if after.email(email) matches Some(info) && info.id == id {
            assert(d.email(email) == after.email(email));
            assert(email_leads(d, email));
        }
    }
    assert(!pointed_at(after, id));
    // No edge begins or ends at the principal.
    assert forall|other: u32|
        !(after.is_member_of(id, other) || after.is_member_of(other, id) || after.has_member(
            id,
            other,
        ) || after.has_member(other, id)) by {
        if after.is_member_of(id, other) || after.has_member(other, id) {
            assert(d.is_member_of(id, other) <==> d.has_member(other, id));
            assert(d.is_member_of(id, other));
            let j = choose|j: int|
                0 <= j < member_of.len() && (#[trigger] member_of[j]).principal_id == other;
            assert(left_keys(id, member_of, 0).contains(Key::MemberOf(id, other)));
            assert(left_keys(id, member_of, 0).contains(Key::Members(other, id)));
        }
        if after.is_member_of(other, id) || after.has_member(id, other) {
            assert(d.is_member_of(other, id) <==> d.has_member(id, other));
            assert(d.has_member(id, other));
            let j = choose|j: int| 0 <= j < members.len() && members[j] == other;
            assert(0 <= j < members.len() && (Key::MemberOf(other, id) == Key::MemberOf(
                members[j],
                id,
            ) || Key::MemberOf(other, id) == Key::Members(id, members[j])));
            assert(expelled_keys(id, members, 0).contains(Key::MemberOf(other, id)));
            assert(expelled_keys(id, members, 0).contains(Key::Members(id, other)));
        }
    }
    assert(!tied(after, id));
    // The indexes still agree with the records.
    assert forall|name: Seq<char>| #[trigger] name_leads(after, name) by {
        if after.info(name) is Some {
            assert(d.info(name) == after.info(name));
            assert(name_leads(d, name));
        }
    }
    assert forall|other: u32| #[trigger] record_named(after, other) by {
        if after.record(other) is Some {
            let p = after.record(other)->0;
            assert(d.record(other) == Some(p));
            assert(record_named(d, other));
        }
    }
    assert forall|email: Seq<char>| #[trigger] email_leads(after, email) by {
        if after.email(email) is Some {
            assert(d.email(email) == after.email(email));
            assert(email_leads(d, email));
        }
    }
    assert forall|other: u32, email: Seq<char>| #[trigger] email_filed(after, other, email) by {
        if after.record(other) is Some && after.record(other)->0.emails.contains(email) {
            let p = after.record(other)->0;
            assert(d.record(other) == Some(p));
            assert(email_filed(d, other, email));
            assert(email_filed(d, id, email));
        }
    }
}

/// What a tenant gets back when a principal is deleted: what an individual
/// or a group of the tenant has used, if that is more than nothing.
pub open spec fn refund(d: Directory, id: u32, record: PrincipalModel, tenant: u32) -> int {
    if (record.typ == Type::Individual || record.typ == Type::Group) && record.tenant == Some(
        tenant,
    ) && d.counter(id) > 0 {
        d.counter(id)
    } else {
        0
    }
}

/// A deletion leaves no usage counter for the principal, takes what an
/// individual or a group has used off the counter of its tenant, and leaves
/// every other counter as it is.
pub proof fn deletion_settles_the_usage(
    d: Directory,
    known: Known,
    by: Selector,
    assigned: u32,
    other: u32,
)
    requires
        reflects(known, d),
        delete_step(known, by) is Done,
    ensures
        ({
            let id = delete_step(known, by)->Done_0.principal_id;
            let record = known.record(id)->0->0.inner;
            let after = d.commit(delete_step(known, by)->Done_0.batch, assigned)->0;
            &&& after.counter(id) == 0
            &&& other != id ==> after.counter(other) == d.counter(other) - refund(
                d,
                id,
                record,
                other,
            )
        }),
{
    let id = id_step(known, by)->Done_0;
    let record = known.record(id)->0->0.inner;
    let settled = release_step(known, id, record)->Done_0;
    let member_of = member_of_step(known, id)->Done_0;
    let members = members_step(known, id)->Done_0;
    delete_commit(d, id, record, settled, member_of, members, assigned);
    let gone = deleted_keys(id, record, member_of, members);
    assert(gone.contains(Key::UsedQuota(id)));
    assert(!gone.contains(Key::UsedQuota(other)) || other == id);
    if (record.typ == Type::Individual || record.typ == Type::Group) && record.tenant is Some {
        assert(known.used_quota(id) == Some(d.counter(id) as i64));
    }
}

} // verus!
