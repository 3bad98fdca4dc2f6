//! What a creation adds: one record, indexed under its name and under each
//! of its addresses, in a store whose indexes agree with the records as
//! before.

use vstd::prelude::*;
use crate::batch::{OpModel, PayloadModel, Stored};
use crate::create::{
    adopt_from, create_step, file_emails_from, fresh, join_new_from, name_domain_step, new_batch,
    new_edges_step, new_emails_from, new_header, new_record, new_record_op, new_tenant_step,
};
use crate::deletion::email_keys;
use crate::index::{email_op, link_ops, name_op};
use crate::invariants::{
    email_filed, email_leads, indexed, is_edge_key, name_leads, record_named, same_at,
    same_but_edges,
};
use crate::keys::{Key, MaybeDynamicId};
use crate::lists::lowered;
use crate::model::{commit_append, commit_one, commit_push, commit_two, Directory};
use crate::principal::{PrincipalModel, PrincipalSetModel};
use crate::races::claimed;
use crate::reflect::reflects;
use crate::resolve::permissions_step;
use crate::snapshot::Known;
use crate::text::lowercase;
use crate::types::{DynamicPrincipalInfo, PrincipalField, PrincipalInfo, Type};

verus! {

/// Two stores that differ in their edges only show the same index entries,
/// records and counters.
pub proof fn views_agree(a: Directory, b: Directory)
    requires
        same_but_edges(a, b),
    ensures
        forall|name: Seq<char>| #[trigger] a.info(name) == b.info(name),
        forall|email: Seq<char>| #[trigger] a.email(email) == b.email(email),
        forall|id: u32| #[trigger] a.record(id) == b.record(id),
        forall|id: u32| #[trigger] a.counter(id) == b.counter(id),
{
    assert forall|name: Seq<char>| #[trigger] a.info(name) == b.info(name) by {
        assert(same_at(a, b, Key::NameToId(name)));
    }
    assert forall|email: Seq<char>| #[trigger] a.email(email) == b.email(email) by {
        assert(same_at(a, b, Key::EmailToId(email)));
    }
    assert forall|id: u32| #[trigger] a.record(id) == b.record(id) by {
        assert(same_at(a, b, Key::Principal(id)));
    }
    assert forall|id: u32| #[trigger] a.counter(id) == b.counter(id) by {
        assert(same_at(a, b, Key::UsedQuota(id)));
    }
}

/// Whether the indexes agree with the records does not depend on the
/// edges.
pub proof fn indexed_whatever_the_edges(a: Directory, b: Directory)
    requires
        same_but_edges(a, b),
        indexed(a),
    ensures
        indexed(b),
{
    views_agree(a, b);
    assert forall|name: Seq<char>| #[trigger] name_leads(b, name) by {
        assert(a.info(name) == b.info(name));
        assert(name_leads(a, name));
        if a.info(name) is Some {
            assert(a.record(a.info(name)->0.id) == b.record(a.info(name)->0.id));
        }
    }
    assert forall|id: u32| #[trigger] record_named(b, id) by {
        assert(a.record(id) == b.record(id));
        assert(record_named(a, id));
        if a.record(id) is Some {
            assert(a.info(a.record(id)->0.name) == b.info(a.record(id)->0.name));
        }
    }
    assert forall|email: Seq<char>| #[trigger] email_leads(b, email) by {
        assert(a.email(email) == b.email(email));
        assert(email_leads(a, email));
        if a.email(email) is Some {
            assert(a.record(a.email(email)->0.id) == b.record(a.email(email)->0.id));
        }
    }
    assert forall|id: u32, email: Seq<char>| #[trigger] email_filed(b, id, email) by {
        assert(a.record(id) == b.record(id));
        assert(a.email(email) == b.email(email));
        assert(email_filed(a, id, email));
    }
}

/// The entries with `value` under every key of `keys`.
pub open spec fn with_keys(entries: Map<Key, Stored>, keys: Set<Key>, value: Stored) -> Map<
    Key,
    Stored,
> {
    Map::new(
        |key: Key| entries.contains_key(key) || keys.contains(key),
        |key: Key|
            if keys.contains(key) {
                value
            } else {
                entries[key]
            },
    )
}

proof fn email_keys_step(emails: Seq<Seq<char>>, from: int)
    requires
        0 <= from < emails.len(),
    ensures
        forall|key: Key|
            email_keys(emails, from).contains(key) <==> (key == Key::EmailToId(emails[from])
                || email_keys(emails, from + 1).contains(key)),
{
    assert forall|key: Key|
        email_keys(emails, from).contains(key) <==> (key == Key::EmailToId(emails[from])
            || email_keys(emails, from + 1).contains(key)) by {
        if email_keys(emails, from).contains(key) {
            let j = choose|j: int|
                from <= j < emails.len() && key == Key::EmailToId(#[trigger] emails[j]);
            if j != from {
                assert(from + 1 <= j < emails.len() && key == Key::EmailToId(emails[j]));
            }
        }
        if key == Key::EmailToId(emails[from]) {
            assert(from <= from < emails.len() && key == Key::EmailToId(emails[from]));
        }
        if email_keys(emails, from + 1).contains(key) {
            let j = choose|j: int|
                from + 1 <= j < emails.len() && key == Key::EmailToId(#[trigger] emails[j]);
            assert(from <= j < emails.len() && key == Key::EmailToId(emails[j]));
        }
    }
}

proof fn file_emails_commit(
    d: Directory,
    m: Directory,
    emails: Seq<Seq<char>>,
    info: DynamicPrincipalInfo,
    from: int,
    batch: Seq<OpModel>,
    id: u32,
)
    requires
        0 <= from <= emails.len(),
        d.commit(batch, id) == Some(m),
    ensures
        d.commit(file_emails_from(emails, info, from, batch), id) == Some(
            Directory {
                entries: with_keys(m.entries, email_keys(emails, from), Stored::Info(info.bind(id))),
            },
        ),
    decreases emails.len() - from,
{
    let value = Stored::Info(info.bind(id));
    if from >= emails.len() {
        assert(with_keys(m.entries, email_keys(emails, from), value) =~= m.entries);
    } else {
        let op = email_op(emails[from], PayloadModel::DynamicInfo(info));
        commit_push(d, batch, op, id);
        let next = Directory { entries: m.entries.insert(Key::EmailToId(emails[from]), value) };
        file_emails_commit(d, next, emails, info, from + 1, batch.push(op), id);
        email_keys_step(emails, from);
        assert(with_keys(next.entries, email_keys(emails, from + 1), value) =~= with_keys(
            m.entries,
            email_keys(emails, from),
            value,
        ));
    }
}

proof fn same_but_edges_after_link(m: Directory, ops: Seq<OpModel>, id: u32)
    requires
        ops.len() == 2,
        ops[0] matches OpModel::Put { class, .. } && class.is_edge(),
        ops[1] matches OpModel::Put { class, .. } && class.is_edge(),
    ensures
        m.commit(ops, id) matches Some(after) && same_but_edges(m, after),
{
    assert(ops =~= seq![ops[0], ops[1]]);
    commit_two(m, ops[0], ops[1], id);
    let after = m.commit(ops, id)->0;
    assert forall|key: Key| !is_edge_key(key) implies #[trigger] same_at(m, after, key) by {}
}

proof fn join_new_commit(
    d: Directory,
    m: Directory,
    groups: Seq<PrincipalInfo>,
    from: int,
    batch: Seq<OpModel>,
    id: u32,
)
    requires
        0 <= from <= groups.len(),
        d.commit(batch, id) == Some(m),
    ensures
        d.commit(join_new_from(groups, from, batch), id) matches Some(after) && same_but_edges(
            m,
            after,
        ),
    decreases groups.len() - from,
{
    if from >= groups.len() {
        assert forall|key: Key| !is_edge_key(key) implies #[trigger] same_at(m, m, key) by {}
    } else {
        let ops = link_ops(fresh(), MaybeDynamicId::Static(groups[from].id), groups[from].typ);
        commit_append(d, batch, ops, id);
        same_but_edges_after_link(m, ops, id);
        let next = m.commit(ops, id)->0;
        join_new_commit(d, next, groups, from + 1, batch + ops, id);
        let after = d.commit(join_new_from(groups, from, batch), id)->0;
        assert forall|key: Key| !is_edge_key(key) implies #[trigger] same_at(m, after, key) by {
            assert(same_at(m, next, key));
            assert(same_at(next, after, key));
        }
    }
}

proof fn adopt_commit(
    d: Directory,
    m: Directory,
    members: Seq<PrincipalInfo>,
    owner: Type,
    from: int,
    batch: Seq<OpModel>,
    id: u32,
)
    requires
        0 <= from <= members.len(),
        d.commit(batch, id) == Some(m),
    ensures
        d.commit(adopt_from(members, owner, from, batch), id) matches Some(after)
            && same_but_edges(m, after),
    decreases members.len() - from,
{
    if from >= members.len() {
        assert forall|key: Key| !is_edge_key(key) implies #[trigger] same_at(m, m, key) by {}
    } else {
        let ops = link_ops(MaybeDynamicId::Static(members[from].id), fresh(), owner);
        commit_append(d, batch, ops, id);
        same_but_edges_after_link(m, ops, id);
        let next = m.commit(ops, id)->0;
        adopt_commit(d, next, members, owner, from + 1, batch + ops, id);
        let after = d.commit(adopt_from(members, owner, from, batch), id)->0;
        assert forall|key: Key| !is_edge_key(key) implies #[trigger] same_at(m, after, key) by {
            assert(same_at(m, next, key));
            assert(same_at(next, after, key));
        }
    }
}

/// The store after a creation, its edges left aside.
pub open spec fn created(d: Directory, record: PrincipalModel, tenant: Option<u32>, id: u32) -> Directory {
    Directory {
        entries: with_keys(
            d.entries.insert(Key::Principal(id), Stored::Record(record.with_id(id))).insert(
                Key::NameToId(record.name),
                Stored::Info(PrincipalInfo { id, typ: record.typ, tenant }),
            ),
            email_keys(record.emails, 0),
            Stored::Info(PrincipalInfo { id, typ: record.typ, tenant: None }),
        ),
    }
}

/// The batch of a creation up to the last index entry, before any edge.
pub open spec fn filed_batch(record: PrincipalModel, tenant: Option<u32>) -> Seq<OpModel> {
    file_emails_from(
        record.emails,
        DynamicPrincipalInfo { typ: record.typ, tenant: None },
        0,
        new_header(record.name).push(new_record_op(record)).push(
            name_op(
                record.name,
                PayloadModel::DynamicInfo(DynamicPrincipalInfo { typ: record.typ, tenant }),
            ),
        ),
    )
}

/// Committing the batch of a creation up to the last index entry, to a
/// store in which the name is free, adds the record, the entry of the name
/// and the entries of the addresses.
pub proof fn create_files(d: Directory, record: PrincipalModel, tenant: Option<u32>, id: u32)
    requires
        !d.entries.contains_key(Key::NameToId(record.name)),
    ensures
        d.commit(filed_batch(record, tenant), id) == Some(created(d, record, tenant, id)),
{
    let header = new_header(record.name);
    let a = seq![header[0]];
    let b = a.push(header[1]);
    let c = b.push(header[2]);
    assert(header =~= c.push(header[3]));
    commit_one(d, header[0], id);
    commit_push(d, a, header[1], id);
    commit_push(d, b, header[2], id);
    commit_push(d, c, header[3], id);
    assert(d.commit(header, id) == Some(d));
    let record_op = new_record_op(record);
    let name_info = DynamicPrincipalInfo { typ: record.typ, tenant };
    let index_op = name_op(record.name, PayloadModel::DynamicInfo(name_info));
    commit_push(d, header, record_op, id);
    commit_push(d, header.push(record_op), index_op, id);
    let named = header.push(record_op).push(index_op);
    let m1 = Directory {
        entries: d.entries.insert(Key::Principal(id), Stored::Record(record.with_id(id))).insert(
            Key::NameToId(record.name),
            Stored::Info(PrincipalInfo { id, typ: record.typ, tenant }),
        ),
    };
    assert(d.commit(named, id) == Some(m1));
    let email_info = DynamicPrincipalInfo { typ: record.typ, tenant: None };
    file_emails_commit(d, m1, record.emails, email_info, 0, named, id);
}

/// Committing the batch of a creation to a store in which the name is
/// free adds the record, the entry of the name and the entries of the
/// addresses, and changes nothing else but edges.
pub proof fn create_commit(
    d: Directory,
    record: PrincipalModel,
    tenant: Option<u32>,
    member_of: Seq<PrincipalInfo>,
    members: Seq<PrincipalInfo>,
    id: u32,
)
    requires
        !d.entries.contains_key(Key::NameToId(record.name)),
    ensures
        d.commit(new_batch(record, tenant, member_of, members), id) matches Some(after)
            && same_but_edges(created(d, record, tenant, id), after),
{
    create_files(d, record, tenant, id);
    let filed = filed_batch(record, tenant);
    let m2 = created(d, record, tenant, id);
    join_new_commit(d, m2, member_of, 0, filed, id);
    let joined = join_new_from(member_of, 0, filed);
    let m3 = d.commit(joined, id)->0;
    adopt_commit(d, m3, members, record.typ, 0, joined, id);
    let after = d.commit(new_batch(record, tenant, member_of, members), id)->0;
    assert forall|key: Key| !is_edge_key(key) implies #[trigger] same_at(m2, after, key) by {
        assert(same_at(m2, m3, key));
        assert(same_at(m3, after, key));
    }
}

/// The addresses that a creation accepts receive no mail yet.
proof fn new_emails_are_free(
    known: Known,
    tenant: Option<u32>,
    emails: Seq<Seq<char>>,
    from: int,
    valid: Set<Seq<char>>,
)
    requires
        0 <= from <= emails.len(),
        new_emails_from(known, tenant, emails, from, valid) is Done,
    ensures
        forall|j: int| from <= j < emails.len() ==> known.rcpt(#[trigger] emails[j]) == Some(false),
    decreases emails.len() - from,
{
    if from < emails.len() {
        match crate::text::domain_part(emails[from]) {
            None => {
                new_emails_are_free(known, tenant, emails, from + 1, valid);
            },
            Some(domain) => {
                if valid.contains(domain) {
                    new_emails_are_free(known, tenant, emails, from + 1, valid);
                } else {
                    new_emails_are_free(known, tenant, emails, from + 1, valid.insert(domain));
                }
            },
        }
    }
}

/// Adding a record under a fresh identifier, with a free name and free
/// addresses, indexed under its own tenant, to a store whose indexes agree
/// with the records gives a store whose indexes agree with the records.
pub proof fn created_is_indexed(d: Directory, record: PrincipalModel, tenant: Option<u32>, id: u32)
    requires
        indexed(d),
        record.tenant == tenant,
        !d.entries.contains_key(Key::Principal(id)),
        !d.entries.contains_key(Key::NameToId(record.name)),
        forall|j: int|
            0 <= j < record.emails.len() ==> !d.entries.contains_key(
                Key::EmailToId(#[trigger] record.emails[j]),
            ),
    ensures
        indexed(created(d, record, tenant, id)),
        created(d, record, tenant, id).record(id) == Some(record.with_id(id)),
        created(d, record, tenant, id).info(record.name) == Some(
            PrincipalInfo { id, typ: record.typ, tenant },
        ),
        forall|j: int|
            0 <= j < record.emails.len() ==> created(d, record, tenant, id).email(
                #[trigger] record.emails[j],
            ) == Some(PrincipalInfo { id, typ: record.typ, tenant: None }),
{
    let after = created(d, record, tenant, id);
    let keys = email_keys(record.emails, 0);
    assert forall|email: Seq<char>| keys.contains(Key::EmailToId(email)) <==> record.emails.contains(
        email,
    ) by {
        if record.emails.contains(email) {
            let j = choose|j: int| 0 <= j < record.emails.len() && record.emails[j] == email;
            assert(0 <= j < record.emails.len() && Key::EmailToId(email) == Key::EmailToId(
                record.emails[j],
            ));
        }
    }
    assert forall|key: Key| keys.contains(key) implies key is EmailToId by {}
    assert forall|email: Seq<char>| record.emails.contains(email) implies !d.entries.contains_key(
        Key::EmailToId(email),
    ) by {
        let j = choose|j: int| 0 <= j < record.emails.len() && record.emails[j] == email;
        assert(!d.entries.contains_key(Key::EmailToId(record.emails[j])));
    }
    assert forall|other: u32| #[trigger] after.record(other) == (if other == id {
        Some(record.with_id(id))
    } else {
        d.record(other)
    }) by {}
    assert forall|name: Seq<char>| #[trigger] after.info(name) == (if name == record.name {
        Some(PrincipalInfo { id, typ: record.typ, tenant })
    } else {
        d.info(name)
    }) by {}
    assert forall|email: Seq<char>| #[trigger] after.email(email) == (if record.emails.contains(
        email,
    ) {
        Some(PrincipalInfo { id, typ: record.typ, tenant: None })
    } else {
        d.email(email)
    }) by {}
    assert forall|name: Seq<char>| #[trigger] name_leads(after, name) by {
        if name != record.name {
            assert(name_leads(d, name));
        }
    }
    assert forall|other: u32| #[trigger] record_named(after, other) by {
        if other != id {
            assert(record_named(d, other));
        }
    }
    assert forall|email: Seq<char>| #[trigger] email_leads(after, email) by {
        if !record.emails.contains(email) {
            assert(email_leads(d, email));
        }
    }
    assert forall|other: u32, email: Seq<char>| #[trigger] email_filed(after, other, email) by {
        if other != id {
            assert(email_filed(d, other, email));
        }
    }
    assert forall|j: int| 0 <= j < record.emails.len() implies after.email(
        #[trigger] record.emails[j],
    ) == Some(PrincipalInfo { id, typ: record.typ, tenant: None }) by {
        assert(record.emails.contains(record.emails[j]));
    }
}

/// A principal that has been created is found under its name in lower
/// case and under each of its addresses in lower case, and nowhere else:
/// the store accepts the batch of the creation under any fresh identifier,
/// and the indexes of the store agree with the records afterwards as they
/// did before.
pub proof fn created_principal_is_indexed(
    d: Directory,
    known: Known,
    p: PrincipalSetModel,
    tenant: Option<u32>,
    id: u32,
)
    requires
        indexed(d),
        reflects(known, d),
        !d.entries.contains_key(Key::Principal(id)),
        create_step(known, p, tenant) is Done,
    ensures
        d.commit(create_step(known, p, tenant)->Done_0, id) matches Some(after) && indexed(after)
            && (after.info(lowercase(p.name)) matches Some(info) && info.id == id && info.typ
            == p.typ) && (after.record(id) matches Some(record) && record.id == id && record.name
            == lowercase(p.name) && record.emails == lowered(p.emails)) && (forall|j: int|
            0 <= j < p.emails.len() ==> (after.email(
                #[trigger] lowered(p.emails)[j],
            ) matches Some(info) && info.id == id)),
{
    let name = lowercase(p.name);
    let valid = name_domain_step(known, name, tenant)->Done_0;
    assert(known.info(name) == Some(None::<PrincipalInfo>));
    assert(!d.entries.contains_key(Key::NameToId(name)));
    let edges = new_edges_step(known, p, tenant)->Done_0;
    let enabled = permissions_step(known, PrincipalField::EnabledPermissions, p.enabled_permissions)->Done_0;
    let disabled = permissions_step(
        known,
        PrincipalField::DisabledPermissions,
        p.disabled_permissions,
    )->Done_0;
    let owner = new_tenant_step(known, p.tenant, tenant)->Done_0;
    let record = new_record(p, name, owner, enabled, disabled);
    assert(create_step(known, p, tenant)->Done_0 == new_batch(record, owner, edges.0, edges.1));
    new_emails_are_free(known, tenant, lowered(p.emails), 0, valid);
    assert forall|j: int| 0 <= j < record.emails.len() implies !d.entries.contains_key(
        Key::EmailToId(#[trigger] record.emails[j]),
    ) by {
        assert(known.rcpt(record.emails[j]) == Some(false));
    }
    created_is_indexed(d, record, owner, id);
    create_commit(d, record, owner, edges.0, edges.1, id);
    let after = d.commit(new_batch(record, owner, edges.0, edges.1), id)->0;
    indexed_whatever_the_edges(created(d, record, owner, id), after);
    views_agree(created(d, record, owner, id), after);
    assert(after.info(name) == created(d, record, owner, id).info(name));
    assert(after.record(id) == created(d, record, owner, id).record(id));
    assert forall|j: int| 0 <= j < p.emails.len() implies (after.email(
        #[trigger] lowered(p.emails)[j],
    ) matches Some(info) && info.id == id) by {
        assert(after.email(lowered(p.emails)[j]) == created(d, record, owner, id).email(
            record.emails[j],
        ));
    }
}

/// Claiming a free name for a new principal keeps the indexes in
/// agreement with the records.
pub proof fn claimed_principal_is_indexed(d: Directory, name: Seq<char>, typ: Type, id: u32)
    requires
        indexed(d),
        !d.entries.contains_key(Key::Principal(id)),
        !d.entries.contains_key(Key::NameToId(name)),
    ensures
        indexed(claimed(d, name, typ, id)),
{
    let record = PrincipalModel::bare(typ, name);
    created_is_indexed(d, record, None, id);
    assert(email_keys(record.emails, 0) =~= Set::<Key>::empty());
    assert(created(d, record, None, id).entries =~= claimed(d, name, typ, id).entries);
}

} // verus!
