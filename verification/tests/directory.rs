use std::collections::{BTreeMap, BTreeSet};

use directory::batch::{AssertValue, Batch, BatchValue, Operation};
use directory::delete::Deletion;
use directory::error::{DirectoryError, StoreError};
use directory::keys::{DirectoryClass, MaybeDynamicId};
use directory::principal::{
    HashedPrincipal, Principal, PrincipalSet, PrincipalUpdate, PrincipalValue, QueryBy, Quota,
};
use directory::snapshot::{Answer, Entry, Outcome, Query, Snapshot};
use directory::types::{
    MemberOf, PrincipalField, PrincipalInfo, Type, ROLE_ADMIN, ROLE_TENANT_ADMIN, ROLE_USER,
};
use directory::upsert::{retry_or_return, Attempt, Verdict};

/// A store held in memory, with the semantics that the engine relies on:
/// point reads, ascending scans, and atomic batches with assertions.
#[derive(Default)]
struct Store {
    names: BTreeMap<String, PrincipalInfo>,
    emails: BTreeMap<String, PrincipalInfo>,
    records: BTreeMap<u32, Principal>,
    versions: BTreeMap<u32, u64>,
    member_of: BTreeMap<(u32, u32), Vec<u8>>,
    members: BTreeSet<(u32, u32)>,
    quotas: BTreeMap<u32, i64>,
    next_id: u32,
    writes: u64,
}

fn id_of(id: &MaybeDynamicId) -> u32 {
    match id {
        MaybeDynamicId::Static(id) => *id,
        MaybeDynamicId::Dynamic(_) => panic!("unresolved identifier"),
    }
}

impl Store {
    fn answer(&self, query: &Query) -> Answer {
        match query {
            Query::Info(name) => Answer::Info(self.names.get(name).copied()),
            Query::Rcpt(email) => Answer::Flag(self.emails.contains_key(email)),
            Query::LocalDomain(domain) => Answer::Flag(
                self.names.get(domain).map_or(false, |info| info.typ == Type::Domain),
            ),
            Query::Permission(name) => Answer::Permission(match name.as_str() {
                "authenticate" => Some(1),
                "email-send" => Some(2),
                "email-receive" => Some(3),
                _ => None,
            }),
            Query::Record(id) => Answer::Record(self.records.get(id).map(|p| HashedPrincipal {
                hash: self.versions[id],
                inner: p.clone(),
            })),
            Query::UsedQuota(id) => Answer::Counter(self.quotas.get(id).copied().unwrap_or(0)),
            Query::MemberOf(id) => Answer::Entries(
                self.member_of
                    .range((*id, 0)..=(*id, u32::MAX))
                    .map(|((a, b), value)| {
                        Entry::new(
                            DirectoryClass::MemberOf {
                                principal_id: MaybeDynamicId::Static(*a),
                                member_of: MaybeDynamicId::Static(*b),
                            }
                            .serialize(0),
                            value.clone(),
                        )
                    })
                    .collect(),
            ),
            Query::Members(id) => Answer::Entries(
                self.members
                    .range((*id, 0)..=(*id, u32::MAX))
                    .map(|(a, b)| {
                        Entry::new(
                            DirectoryClass::Members {
                                principal_id: MaybeDynamicId::Static(*a),
                                has_member: MaybeDynamicId::Static(*b),
                            }
                            .serialize(0),
                            Vec::new(),
                        )
                    })
                    .collect(),
            ),
            Query::Names => Answer::Entries(
                self.names
                    .iter()
                    .map(|(name, info)| {
                        Entry::new(
                            DirectoryClass::NameToId(name.clone()).serialize(0),
                            info.serialize(),
                        )
                    })
                    .collect(),
            ),
        }
    }

    fn holds(&self, class: &DirectoryClass, expected: &AssertValue) -> bool {
        match (class, expected) {
            (DirectoryClass::NameToId(name), AssertValue::Absent) => !self.names.contains_key(name),
            (DirectoryClass::Principal(id), AssertValue::Unchanged(hashed)) => {
                self.versions.get(&id_of(id)) == Some(&hashed.hash)
            }
            _ => panic!("an assertion that the engine never makes"),
        }
    }

    fn write(&mut self, batch: &Batch) -> Result<u32, StoreError> {
        let id = self.next_id;
        let batch = batch.resolve(id);
        for op in &batch.ops {
            if let Operation::AssertValue { class, assert_value } = op {
                if !self.holds(class, assert_value) {
                    return Err(StoreError::AssertionFailure);
                }
            }
        }
        let mut created = false;
        for op in batch.ops {
            match op {
                Operation::CreateDocument => created = true,
                Operation::AccountId(_) | Operation::Collection(_) => {}
                Operation::AssertValue { .. } => {}
                Operation::Put { class, value } => match (class, value) {
                    (DirectoryClass::NameToId(name), BatchValue::Info(info)) => {
                        self.names.insert(name, info);
                    }
                    (DirectoryClass::EmailToId(email), BatchValue::Info(info)) => {
                        self.emails.insert(email, info);
                    }
                    (DirectoryClass::Principal(id), BatchValue::Record(record)) => {
                        self.writes += 1;
                        self.versions.insert(id_of(&id), self.writes);
                        self.records.insert(id_of(&id), record);
                    }
                    (DirectoryClass::MemberOf { principal_id, member_of }, BatchValue::Bytes(v)) => {
                        self.member_of.insert((id_of(&principal_id), id_of(&member_of)), v);
                    }
                    (DirectoryClass::Members { principal_id, has_member }, BatchValue::Bytes(_)) => {
                        self.members.insert((id_of(&principal_id), id_of(&has_member)));
                    }
                    other => panic!("an unexpected write: {:?}", other),
                },
                Operation::Clear { class } => match class {
                    DirectoryClass::NameToId(name) => {
                        self.names.remove(&name);
                    }
                    DirectoryClass::EmailToId(email) => {
                        self.emails.remove(&email);
                    }
                    DirectoryClass::Principal(id) => {
                        self.records.remove(&id_of(&id));
                        self.versions.remove(&id_of(&id));
                    }
                    DirectoryClass::MemberOf { principal_id, member_of } => {
                        self.member_of.remove(&(id_of(&principal_id), id_of(&member_of)));
                    }
                    DirectoryClass::Members { principal_id, has_member } => {
                        self.members.remove(&(id_of(&principal_id), id_of(&has_member)));
                    }
                    DirectoryClass::UsedQuota(id) => {
                        self.quotas.remove(&id);
                    }
                },
                Operation::Add { class, by } => match class {
                    DirectoryClass::UsedQuota(id) => {
                        *self.quotas.entry(id).or_insert(0) += by;
                    }
                    other => panic!("an unexpected counter: {:?}", other),
                },
            }
        }
        if created {
            self.next_id += 1;
        }
        Ok(id)
    }

    /// Runs an operation to its end, answering each query from the store.
    fn run<T>(&self, op: impl Fn(&Snapshot) -> Outcome<T>) -> Result<T, DirectoryError> {
        let mut snapshot = Snapshot::new();
        loop {
            match op(&snapshot) {
                Outcome::Ask(query) => {
                    let answer = self.answer(&query);
                    assert!(snapshot.tell(query, answer), "a query was asked twice");
                }
                Outcome::Done(result) => return Ok(result),
                Outcome::Fail(e) => return Err(e),
            }
        }
    }

    fn create(&mut self, set: &PrincipalSet, tenant: Option<u32>) -> Result<u32, DirectoryError> {
        let batch = self.run(|s| s.create_principal(set, tenant))?;
        self.write(&batch).map_err(DirectoryError::Store)
    }

    fn update(
        &mut self,
        by: QueryBy,
        changes: Vec<PrincipalUpdate>,
        tenant: Option<u32>,
    ) -> Result<(), DirectoryError> {
        let batch = self.run(|s| s.update_principal(by, &changes, tenant))?;
        self.write(&batch).map(|_| ()).map_err(DirectoryError::Store)
    }

    fn delete(&mut self, by: QueryBy) -> Result<u32, DirectoryError> {
        let Deletion { principal_id, batch } = self.run(|s| s.delete_principal(by))?;
        self.write(&batch).map_err(DirectoryError::Store)?;
        Ok(principal_id)
    }

    fn get_or_create(&mut self, name: &str, typ: Type) -> Result<u32, DirectoryError> {
        let mut try_count = 0;
        loop {
            match self.run(|s| s.get_or_create_principal_id(name, typ))? {
                Attempt::Found(id) => return Ok(id),
                Attempt::Create(batch) => match retry_or_return(self.write(&batch), try_count) {
                    Verdict::Return(result) => return result,
                    Verdict::Retry(n) => try_count = n,
                },
            }
        }
    }

    fn id(&self, name: &str) -> Option<u32> {
        self.run(|s| s.get_principal_id(name)).unwrap()
    }

    fn member_of(&self, id: u32) -> Vec<MemberOf> {
        self.run(|s| s.get_member_of(id)).unwrap()
    }

    fn members_of(&self, id: u32) -> Vec<u32> {
        self.run(|s| s.get_members(id)).unwrap()
    }

    fn list(&self, filter: Option<&str>, typ: Option<Type>, tenant: Option<u32>) -> Vec<String> {
        self.run(|s| s.list_principals(filter, typ, tenant)).unwrap()
    }

    fn count(&self, filter: Option<&str>, typ: Option<Type>, tenant: Option<u32>) -> u64 {
        self.run(|s| s.count_principals(filter, typ, tenant)).unwrap()
    }

    /// Every principal's name and addresses are indexed under its own
    /// identifier and nothing else is; every edge has its opposite.
    fn check_invariants(&self) {
        for (id, p) in &self.records {
            assert_eq!(self.names.get(&p.name).map(|i| i.id), Some(*id), "name of {}", id);
            for email in &p.emails {
                assert_eq!(self.emails.get(email).map(|i| i.id), Some(*id), "email {}", email);
            }
        }
        for (name, info) in &self.names {
            assert_eq!(self.records.get(&info.id).map(|p| &p.name), Some(name));
        }
        for (email, info) in &self.emails {
            assert!(self.records[&info.id].emails.contains(email));
        }
        for (a, b) in self.member_of.keys() {
            assert!(self.members.contains(&(*b, *a)), "reverse of {} -> {}", a, b);
        }
        for (b, a) in &self.members {
            assert!(self.member_of.contains_key(&(*a, *b)), "forward of {} -> {}", a, b);
        }
        for (name, info) in &self.names {
            assert_eq!(self.records[&info.id].typ, info.typ, "kind of {}", name);
            assert_eq!(self.records[&info.id].tenant, info.tenant, "tenant of {}", name);
        }
        for ((a, b), value) in &self.member_of {
            let group = match self.records.get(b) {
                Some(record) => record.typ,
                None => {
                    assert!([ROLE_ADMIN, ROLE_TENANT_ADMIN, ROLE_USER].contains(b));
                    Type::Role
                }
            };
            let member = self.records[a].typ;
            assert_eq!(value, &vec![group.to_u8()], "kind on {} -> {}", a, b);
            assert!(
                matches!(group, Type::Group | Type::List | Type::Role)
                    || group.allows_member(member),
                "{:?} in {:?}",
                member,
                group
            );
        }
    }
}

fn request(typ: Type, name: &str) -> PrincipalSet {
    PrincipalSet::new(typ, name.to_string())
}

fn with_emails(mut set: PrincipalSet, emails: &[&str]) -> PrincipalSet {
    set.emails = emails.iter().map(|e| e.to_string()).collect();
    set
}

fn text(value: &str) -> PrincipalValue {
    PrincipalValue::String(value.to_string())
}

fn texts(values: &[&str]) -> PrincipalValue {
    PrincipalValue::StringList(values.iter().map(|v| v.to_string()).collect())
}

/// A store with the domain `example.com` and the individual
/// `alice@example.com`, whose identifier is returned.
fn with_alice() -> (Store, u32) {
    let mut store = Store::default();
    store.create(&request(Type::Domain, "example.com"), None).unwrap();
    let alice = store
        .create(
            &with_emails(request(Type::Individual, "alice@example.com"), &["alice@example.com"]),
            None,
        )
        .unwrap();
    (store, alice)
}

/// A store with the tenant `t1`, its domain `t1.org` and its individual
/// `alice@t1.org`; the identifiers of the tenant and of alice are returned.
fn with_tenant() -> (Store, u32, u32) {
    let mut store = Store::default();
    let tenant = store.create(&request(Type::Tenant, "t1"), None).unwrap();
    let mut domain = request(Type::Domain, "t1.org");
    domain.tenant = Some("t1".to_string());
    store.create(&domain, None).unwrap();
    let alice = store
        .create(
            &with_emails(request(Type::Individual, "alice@t1.org"), &["alice@t1.org"]),
            Some(tenant),
        )
        .unwrap();
    (store, tenant, alice)
}

#[test]
fn create_individual() {
    let (store, alice) = with_alice();
    assert_eq!(store.id("alice@example.com"), Some(alice));
    assert_eq!(store.emails["alice@example.com"].id, alice);
    assert_eq!(store.records[&alice].id, alice);
    assert_eq!(store.records[&alice].typ, Type::Individual);
    assert_eq!(
        store.names["alice@example.com"],
        PrincipalInfo { id: alice, typ: Type::Individual, tenant: None }
    );
    store.check_invariants();
}

#[test]
fn duplicate_email_rejected() {
    let (mut store, _) = with_alice();
    let bob = with_emails(request(Type::Individual, "bob@example.com"), &["alice@example.com"]);
    assert_eq!(
        store.create(&bob, None),
        Err(DirectoryError::AlreadyExists(
            PrincipalField::Emails,
            "alice@example.com".to_string()
        ))
    );
    assert_eq!(store.id("bob@example.com"), None);
    store.check_invariants();
}

#[test]
fn add_to_group() {
    let (mut store, alice) = with_alice();
    let ops = store.create(&request(Type::Group, "ops"), None).unwrap();
    store
        .update(
            QueryBy::Id(alice),
            vec![PrincipalUpdate::add_item(PrincipalField::MemberOf, text("ops"))],
            None,
        )
        .unwrap();
    assert_eq!(store.member_of(alice), vec![MemberOf { principal_id: ops, typ: Type::Group }]);
    assert_eq!(store.members_of(ops), vec![alice]);
    store.check_invariants();
}

#[test]
fn rename_with_tenant_constraint() {
    let (mut store, tenant, alice) = with_tenant();
    store.create(&request(Type::Domain, "other.com"), None).unwrap();
    let names = store.names.clone();
    let emails = store.emails.clone();
    let result = store.update(
        QueryBy::Id(alice),
        vec![PrincipalUpdate::set(PrincipalField::Name, text("alice@other.com"))],
        Some(tenant),
    );
    assert_eq!(
        result,
        Err(DirectoryError::Error(
            "Invalid principal name".to_string(),
            Some("Principal name must include a valid domain".to_string())
        ))
    );
    assert_eq!(store.names, names);
    assert_eq!(store.emails, emails);
    store.check_invariants();
}

#[test]
fn rename_within_tenant_domain() {
    let (mut store, tenant, alice) = with_tenant();
    store
        .update(
            QueryBy::Name("alice@t1.org"),
            vec![PrincipalUpdate::set(PrincipalField::Name, text("Alicia@T1.org"))],
            Some(tenant),
        )
        .unwrap();
    assert_eq!(store.id("alice@t1.org"), None);
    assert_eq!(store.id("alicia@t1.org"), Some(alice));
    assert_eq!(store.names["alicia@t1.org"].tenant, Some(tenant));
    store.check_invariants();
}

#[test]
fn delete_tenant_with_members_fails() {
    let (mut store, tenant, _) = with_tenant();
    assert_eq!(
        store.delete(QueryBy::Id(tenant)),
        Err(DirectoryError::Error(
            "Tenant has members".to_string(),
            Some(
                "Tenant must have no members to be deleted: Found: alice@t1.org, t1.org"
                    .to_string()
            )
        ))
    );
    assert_eq!(store.id("t1"), Some(tenant));
    assert!(store.records.contains_key(&tenant));
    store.check_invariants();
}

#[test]
fn delete_tenant_names_five_members_and_counts_the_rest() {
    let (mut store, tenant, _) = with_tenant();
    for name in ["b@t1.org", "c@t1.org", "d@t1.org", "e@t1.org", "f@t1.org", "g@t1.org"] {
        store.create(&request(Type::Individual, name), Some(tenant)).unwrap();
    }
    assert_eq!(
        store.delete(QueryBy::Name("t1")),
        Err(DirectoryError::Error(
            "Tenant has members".to_string(),
            Some(
                "Tenant must have no members to be deleted: Found: \
                 alice@t1.org, b@t1.org, c@t1.org, d@t1.org, e@t1.org and 3 others"
                    .to_string()
            )
        ))
    );
}

#[test]
fn optimistic_lock_retry() {
    let (mut store, alice) = with_alice();
    let x = vec![PrincipalUpdate::set(PrincipalField::Description, text("x"))];
    let y = vec![PrincipalUpdate::set(PrincipalField::Description, text("y"))];
    let first = store.run(|s| s.update_principal(QueryBy::Id(alice), &x, None)).unwrap();
    let second = store.run(|s| s.update_principal(QueryBy::Id(alice), &y, None)).unwrap();
    assert_eq!(store.write(&second), Ok(store.next_id));
    assert_eq!(store.write(&first), Err(StoreError::AssertionFailure));
    assert_eq!(store.records[&alice].description, Some("y".to_string()));
    store.check_invariants();
}

#[test]
fn racing_get_or_create_agree_on_one_principal() {
    let mut store = Store::default();
    let first = store.run(|s| s.get_or_create_principal_id("Carol", Type::Individual)).unwrap();
    let second = store.run(|s| s.get_or_create_principal_id("carol", Type::Individual)).unwrap();
    let (first, second) = match (first, second) {
        (Attempt::Create(a), Attempt::Create(b)) => (a, b),
        other => panic!("both attempts must create: {:?}", other),
    };
    let winner = store.write(&first).unwrap();
    let lost = store.write(&second);
    assert_eq!(lost, Err(StoreError::AssertionFailure));
    assert_eq!(retry_or_return(lost, 0), Verdict::Retry(1));
    assert_eq!(store.get_or_create("CAROL", Type::Individual), Ok(winner));
    assert_eq!(store.records.len(), 1);
    assert_eq!(store.records[&winner].name, "carol");
    assert_eq!(store.names.len(), 1);
    store.check_invariants();
}

#[test]
fn get_or_create_is_idempotent() {
    let mut store = Store::default();
    let id = store.get_or_create("Dave@Example.com", Type::Individual).unwrap();
    assert_eq!(store.get_or_create("dave@example.com", Type::Group), Ok(id));
    assert_eq!(store.records[&id].typ, Type::Individual);
    assert_eq!(
        store.names["dave@example.com"],
        PrincipalInfo { id, typ: Type::Individual, tenant: None }
    );
    store.check_invariants();
}

#[test]
fn retries_end_after_the_third() {
    assert_eq!(retry_or_return(Ok(7), 3), Verdict::Return(Ok(7)));
    assert_eq!(retry_or_return(Err(StoreError::AssertionFailure), 2), Verdict::Retry(3));
    assert_eq!(
        retry_or_return(Err(StoreError::AssertionFailure), 3),
        Verdict::Return(Err(DirectoryError::Store(StoreError::AssertionFailure)))
    );
    assert_eq!(
        retry_or_return(Err(StoreError::Failed("down".to_string())), 0),
        Verdict::Return(Err(DirectoryError::Store(StoreError::Failed("down".to_string()))))
    );
}

#[test]
fn create_requires_a_name() {
    let mut store = Store::default();
    assert_eq!(
        store.create(&request(Type::Individual, ""), None),
        Err(DirectoryError::MissingParameter(PrincipalField::Name))
    );
}

#[test]
fn create_lowercases_name_and_emails() {
    let mut store = Store::default();
    store.create(&request(Type::Domain, "example.com"), None).unwrap();
    let id = store
        .create(
            &with_emails(request(Type::Individual, "Bob@Example.COM"), &["BOB@example.com"]),
            None,
        )
        .unwrap();
    assert_eq!(store.records[&id].name, "bob@example.com");
    assert_eq!(store.records[&id].emails, vec!["bob@example.com".to_string()]);
    assert_eq!(store.id("bob@example.com"), Some(id));
    store.check_invariants();
}

#[test]
fn create_rejects_a_taken_name() {
    let (mut store, _) = with_alice();
    assert_eq!(
        store.create(&request(Type::Group, "ALICE@example.com"), None),
        Err(DirectoryError::AlreadyExists(
            PrincipalField::Name,
            "alice@example.com".to_string()
        ))
    );
}

#[test]
fn create_rejects_an_unknown_email_domain() {
    let (mut store, _) = with_alice();
    let bob = with_emails(request(Type::Individual, "bob"), &["bob@nowhere.org"]);
    assert_eq!(store.create(&bob, None), Err(DirectoryError::NotFound("nowhere.org".to_string())));
}

#[test]
fn create_under_tenant_needs_a_domain_of_the_tenant() {
    let (mut store, tenant, _) = with_tenant();
    store.create(&request(Type::Domain, "other.com"), None).unwrap();
    let invalid = Err(DirectoryError::Error(
        "Invalid principal name".to_string(),
        Some("Principal name must include a valid domain".to_string()),
    ));
    assert_eq!(store.create(&request(Type::Individual, "bob"), Some(tenant)), invalid);
    assert_eq!(store.create(&request(Type::Individual, "bob@other.com"), Some(tenant)), invalid);
    let bob = store
        .create(
            &with_emails(request(Type::Individual, "bob@t1.org"), &["bob@t1.org", "b@t1.org"]),
            Some(tenant),
        )
        .unwrap();
    assert_eq!(store.records[&bob].tenant, Some(tenant));
    assert_eq!(store.names["bob@t1.org"].tenant, Some(tenant));
    assert_eq!(store.emails["b@t1.org"].tenant, None);
    store.check_invariants();
}

#[test]
fn create_with_named_tenant() {
    let (mut store, tenant, _) = with_tenant();
    let mut bob = request(Type::Individual, "bob");
    bob.tenant = Some("t1".to_string());
    let id = store.create(&bob, None).unwrap();
    assert_eq!(store.names["bob"].tenant, Some(tenant));
    assert_eq!(store.records[&id].tenant, Some(tenant));
    let mut eve = request(Type::Individual, "eve");
    eve.tenant = Some("t1.org".to_string());
    assert_eq!(store.create(&eve, None), Err(DirectoryError::NotFound("t1.org".to_string())));
}

#[test]
fn create_with_edges() {
    let (mut store, alice) = with_alice();
    let list = store.create(&request(Type::List, "all"), None).unwrap();
    let role = store.create(&request(Type::Role, "auditor"), None).unwrap();
    let mut ops = request(Type::Group, "ops");
    ops.members = vec!["alice@example.com".to_string()];
    ops.lists = vec!["all".to_string()];
    ops.roles = vec!["auditor".to_string(), "admin".to_string(), "user".to_string()];
    let ops = store.create(&ops, None).unwrap();
    assert_eq!(
        store.member_of(ops),
        vec![
            MemberOf { principal_id: list, typ: Type::List },
            MemberOf { principal_id: role, typ: Type::Role },
            MemberOf { principal_id: ROLE_USER, typ: Type::Role },
            MemberOf { principal_id: ROLE_ADMIN, typ: Type::Role },
        ]
    );
    assert_eq!(store.members_of(ops), vec![alice]);
    assert_eq!(store.member_of(alice), vec![MemberOf { principal_id: ops, typ: Type::Group }]);
    assert_eq!(store.members_of(list), vec![ops]);
    store.check_invariants();
}

#[test]
fn create_refuses_edges_of_the_wrong_kind() {
    let (mut store, _) = with_alice();
    store.create(&request(Type::Group, "ops"), None).unwrap();
    let mut bob = request(Type::Individual, "bob");
    bob.lists = vec!["ops".to_string()];
    assert_eq!(store.create(&bob, None), Err(DirectoryError::NotFound("ops".to_string())));
    let mut role = request(Type::Role, "auditor");
    role.members = vec!["alice@example.com".to_string()];
    assert_eq!(
        store.create(&role, None),
        Err(DirectoryError::NotFound("alice@example.com".to_string()))
    );
}

#[test]
fn create_maps_permissions() {
    let mut store = Store::default();
    let mut role = request(Type::Role, "sender");
    role.enabled_permissions =
        vec!["email-send".to_string(), "authenticate".to_string(), "email-send".to_string()];
    let id = store.create(&role, None).unwrap();
    assert_eq!(store.records[&id].enabled_permissions, vec![2, 1]);
    let mut bad = request(Type::Role, "other");
    bad.disabled_permissions = vec!["fly".to_string()];
    assert_eq!(
        store.create(&bad, None),
        Err(DirectoryError::Error(
            "Invalid disabledPermissions value".to_string(),
            Some("Permission \"fly\" is invalid".to_string())
        ))
    );
}

#[test]
fn update_unknown_principal() {
    let mut store = Store::default();
    assert_eq!(
        store.update(QueryBy::Name("nobody"), vec![], None),
        Err(DirectoryError::NotFound("nobody".to_string()))
    );
    assert_eq!(
        store.update(QueryBy::Id(42), vec![], None),
        Err(DirectoryError::NotFound("42".to_string()))
    );
}

#[test]
fn update_rejects_unknown_combinations() {
    let (mut store, alice) = with_alice();
    for change in [
        PrincipalUpdate::add_item(PrincipalField::Name, text("x")),
        PrincipalUpdate::set(PrincipalField::Name, texts(&["x"])),
        PrincipalUpdate::set(PrincipalField::Type, text("group")),
        PrincipalUpdate::set(PrincipalField::Quota, PrincipalValue::IntegerList(vec![1])),
        PrincipalUpdate::set(PrincipalField::Quota, text("10")),
        PrincipalUpdate::remove_item(PrincipalField::Description, text("x")),
        PrincipalUpdate::set(PrincipalField::Emails, text("a@example.com")),
    ] {
        assert_eq!(
            store.update(QueryBy::Id(alice), vec![change], None),
            Err(DirectoryError::NotSupported(None))
        );
    }
    store.check_invariants();
}

#[test]
fn update_tenant_is_refused_under_a_scope() {
    let (mut store, tenant, alice) = with_tenant();
    assert_eq!(
        store.update(
            QueryBy::Id(alice),
            vec![PrincipalUpdate::set(PrincipalField::Tenant, text(""))],
            Some(tenant)
        ),
        Err(DirectoryError::NotSupported(None))
    );
}

#[test]
fn rename_to_the_own_name_changes_nothing() {
    let (mut store, alice) = with_alice();
    let names = store.names.clone();
    let record = store.records[&alice].clone();
    store
        .update(
            QueryBy::Id(alice),
            vec![PrincipalUpdate::set(PrincipalField::Name, text("Alice@Example.com"))],
            None,
        )
        .unwrap();
    assert_eq!(store.names, names);
    assert_eq!(store.records[&alice], record);
    store.check_invariants();
}

#[test]
fn rename_moves_the_index_entry() {
    let (mut store, alice) = with_alice();
    store
        .update(
            QueryBy::Id(alice),
            vec![PrincipalUpdate::set(PrincipalField::Name, text("alicia"))],
            None,
        )
        .unwrap();
    assert_eq!(store.id("alice@example.com"), None);
    assert_eq!(store.id("alicia"), Some(alice));
    assert_eq!(store.records[&alice].name, "alicia");
    store.create(&request(Type::Group, "ops"), None).unwrap();
    assert_eq!(
        store.update(
            QueryBy::Id(alice),
            vec![PrincipalUpdate::set(PrincipalField::Name, text("OPS"))],
            None
        ),
        Err(DirectoryError::AlreadyExists(PrincipalField::Name, "ops".to_string()))
    );
    store.check_invariants();
}

#[test]
fn set_tenant_moves_the_used_quota() {
    let (mut store, alice) = with_alice();
    let t1 = store.create(&request(Type::Tenant, "t1"), None).unwrap();
    let t2 = store.create(&request(Type::Tenant, "t2"), None).unwrap();
    store.quotas.insert(alice, 100);
    let to = |name: &str| vec![PrincipalUpdate::set(PrincipalField::Tenant, text(name))];
    store.update(QueryBy::Id(alice), to("t1"), None).unwrap();
    assert_eq!(store.records[&alice].tenant, Some(t1));
    assert_eq!(store.names["alice@example.com"].tenant, Some(t1));
    assert_eq!(store.quotas.get(&t1), Some(&100));
    store.update(QueryBy::Id(alice), to("t2"), None).unwrap();
    assert_eq!(store.records[&alice].tenant, Some(t2));
    assert_eq!(store.quotas.get(&t1), Some(&0));
    assert_eq!(store.quotas.get(&t2), Some(&100));
    store.update(QueryBy::Id(alice), to("t2"), None).unwrap();
    assert_eq!(store.quotas.get(&t2), Some(&100));
    store.update(QueryBy::Id(alice), to(""), None).unwrap();
    assert_eq!(store.records[&alice].tenant, None);
    assert_eq!(store.names["alice@example.com"].tenant, None);
    assert_eq!(store.quotas.get(&t2), Some(&0));
    assert_eq!(
        store.update(QueryBy::Id(alice), to("example.com"), None),
        Err(DirectoryError::Error(
            "Not a tenant".to_string(),
            Some("Principal \"example.com\" is not a tenant".to_string())
        ))
    );
    assert_eq!(
        store.update(QueryBy::Id(alice), to("t3"), None),
        Err(DirectoryError::NotFound("t3".to_string()))
    );
    store.check_invariants();
}

#[test]
fn secrets_are_set_added_and_removed() {
    let (mut store, alice) = with_alice();
    let run = |store: &mut Store, change: PrincipalUpdate| {
        store.update(QueryBy::Id(alice), vec![change], None).unwrap();
        store.records[&alice].secrets.clone()
    };
    let set = |v| PrincipalUpdate::set(PrincipalField::Secrets, v);
    let add = |v: &str| PrincipalUpdate::add_item(PrincipalField::Secrets, text(v));
    let remove = |v: &str| PrincipalUpdate::remove_item(PrincipalField::Secrets, text(v));
    assert_eq!(run(&mut store, set(text("hash1"))), vec!["hash1"]);
    assert_eq!(run(&mut store, set(texts(&["hash1", "hash2"]))), vec!["hash1", "hash2"]);
    assert_eq!(run(&mut store, add("hash1")), vec!["hash1", "hash2"]);
    assert_eq!(
        run(&mut store, add("otpauth://totp/a")),
        vec!["otpauth://totp/a", "hash1", "hash2"]
    );
    assert_eq!(
        run(&mut store, add("$app$phone$xyz")),
        vec!["otpauth://totp/a", "hash1", "hash2", "$app$phone$xyz"]
    );
    assert_eq!(
        run(&mut store, remove("$app$phone")),
        vec!["otpauth://totp/a", "hash1", "hash2"]
    );
    assert_eq!(run(&mut store, remove("hash")), vec!["otpauth://totp/a", "hash1", "hash2"]);
    assert_eq!(run(&mut store, remove("hash2")), vec!["otpauth://totp/a", "hash1"]);
    assert_eq!(run(&mut store, add("hash3")), vec!["otpauth://totp/a", "hash1", "hash3"]);
    assert_eq!(run(&mut store, remove("")), vec!["otpauth://totp/a"]);
    assert_eq!(run(&mut store, remove("otpauth://")), Vec::<String>::new());
}

#[test]
fn description_and_quota() {
    let (mut store, alice) = with_alice();
    store
        .update(
            QueryBy::Id(alice),
            vec![
                PrincipalUpdate::set(PrincipalField::Description, text("Alice")),
                PrincipalUpdate::set(PrincipalField::Quota, PrincipalValue::Integer(1024)),
            ],
            None,
        )
        .unwrap();
    assert_eq!(store.records[&alice].description, Some("Alice".to_string()));
    assert_eq!(store.records[&alice].quota, Some(Quota::Scalar(1024)));
    store
        .update(
            QueryBy::Id(alice),
            vec![
                PrincipalUpdate::set(PrincipalField::Description, text("")),
                PrincipalUpdate::set(PrincipalField::Quota, text("")),
            ],
            None,
        )
        .unwrap();
    assert_eq!(store.records[&alice].description, None);
    assert_eq!(store.records[&alice].quota, None);
    let domain = store.id("example.com").unwrap();
    assert_eq!(
        store.update(
            QueryBy::Id(domain),
            vec![PrincipalUpdate::set(PrincipalField::Quota, PrincipalValue::Integer(1))],
            None
        ),
        Err(DirectoryError::NotSupported(None))
    );
}

#[test]
fn tenant_quota_list_is_bounded() {
    let mut store = Store::default();
    let tenant = store.create(&request(Type::Tenant, "t1"), None).unwrap();
    let quotas = |n: usize| {
        vec![PrincipalUpdate::set(PrincipalField::Quota, PrincipalValue::IntegerList(vec![5; n]))]
    };
    store.update(QueryBy::Id(tenant), quotas(7), None).unwrap();
    assert_eq!(store.records[&tenant].quota, Some(Quota::PerType(vec![5; 7])));
    assert_eq!(
        store.update(QueryBy::Id(tenant), quotas(8), None),
        Err(DirectoryError::NotSupported(None))
    );
}

#[test]
fn emails_are_set_added_and_removed() {
    let (mut store, alice) = with_alice();
    store
        .update(
            QueryBy::Id(alice),
            vec![PrincipalUpdate::set(
                PrincipalField::Emails,
                texts(&["A@example.com", "alice@example.com", "a@EXAMPLE.com"]),
            )],
            None,
        )
        .unwrap();
    assert_eq!(store.records[&alice].emails, vec!["a@example.com", "alice@example.com"]);
    assert_eq!(store.emails["a@example.com"].id, alice);
    store
        .update(
            QueryBy::Id(alice),
            vec![PrincipalUpdate::set(PrincipalField::Emails, texts(&["b@example.com"]))],
            None,
        )
        .unwrap();
    assert_eq!(store.records[&alice].emails, vec!["b@example.com"]);
    assert_eq!(store.emails.len(), 1);
    store
        .update(
            QueryBy::Id(alice),
            vec![
                PrincipalUpdate::add_item(PrincipalField::Emails, text("C@example.com")),
                PrincipalUpdate::add_item(PrincipalField::Emails, text("c@example.com")),
                PrincipalUpdate::remove_item(PrincipalField::Emails, text("B@example.com")),
                PrincipalUpdate::remove_item(PrincipalField::Emails, text("nobody@example.com")),
            ],
            None,
        )
        .unwrap();
    assert_eq!(store.records[&alice].emails, vec!["c@example.com"]);
    assert_eq!(store.emails.keys().collect::<Vec<_>>(), vec!["c@example.com"]);
    assert_eq!(
        store.update(
            QueryBy::Id(alice),
            vec![PrincipalUpdate::add_item(PrincipalField::Emails, text("c@elsewhere.org"))],
            None
        ),
        Err(DirectoryError::NotFound("elsewhere.org".to_string()))
    );
    let bob = store.create(&request(Type::Individual, "bob"), None).unwrap();
    assert_eq!(
        store.update(
            QueryBy::Id(bob),
            vec![PrincipalUpdate::set(PrincipalField::Emails, texts(&["c@example.com"]))],
            None
        ),
        Err(DirectoryError::AlreadyExists(PrincipalField::Emails, "c@example.com".to_string()))
    );
    store.check_invariants();
}

#[test]
fn member_of_is_set_added_and_removed() {
    let (mut store, alice) = with_alice();
    let ops = store.create(&request(Type::Group, "ops"), None).unwrap();
    let dev = store.create(&request(Type::Group, "dev"), None).unwrap();
    let list = store.create(&request(Type::List, "all"), None).unwrap();
    store
        .update(
            QueryBy::Id(alice),
            vec![PrincipalUpdate::set(PrincipalField::MemberOf, texts(&["ops", "dev"]))],
            None,
        )
        .unwrap();
    assert_eq!(store.members_of(ops), vec![alice]);
    assert_eq!(store.members_of(dev), vec![alice]);
    store
        .update(
            QueryBy::Id(alice),
            vec![
                PrincipalUpdate::add_item(PrincipalField::Lists, text("all")),
                PrincipalUpdate::add_item(PrincipalField::Lists, text("all")),
                PrincipalUpdate::add_item(PrincipalField::Roles, text("tenant-admin")),
                PrincipalUpdate::remove_item(PrincipalField::MemberOf, text("ops")),
                PrincipalUpdate::remove_item(PrincipalField::MemberOf, text("ops")),
            ],
            None,
        )
        .unwrap();
    assert_eq!(
        store.member_of(alice),
        vec![
            MemberOf { principal_id: dev, typ: Type::Group },
            MemberOf { principal_id: list, typ: Type::List },
            MemberOf { principal_id: ROLE_TENANT_ADMIN, typ: Type::Role },
        ]
    );
    assert_eq!(store.members_of(ops), Vec::<u32>::new());
    store
        .update(
            QueryBy::Id(alice),
            vec![PrincipalUpdate::remove_item(PrincipalField::Roles, text("tenant-admin"))],
            None,
        )
        .unwrap();
    assert_eq!(store.members_of(ROLE_TENANT_ADMIN), Vec::<u32>::new());
    store.create(&request(Type::List, "news"), None).unwrap();
    assert_eq!(
        store.update(
            QueryBy::Id(alice),
            vec![PrincipalUpdate::add_item(PrincipalField::MemberOf, text("news"))],
            None
        ),
        Err(DirectoryError::Error(
            "Invalid memberOf value".to_string(),
            Some("Principal \"news\" is not a group.".to_string())
        ))
    );
    assert_eq!(
        store.update(
            QueryBy::Id(alice),
            vec![PrincipalUpdate::add_item(PrincipalField::MemberOf, text("all"))],
            None
        ),
        Ok(())
    );
    assert_eq!(
        store.update(
            QueryBy::Id(alice),
            vec![PrincipalUpdate::add_item(PrincipalField::Roles, text("root"))],
            None
        ),
        Err(DirectoryError::NotFound("root".to_string()))
    );
    store.check_invariants();
}

#[test]
fn members_follow_the_table_of_kinds() {
    let (mut store, alice) = with_alice();
    let ops = store.create(&request(Type::Group, "ops"), None).unwrap();
    let room = store.create(&request(Type::Resource, "room"), None).unwrap();
    let site = store.create(&request(Type::Location, "site"), None).unwrap();
    store
        .update(
            QueryBy::Id(ops),
            vec![PrincipalUpdate::set(PrincipalField::Members, texts(&["alice@example.com"]))],
            None,
        )
        .unwrap();
    assert_eq!(store.member_of(alice), vec![MemberOf { principal_id: ops, typ: Type::Group }]);
    assert_eq!(
        store.update(
            QueryBy::Id(ops),
            vec![PrincipalUpdate::add_item(PrincipalField::Members, text("room"))],
            None
        ),
        Err(DirectoryError::Error(
            "Invalid members value".to_string(),
            Some("Principal \"room\" is not one of individual, group.".to_string())
        ))
    );
    assert_eq!(
        store.update(
            QueryBy::Id(alice),
            vec![PrincipalUpdate::add_item(PrincipalField::Members, text("ops"))],
            None
        ),
        Err(DirectoryError::Error(
            "Invalid members value".to_string(),
            Some("Principal \"ops\" is not one of .".to_string())
        ))
    );
    store
        .update(
            QueryBy::Id(site),
            vec![
                PrincipalUpdate::add_item(PrincipalField::Members, text("room")),
                PrincipalUpdate::add_item(PrincipalField::Members, text("ops")),
                PrincipalUpdate::remove_item(PrincipalField::Members, text("ops")),
                PrincipalUpdate::remove_item(PrincipalField::Members, text("nobody")),
            ],
            None,
        )
        .unwrap();
    assert_eq!(store.members_of(site), vec![room]);
    assert_eq!(store.member_of(room), vec![MemberOf { principal_id: site, typ: Type::Location }]);
    store
        .update(
            QueryBy::Id(ops),
            vec![PrincipalUpdate::set(PrincipalField::Members, texts(&[]))],
            None,
        )
        .unwrap();
    assert_eq!(store.members_of(ops), Vec::<u32>::new());
    assert_eq!(store.member_of(alice), Vec::<MemberOf>::new());
    store.check_invariants();
}

#[test]
fn membership_changes_do_not_lock_the_record() {
    let (mut store, alice) = with_alice();
    store.create(&request(Type::Group, "ops"), None).unwrap();
    let changes = vec![PrincipalUpdate::add_item(PrincipalField::MemberOf, text("ops"))];
    let batch = store.run(|s| s.update_principal(QueryBy::Id(alice), &changes, None)).unwrap();
    assert_eq!(batch.ops.len(), 2);
    assert!(batch.ops.iter().all(|op| matches!(op, Operation::Put { .. })));
    let changes = vec![PrincipalUpdate::set(PrincipalField::Description, text("x"))];
    let batch = store.run(|s| s.update_principal(QueryBy::Id(alice), &changes, None)).unwrap();
    assert_eq!(batch.ops.len(), 2);
    assert!(matches!(batch.ops[0], Operation::AssertValue { .. }));
    assert!(matches!(batch.ops[1], Operation::Put { .. }));
}

#[test]
fn tenant_scope_hides_other_principals() {
    let (mut store, tenant, alice) = with_tenant();
    store.create(&request(Type::Group, "global"), None).unwrap();
    let mut local = request(Type::Group, "local@t1.org");
    local.tenant = Some("t1".to_string());
    let local = store.create(&local, None).unwrap();
    assert_eq!(
        store.update(
            QueryBy::Id(alice),
            vec![PrincipalUpdate::add_item(PrincipalField::MemberOf, text("global"))],
            Some(tenant)
        ),
        Err(DirectoryError::NotFound("global".to_string()))
    );
    store
        .update(
            QueryBy::Id(alice),
            vec![
                PrincipalUpdate::add_item(PrincipalField::MemberOf, text("local@t1.org")),
                PrincipalUpdate::add_item(PrincipalField::Roles, text("user")),
            ],
            Some(tenant),
        )
        .unwrap();
    assert_eq!(
        store.member_of(alice),
        vec![
            MemberOf { principal_id: local, typ: Type::Group },
            MemberOf { principal_id: ROLE_USER, typ: Type::Role },
        ]
    );
    store.check_invariants();
}

#[test]
fn permissions_are_set_added_and_removed() {
    let (mut store, alice) = with_alice();
    let enabled = PrincipalField::EnabledPermissions;
    store
        .update(
            QueryBy::Id(alice),
            vec![PrincipalUpdate::set(
                enabled,
                texts(&["email-send", "email-send", "authenticate"]),
            )],
            None,
        )
        .unwrap();
    assert_eq!(store.records[&alice].enabled_permissions, vec![2, 1]);
    store
        .update(
            QueryBy::Id(alice),
            vec![
                PrincipalUpdate::add_item(enabled, text("email-receive")),
                PrincipalUpdate::remove_item(enabled, text("email-send")),
                PrincipalUpdate::add_item(PrincipalField::DisabledPermissions, text("email-send")),
            ],
            None,
        )
        .unwrap();
    assert_eq!(store.records[&alice].enabled_permissions, vec![1, 3]);
    assert_eq!(store.records[&alice].disabled_permissions, vec![2]);
    store
        .update(QueryBy::Id(alice), vec![PrincipalUpdate::set(enabled, texts(&[]))], None)
        .unwrap();
    assert_eq!(store.records[&alice].enabled_permissions, Vec::<u64>::new());
    assert_eq!(
        store.update(
            QueryBy::Id(alice),
            vec![PrincipalUpdate::add_item(enabled, text("fly"))],
            None
        ),
        Err(DirectoryError::Error(
            "Invalid enabledPermissions value".to_string(),
            Some("Permission \"fly\" is invalid".to_string())
        ))
    );
}

#[test]
fn delete_removes_every_trace() {
    let (mut store, alice) = with_alice();
    let ops = store.create(&request(Type::Group, "ops"), None).unwrap();
    let dev = store.create(&request(Type::Group, "dev"), None).unwrap();
    store
        .update(
            QueryBy::Id(ops),
            vec![
                PrincipalUpdate::add_item(PrincipalField::Members, text("alice@example.com")),
                PrincipalUpdate::add_item(PrincipalField::MemberOf, text("dev")),
                PrincipalUpdate::add_item(PrincipalField::Emails, text("ops@example.com")),
            ],
            None,
        )
        .unwrap();
    store.quotas.insert(ops, 5);
    assert_eq!(store.delete(QueryBy::Name("ops")), Ok(ops));
    assert_eq!(store.id("ops"), None);
    assert!(!store.records.contains_key(&ops));
    assert!(!store.quotas.contains_key(&ops));
    assert!(store.emails.values().all(|info| info.id != ops));
    assert!(store.member_of.keys().all(|(a, b)| *a != ops && *b != ops));
    assert!(store.members.iter().all(|(a, b)| *a != ops && *b != ops));
    assert_eq!(store.member_of(alice), Vec::<MemberOf>::new());
    assert_eq!(store.members_of(dev), Vec::<u32>::new());
    assert_eq!(
        store.delete(QueryBy::Name("ops")),
        Err(DirectoryError::NotFound("ops".to_string()))
    );
    assert_eq!(store.delete(QueryBy::Id(ops)), Err(DirectoryError::NotFound(ops.to_string())));
    store.check_invariants();
}

#[test]
fn delete_refunds_the_tenant() {
    let (mut store, tenant, alice) = with_tenant();
    store.quotas.insert(alice, 30);
    store.quotas.insert(tenant, 100);
    store.delete(QueryBy::Id(alice)).unwrap();
    assert_eq!(store.quotas.get(&tenant), Some(&70));
    assert_eq!(store.quotas.get(&alice), None);
    let domain = store.id("t1.org").unwrap();
    store.delete(QueryBy::Id(domain)).unwrap();
    assert_eq!(store.delete(QueryBy::Id(tenant)), Ok(tenant));
    store.check_invariants();
}

#[test]
fn list_filters_by_kind_tenant_and_text() {
    let (mut store, tenant, alice) = with_tenant();
    store.create(&request(Type::Domain, "example.com"), None).unwrap();
    store
        .create(
            &with_emails(request(Type::Individual, "bob@example.com"), &["robert@example.com"]),
            None,
        )
        .unwrap();
    store
        .update(
            QueryBy::Id(alice),
            vec![PrincipalUpdate::set(PrincipalField::Description, text("the first user"))],
            Some(tenant),
        )
        .unwrap();
    assert_eq!(
        store.list(None, None, None),
        vec!["alice@t1.org", "bob@example.com", "example.com", "t1", "t1.org"]
    );
    assert_eq!(store.list(None, Some(Type::Domain), None), vec!["example.com", "t1.org"]);
    assert_eq!(store.list(None, None, Some(tenant)), vec!["alice@t1.org", "t1.org"]);
    assert_eq!(store.list(None, Some(Type::Individual), Some(tenant)), vec!["alice@t1.org"]);
    assert_eq!(store.list(Some("ROBERT"), None, None), vec!["bob@example.com"]);
    assert_eq!(store.list(Some("  first \t user "), None, None), vec!["alice@t1.org"]);
    assert_eq!(store.list(Some("first robert"), None, None), Vec::<String>::new());
    assert_eq!(store.list(Some(""), None, Some(tenant)), vec!["alice@t1.org", "t1.org"]);
    assert_eq!(store.count(None, None, None), 5);
    assert_eq!(store.count(None, Some(Type::Tenant), None), 1);
    assert_eq!(store.count(Some("example"), None, None), 2);
    assert_eq!(store.count(Some("t1"), None, Some(tenant)), 2);
    assert_eq!(store.count(Some("EXAMPLE"), None, None), 0);
}

#[test]
fn listing_under_a_tenant_returns_only_its_principals() {
    let (mut store, tenant, _) = with_tenant();
    store.create(&request(Type::Group, "global"), None).unwrap();
    let other = store.create(&request(Type::Tenant, "t2"), None).unwrap();
    let mut theirs = request(Type::Group, "theirs");
    theirs.tenant = Some("t2".to_string());
    store.create(&theirs, None).unwrap();
    for name in store.list(None, None, Some(tenant)) {
        assert_eq!(store.names[&name].tenant, Some(tenant));
    }
    assert_eq!(store.list(None, None, Some(other)), vec!["theirs"]);
}

#[test]
fn corrupt_scans_are_reported() {
    let mut snapshot = Snapshot::new();
    assert!(snapshot.tell(
        Query::Names,
        Answer::Entries(vec![Entry::new(vec![0, b'a'], vec![1, 2, 3])])
    ));
    assert!(snapshot.tell(Query::MemberOf(1), Answer::Entries(vec![Entry::new(vec![5, 0], vec![])])));
    let corrupt = DirectoryError::Store(StoreError::DataCorruption);
    assert_eq!(snapshot.list_principals(None, None, None), Outcome::Fail(corrupt.clone()));
    assert_eq!(snapshot.count_principals(None, None, None), Outcome::Fail(corrupt.clone()));
    assert_eq!(snapshot.get_member_of(1), Outcome::Fail(corrupt));
}

#[test]
fn edges_without_a_kind_read_as_groups() {
    let mut snapshot = Snapshot::new();
    let key = DirectoryClass::MemberOf {
        principal_id: MaybeDynamicId::Static(1),
        member_of: MaybeDynamicId::Static(0x0102_0304),
    }
    .serialize(0);
    assert_eq!(key, vec![5, 0, 0, 0, 1, 1, 2, 3, 4]);
    assert!(snapshot.tell(
        Query::MemberOf(1),
        Answer::Entries(vec![Entry::new(key.clone(), vec![]), Entry::new(key, vec![9, 1])])
    ));
    assert_eq!(
        snapshot.get_member_of(1),
        Outcome::Done(vec![
            MemberOf { principal_id: 0x0102_0304, typ: Type::Group },
            MemberOf { principal_id: 0x0102_0304, typ: Type::Role },
        ])
    );
}

#[test]
fn snapshot_asks_and_remembers() {
    let mut snapshot = Snapshot::new();
    assert_eq!(
        snapshot.get_principal_id("alice"),
        Outcome::Ask(Query::Info("alice".to_string()))
    );
    assert!(!snapshot.tell(Query::Info("alice".to_string()), Answer::Flag(true)));
    let info = PrincipalInfo::new(7, Type::Individual, Some(3));
    assert!(snapshot.tell(Query::Info("alice".to_string()), Answer::Info(Some(info))));
    assert!(!snapshot.tell(Query::Info("alice".to_string()), Answer::Info(None)));
    assert_eq!(snapshot.get_principal_id("alice"), Outcome::Done(Some(7)));
    assert_eq!(snapshot.get_principal_info("alice"), Outcome::Done(Some(info)));
    assert_eq!(snapshot.get_principal_name(7), Outcome::Ask(Query::Record(7)));
    assert!(snapshot.tell(Query::Record(7), Answer::Record(None)));
    assert_eq!(snapshot.get_principal_name(7), Outcome::Done(None));
}

#[test]
fn principal_name_is_read_from_the_record() {
    let (store, alice) = with_alice();
    assert_eq!(
        store.run(|s| s.get_principal_name(alice)),
        Ok(Some("alice@example.com".to_string()))
    );
}
