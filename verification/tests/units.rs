use directory::batch::{AssertValue, Batch, BatchBuilder, BatchValue, Collection, Operation};
use directory::error::{
    enterprise, err_exists, err_missing, error, not_found, unsupported, DirectoryError, StoreError,
};
use directory::index::{add_email, add_name, link, remove_email, remove_name, rename, unlink};
use directory::keys::{deserialize_be_u32, write_be32, DirectoryClass, MaybeDynamicId};
use directory::lists::{dedupe_codes, dedupe_texts, lowercase_all, position_of, remove_code};
use directory::principal::{Principal, PrincipalSet, Quota};
use directory::ranges::{member_of_range, members_range, names_range};
use directory::text::{
    domain_of, is_app_password, is_otp_auth, is_password, lowercase_words, same_text,
};
use directory::types::{
    DynamicPrincipalInfo, PrincipalField, PrincipalInfo, Type, ROLE_ADMIN, ROLE_TENANT_ADMIN,
    ROLE_USER,
};

const ALL_TYPES: [Type; 9] = [
    Type::Individual,
    Type::Group,
    Type::Resource,
    Type::Location,
    Type::List,
    Type::Other,
    Type::Domain,
    Type::Tenant,
    Type::Role,
];

#[test]
fn type_codes_are_stable() {
    let codes: Vec<u8> = ALL_TYPES.iter().map(|t| t.to_u8()).collect();
    assert_eq!(codes, vec![0, 1, 2, 3, 5, 6, 7, 8, 9]);
    for typ in ALL_TYPES {
        assert_eq!(Type::from_u8(typ.to_u8()), typ);
    }
    assert_eq!(Type::from_u8(4), Type::Individual);
    assert_eq!(Type::from_u8(10), Type::Other);
    assert_eq!(Type::from_u8(255), Type::Other);
}

#[test]
fn type_names() {
    let names: Vec<&str> = ALL_TYPES.iter().map(|t| t.as_str()).collect();
    assert_eq!(
        names,
        vec![
            "individual",
            "group",
            "resource",
            "location",
            "list",
            "other",
            "domain",
            "tenant",
            "role"
        ]
    );
    assert_eq!(PrincipalField::EnabledPermissions.as_str(), "enabledPermissions");
    assert_eq!(PrincipalField::MemberOf.as_str(), "memberOf");
}

#[test]
fn members_by_kind() {
    let allowed = |owner: Type| -> Vec<Type> {
        ALL_TYPES.iter().copied().filter(|m| owner.allows_member(*m)).collect()
    };
    assert_eq!(allowed(Type::Group), vec![Type::Individual, Type::Group]);
    assert_eq!(allowed(Type::List), vec![Type::Individual, Type::Group]);
    assert_eq!(allowed(Type::Resource), vec![Type::Resource]);
    assert_eq!(
        allowed(Type::Location),
        vec![Type::Individual, Type::Group, Type::Resource, Type::Location, Type::Other]
    );
    assert_eq!(allowed(Type::Role), vec![Type::Role]);
    for owner in [Type::Individual, Type::Domain, Type::Tenant, Type::Other] {
        assert_eq!(allowed(owner), Vec::<Type>::new());
    }
}

#[test]
fn built_in_roles() {
    let roles = PrincipalField::Roles;
    assert_eq!(roles.map_internal_role_name("admin"), Some(ROLE_ADMIN));
    assert_eq!(roles.map_internal_role_name("tenant-admin"), Some(ROLE_TENANT_ADMIN));
    assert_eq!(roles.map_internal_role_name("user"), Some(ROLE_USER));
    assert_eq!(roles.map_internal_role_name("Admin"), None);
    assert_eq!(roles.map_internal_role_name(""), None);
    assert_eq!(PrincipalField::MemberOf.map_internal_role_name("admin"), None);
    assert_eq!(PrincipalField::Lists.map_internal_roles("user"), None);
    assert_eq!(
        roles.map_internal_roles("user"),
        Some(PrincipalInfo { id: ROLE_USER, typ: Type::Role, tenant: None })
    );
    assert_eq!(ROLE_ADMIN, u32::MAX);
    assert_eq!(ROLE_TENANT_ADMIN, u32::MAX - 1);
    assert_eq!(ROLE_USER, u32::MAX - 2);
}

#[test]
fn tenant_access() {
    let info = PrincipalInfo::new(7, Type::Individual, Some(3));
    assert!(info.has_tenant_access(None));
    assert!(info.has_tenant_access(Some(3)));
    assert!(!info.has_tenant_access(Some(4)));
    let global = PrincipalInfo::new(8, Type::Tenant, None);
    assert!(global.has_tenant_access(None));
    assert!(!global.has_tenant_access(Some(8)));
}

#[test]
fn dynamic_info_takes_the_assigned_id() {
    let info = DynamicPrincipalInfo::new(Type::Group, Some(2));
    assert_eq!(info.with_id(9), PrincipalInfo { id: 9, typ: Type::Group, tenant: Some(2) });
}

#[test]
fn error_constructors() {
    assert_eq!(
        err_missing(PrincipalField::Name),
        DirectoryError::MissingParameter(PrincipalField::Name)
    );
    assert_eq!(
        err_exists(PrincipalField::Emails, "a@b".to_string()),
        DirectoryError::AlreadyExists(PrincipalField::Emails, "a@b".to_string())
    );
    assert_eq!(not_found("x".to_string()), DirectoryError::NotFound("x".to_string()));
    assert_eq!(
        unsupported("why".to_string()),
        DirectoryError::NotSupported(Some("why".to_string()))
    );
    assert_eq!(enterprise(), DirectoryError::NotSupported(Some("Enterprise feature".to_string())));
    assert_eq!(
        error("what".to_string(), None),
        DirectoryError::Error("what".to_string(), None)
    );
    assert_eq!(
        error("what".to_string(), Some("why".to_string())),
        DirectoryError::Error("what".to_string(), Some("why".to_string()))
    );
    assert!(StoreError::AssertionFailure.is_assertion_failure());
    assert!(!StoreError::DataCorruption.is_assertion_failure());
    assert!(!StoreError::Failed("x".to_string()).is_assertion_failure());
}

#[test]
fn identifiers_are_stored_big_endian() {
    let mut out = vec![9];
    write_be32(&mut out, 0x0102_0304);
    write_be32(&mut out, u32::MAX);
    assert_eq!(out, vec![9, 1, 2, 3, 4, 255, 255, 255, 255]);
    assert_eq!(deserialize_be_u32(&out, 1), Some(0x0102_0304));
    assert_eq!(deserialize_be_u32(&out, 5), Some(u32::MAX));
    assert_eq!(deserialize_be_u32(&out, 6), None);
    assert_eq!(deserialize_be_u32(&out, usize::MAX), None);
    assert_eq!(deserialize_be_u32(&vec![1, 2, 3], 0), None);
}

#[test]
fn key_layout() {
    let fixed = MaybeDynamicId::Static(0x0A0B_0C0D);
    let fresh = MaybeDynamicId::Dynamic(0);
    assert_eq!(DirectoryClass::NameToId("aé".to_string()).serialize(1), vec![0, b'a', 0xC3, 0xA9]);
    assert_eq!(DirectoryClass::EmailToId("a@b".to_string()).serialize(1), vec![1, b'a', b'@', b'b']);
    assert_eq!(DirectoryClass::Principal(fixed).serialize(1), vec![2, 10, 11, 12, 13]);
    assert_eq!(DirectoryClass::Principal(fresh).serialize(258), vec![2, 0, 0, 1, 2]);
    assert_eq!(DirectoryClass::UsedQuota(1).serialize(9), vec![4, 0, 0, 0, 1]);
    assert_eq!(
        DirectoryClass::MemberOf { principal_id: fresh, member_of: fixed }.serialize(1),
        vec![5, 0, 0, 0, 1, 10, 11, 12, 13]
    );
    assert_eq!(
        DirectoryClass::Members { principal_id: fixed, has_member: fresh }.serialize(1),
        vec![6, 10, 11, 12, 13, 0, 0, 0, 1]
    );
    assert_eq!(
        DirectoryClass::Members { principal_id: fixed, has_member: fresh }.resolve(7),
        DirectoryClass::Members { principal_id: fixed, has_member: MaybeDynamicId::Static(7) }
    );
}

#[test]
fn scan_ranges() {
    assert_eq!(
        member_of_range(1),
        (vec![5, 0, 0, 0, 1, 0, 0, 0, 0], vec![5, 0, 0, 0, 1, 255, 255, 255, 255])
    );
    assert_eq!(
        members_range(0x0100),
        (vec![6, 0, 0, 1, 0, 0, 0, 0, 0], vec![6, 0, 0, 1, 0, 255, 255, 255, 255])
    );
    assert_eq!(names_range(), (vec![0], vec![0, 255, 255, 255, 255, 255, 255, 255, 255, 255, 255]));
    let (from, to) = member_of_range(7);
    let key = |a: u32, b: u32| {
        DirectoryClass::MemberOf {
            principal_id: MaybeDynamicId::Static(a),
            member_of: MaybeDynamicId::Static(b),
        }
        .serialize(0)
    };
    for peer in [0, 1, 255, 256, ROLE_ADMIN] {
        assert!(from <= key(7, peer) && key(7, peer) <= to);
        assert!(key(6, peer) < from);
        assert!(key(8, peer) > to);
    }
}

#[test]
fn index_payload_layout() {
    let global = PrincipalInfo::new(0x0102_0304, Type::List, None);
    let scoped = PrincipalInfo::new(1, Type::Role, Some(2));
    assert_eq!(global.serialize(), vec![1, 2, 3, 4, 5]);
    assert_eq!(scoped.serialize(), vec![0, 0, 0, 1, 9, 0, 0, 0, 2]);
    assert_eq!(PrincipalInfo::deserialize(&global.serialize()), Ok(global));
    assert_eq!(PrincipalInfo::deserialize(&scoped.serialize()), Ok(scoped));
    assert_eq!(
        PrincipalInfo::deserialize(&vec![0, 0, 0, 1, 4]),
        Ok(PrincipalInfo::new(1, Type::Individual, None))
    );
    for bad in [vec![], vec![1, 2, 3, 4], vec![1, 2, 3, 4, 5, 6], vec![0; 10]] {
        assert_eq!(
            PrincipalInfo::deserialize(&bad),
            Err(DirectoryError::Store(StoreError::DataCorruption))
        );
    }
}

#[test]
fn domains_of_names() {
    assert_eq!(domain_of("alice@example.com"), Some("example.com".to_string()));
    assert_eq!(domain_of("alice"), None);
    assert_eq!(domain_of(""), None);
    assert_eq!(domain_of("alice@"), Some(String::new()));
    assert_eq!(domain_of("@example.com"), Some("example.com".to_string()));
    assert_eq!(domain_of("a@b@c"), Some("b".to_string()));
    assert_eq!(domain_of("é@ü.de"), Some("ü.de".to_string()));
}

#[test]
fn kinds_of_secrets() {
    assert!(is_otp_auth("otpauth://totp/x"));
    assert!(!is_otp_auth("otpauth:/"));
    assert!(is_app_password("$app$phone$hash"));
    assert!(!is_app_password("app$"));
    assert!(is_password("$2b$hash"));
    assert!(is_password(""));
    assert!(!is_password("otpauth://"));
    assert!(!is_password("$app$"));
    assert!(same_text("a", "a"));
    assert!(!same_text("a", "A"));
}

#[test]
fn words_of_a_filter() {
    assert_eq!(lowercase_words(""), Vec::<String>::new());
    assert_eq!(lowercase_words(" \t\n"), Vec::<String>::new());
    assert_eq!(lowercase_words("Alice"), vec!["alice"]);
    assert_eq!(lowercase_words("  Alice\u{a0}BOB \t c  "), vec!["alice", "bob", "c"]);
}

#[test]
fn lists_of_values() {
    let texts = |v: &[&str]| v.iter().map(|s| s.to_string()).collect::<Vec<_>>();
    assert_eq!(lowercase_all(&texts(&["A", "b", "É"])), texts(&["a", "b", "é"]));
    assert_eq!(dedupe_texts(&texts(&["a", "b", "a", "c", "b"])), texts(&["a", "b", "c"]));
    assert_eq!(dedupe_codes(&vec![3, 1, 3, 2, 1]), vec![3, 1, 2]);
    assert_eq!(remove_code(&vec![3, 1, 3, 2], 3), vec![1, 2]);
    assert_eq!(position_of(&vec![5, 6, 5], 5), Some(0));
    assert_eq!(position_of(&vec![5, 6, 5], 6), Some(1));
    assert_eq!(position_of(&vec![5, 6, 5], 7), None);
}

#[test]
fn bare_principal() {
    let p = Principal::new(Type::Group, "ops".to_string());
    assert_eq!(p.id, 0);
    assert_eq!(p.typ, Type::Group);
    assert_eq!(p.name, "ops");
    assert_eq!(p.description, None);
    assert_eq!(p.tenant, None);
    assert_eq!(p.quota, None);
    assert!(p.emails.is_empty() && p.secrets.is_empty());
    assert!(p.enabled_permissions.is_empty() && p.disabled_permissions.is_empty());
    assert_eq!(p.duplicate(), p);
    let set = PrincipalSet::new(Type::Tenant, "t".to_string());
    assert_eq!(set.typ, Type::Tenant);
    assert_eq!(set.name, "t");
    assert!(set.members.is_empty() && set.roles.is_empty() && set.tenant.is_none());
}

#[test]
fn record_fields() {
    let mut p = Principal::new(Type::Individual, "a".to_string());
    p.set_description("d".to_string());
    p.set_quota(Some(Quota::PerType(vec![1, 2])));
    p.set_permissions(PrincipalField::EnabledPermissions, vec![4, 5]);
    p.add_permission(PrincipalField::EnabledPermissions, 4);
    p.add_permission(PrincipalField::DisabledPermissions, 6);
    assert_eq!(p.enabled_permissions, vec![4, 5, 4]);
    p.remove_permission(PrincipalField::EnabledPermissions, 4);
    assert_eq!(p.enabled_permissions, vec![5]);
    assert_eq!(p.disabled_permissions, vec![6]);
    assert_eq!(p.description, Some("d".to_string()));
    assert_eq!(p.quota, Some(Quota::PerType(vec![1, 2])));
    p.emails = vec!["x@y".to_string()];
    p.description = Some("Some Text".to_string());
    assert!(p.find_str("x@"));
    assert!(p.find_str("Text"));
    assert!(p.find_str(""));
    assert!(!p.find_str("text"));
    assert!(p.find_all(&vec!["a".to_string(), "y".to_string()]));
    assert!(!p.find_all(&vec!["a".to_string(), "z".to_string()]));
}

#[test]
fn batch_builder_keeps_the_order() {
    let mut batch = BatchBuilder::new();
    batch.with_account_id(u32::MAX);
    batch.with_collection(Collection::Principal);
    batch.create_document();
    batch.assert_value(DirectoryClass::NameToId("a".to_string()), AssertValue::Absent);
    batch.set(DirectoryClass::UsedQuota(1), BatchValue::Bytes(vec![1]));
    batch.clear(DirectoryClass::UsedQuota(2));
    batch.add(DirectoryClass::UsedQuota(3), -4);
    assert_eq!(
        batch.build(),
        Batch {
            ops: vec![
                Operation::AccountId(u32::MAX),
                Operation::Collection(Collection::Principal),
                Operation::CreateDocument,
                Operation::AssertValue {
                    class: DirectoryClass::NameToId("a".to_string()),
                    assert_value: AssertValue::Absent
                },
                Operation::Put {
                    class: DirectoryClass::UsedQuota(1),
                    value: BatchValue::Bytes(vec![1])
                },
                Operation::Clear { class: DirectoryClass::UsedQuota(2) },
                Operation::Add { class: DirectoryClass::UsedQuota(3), by: -4 },
            ]
        }
    );
}

#[test]
fn index_helpers_write_both_directions() {
    let a = MaybeDynamicId::Static(1);
    let b = MaybeDynamicId::Dynamic(0);
    let info = PrincipalInfo::new(1, Type::Individual, None);
    let mut batch = BatchBuilder::new();
    link(&mut batch, a, b, Type::List);
    unlink(&mut batch, a, b);
    add_name(&mut batch, "n".to_string(), BatchValue::Info(info));
    remove_name(&mut batch, "n".to_string());
    rename(&mut batch, "n".to_string(), "m".to_string(), info);
    add_email(&mut batch, "e".to_string(), BatchValue::Info(info));
    remove_email(&mut batch, "e".to_string());
    let name = |n: &str| DirectoryClass::NameToId(n.to_string());
    let email = || DirectoryClass::EmailToId("e".to_string());
    assert_eq!(
        batch.build().ops,
        vec![
            Operation::Put {
                class: DirectoryClass::MemberOf { principal_id: a, member_of: b },
                value: BatchValue::Bytes(vec![5])
            },
            Operation::Put {
                class: DirectoryClass::Members { principal_id: b, has_member: a },
                value: BatchValue::Bytes(vec![])
            },
            Operation::Clear { class: DirectoryClass::MemberOf { principal_id: a, member_of: b } },
            Operation::Clear { class: DirectoryClass::Members { principal_id: b, has_member: a } },
            Operation::Put { class: name("n"), value: BatchValue::Info(info) },
            Operation::Clear { class: name("n") },
            Operation::Clear { class: name("n") },
            Operation::Put { class: name("m"), value: BatchValue::Info(info) },
            Operation::Put { class: email(), value: BatchValue::Info(info) },
            Operation::Clear { class: email() },
        ]
    );
}

#[test]
fn placeholders_are_resolved() {
    let mut batch = BatchBuilder::new();
    batch.create_document();
    batch.set(
        DirectoryClass::Principal(MaybeDynamicId::Dynamic(0)),
        BatchValue::DynamicRecord(Principal::new(Type::Group, "ops".to_string())),
    );
    batch.set(
        DirectoryClass::NameToId("ops".to_string()),
        BatchValue::DynamicInfo(DynamicPrincipalInfo::new(Type::Group, Some(3))),
    );
    link(&mut batch, MaybeDynamicId::Dynamic(0), MaybeDynamicId::Static(2), Type::Role);
    let mut record = Principal::new(Type::Group, "ops".to_string());
    record.id = 41;
    let me = MaybeDynamicId::Static(41);
    let peer = MaybeDynamicId::Static(2);
    assert_eq!(
        batch.build().resolve(41).ops,
        vec![
            Operation::CreateDocument,
            Operation::Put {
                class: DirectoryClass::Principal(me),
                value: BatchValue::Record(record)
            },
            Operation::Put {
                class: DirectoryClass::NameToId("ops".to_string()),
                value: BatchValue::Info(PrincipalInfo::new(41, Type::Group, Some(3)))
            },
            Operation::Put {
                class: DirectoryClass::MemberOf { principal_id: me, member_of: peer },
                value: BatchValue::Bytes(vec![9])
            },
            Operation::Put {
                class: DirectoryClass::Members { principal_id: peer, has_member: me },
                value: BatchValue::Bytes(vec![])
            },
        ]
    );
}
