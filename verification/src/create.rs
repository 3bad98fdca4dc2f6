//! The creation path: a request is checked against the directory and
//! turned into the one batch that creates the principal, its index entries
//! and its edges under a freshly assigned identifier.

use vstd::prelude::*;
use crate::batch::{
    edges_paired, paired_push, AssertModel, AssertValue, Batch, BatchBuilder, BatchValue,
    Collection, OpModel, PayloadModel,
};
use crate::domains::{domain_names, domains_insert, domains_is_empty, domains_new};
use crate::error::{DirectoryError, Fault};
use crate::index::{add_email, add_name, email_op, link, link_ops, name_op};
use crate::keys::{ClassModel, DirectoryClass, MaybeDynamicId};
use crate::lists::{clone_texts, lowercase_all, lowered};
use crate::messages::{invalid_name, invalid_name_fault};
use crate::principal::{
    clone_quota, clone_text, Principal, PrincipalModel, PrincipalSet, PrincipalSetModel,
};
use crate::resolve::{
    domain_step, is_domain, is_domain_for, permissions_step, resolve_permissions, valid_domain,
};
use crate::snapshot::{agrees, Known, Outcome, Question, Snapshot, Step};
use crate::text::{domain_of, domain_part, lowercase, owned, to_lowercase};
use crate::types::{DynamicPrincipalInfo, PrincipalField, PrincipalInfo, Type};

verus! {

/// The account under which all principal records are kept.
pub const META_ACCOUNT: u32 = 0xFFFF_FFFF;

/// The place of the identifier that the store assigns to the new principal.
pub open spec fn fresh() -> MaybeDynamicId {
    MaybeDynamicId::Dynamic(0)
}

/// Whether the principal found under a name may be tied to a new principal
/// of kind `owner` through `field`: it must be in the sight of the tenant
/// and, as a member, of a kind that `owner` admits, else of the kind that
/// the field stands for.
pub open spec fn acceptable(
    field: PrincipalField,
    owner: Type,
    tenant: Option<u32>,
    info: PrincipalInfo,
) -> bool {
    info.visible_to(tenant) && if field == PrincipalField::Members {
        owner.admits(info.typ)
    } else {
        info.typ == field.target_type()
    }
}

/// The principal that `name` stands for in a membership field of a request:
/// the acceptable one of that name, else, in a `Roles` field, the built-in
/// role of that name.
pub open spec fn new_target_step(
    known: Known,
    field: PrincipalField,
    owner: Type,
    tenant: Option<u32>,
    name: Seq<char>,
) -> Step<PrincipalInfo> {
    match known.info(name) {
        None => Step::Ask(Question::Info(name)),
        Some(found) => if found matches Some(info) && acceptable(field, owner, tenant, info) {
            Step::Done(found->0)
        } else {
            match field.builtin_role_info(name) {
                Some(info) => Step::Done(info),
                None => Step::Fail(Fault::NotFound(name)),
            }
        },
    }
}

/// The principals that the names from position `from` on stand for, behind
/// those already found.
pub open spec fn new_targets_from(
    known: Known,
    field: PrincipalField,
    owner: Type,
    tenant: Option<u32>,
    names: Seq<Seq<char>>,
    from: int,
    found: Seq<PrincipalInfo>,
) -> Step<Seq<PrincipalInfo>>
    decreases names.len() - from,
{
    if from < 0 || from >= names.len() {
        Step::Done(found)
    } else {
        match new_target_step(known, field, owner, tenant, names[from]) {
            Step::Ask(question) => Step::Ask(question),
            Step::Fail(fault) => Step::Fail(fault),
            Step::Done(info) => new_targets_from(
                known,
                field,
                owner,
                tenant,
                names,
                from + 1,
                found.push(info),
            ),
        }
    }
}

/// Whether the addresses from position `from` on may be taken: none
/// receives mail yet, and the domain of each is among the domains already
/// found valid or is a domain principal in the sight of the tenant.
pub open spec fn new_emails_from(
    known: Known,
    tenant: Option<u32>,
    emails: Seq<Seq<char>>,
    from: int,
    valid: Set<Seq<char>>,
) -> Step<()>
    decreases emails.len() - from,
{
    if from < 0 || from >= emails.len() {
        Step::Done(())
    } else {
        match known.rcpt(emails[from]) {
            None => Step::Ask(Question::Rcpt(emails[from])),
            Some(true) => Step::Fail(Fault::AlreadyExists(PrincipalField::Emails, emails[from])),
            Some(false) => match domain_part(emails[from]) {
                None => new_emails_from(known, tenant, emails, from + 1, valid),
                Some(domain) => if valid.contains(domain) {
                    new_emails_from(known, tenant, emails, from + 1, valid)
                } else {
                    match known.info(domain) {
                        None => Step::Ask(Question::Info(domain)),
                        Some(found) => if is_domain_for(found, tenant) {
                            new_emails_from(known, tenant, emails, from + 1, valid.insert(domain))
                        } else {
                            Step::Fail(Fault::NotFound(domain))
                        },
                    }
                },
            },
        }
    }
}

/// The tenant of the new principal: the scope of the request where it has
/// one, else the tenant that the request names.
pub open spec fn new_tenant_step(known: Known, named: Option<Seq<char>>, tenant: Option<u32>) -> Step<
    Option<u32>,
> {
    match tenant {
        Some(id) => Step::Done(Some(id)),
        None => match named {
            None => Step::Done(None),
            Some(name) => match known.info(name) {
                None => Step::Ask(Question::Info(name)),
                Some(Some(info)) => if info.typ == Type::Tenant {
                    Step::Done(Some(info.id))
                } else {
                    Step::Fail(Fault::NotFound(name))
                },
                Some(None) => Step::Fail(Fault::NotFound(name)),
            },
        },
    }
}

/// The batch after an index entry has been added for every address from
/// position `from` on.
pub open spec fn file_emails_from(
    emails: Seq<Seq<char>>,
    info: DynamicPrincipalInfo,
    from: int,
    batch: Seq<OpModel>,
) -> Seq<OpModel>
    decreases emails.len() - from,
{
    if from < 0 || from >= emails.len() {
        batch
    } else {
        file_emails_from(
            emails,
            info,
            from + 1,
            batch.push(email_op(emails[from], PayloadModel::DynamicInfo(info))),
        )
    }
}

/// The batch after the new principal has been made a member of every
/// principal from position `from` on.
pub open spec fn join_new_from(groups: Seq<PrincipalInfo>, from: int, batch: Seq<OpModel>) -> Seq<
    OpModel,
>
    decreases groups.len() - from,
{
    if from < 0 || from >= groups.len() {
        batch
    } else {
        join_new_from(
            groups,
            from + 1,
            batch + link_ops(fresh(), MaybeDynamicId::Static(groups[from].id), groups[from].typ),
        )
    }
}

/// The batch after every principal from position `from` on has been made a
/// member of the new principal, which is of kind `owner`.
pub open spec fn adopt_from(
    members: Seq<PrincipalInfo>,
    owner: Type,
    from: int,
    batch: Seq<OpModel>,
) -> Seq<OpModel>
    decreases members.len() - from,
{
    if from < 0 || from >= members.len() {
        batch
    } else {
        adopt_from(
            members,
            owner,
            from + 1,
            batch + link_ops(MaybeDynamicId::Static(members[from].id), fresh(), owner),
        )
    }
}

/// The record of the new principal, before its identifier is assigned.
pub open spec fn new_record(
    p: PrincipalSetModel,
    name: Seq<char>,
    tenant: Option<u32>,
    enabled: Seq<u64>,
    disabled: Seq<u64>,
) -> PrincipalModel {
    PrincipalModel {
        id: 0,
        typ: p.typ,
        name,
        description: p.description,
        tenant,
        quota: p.quota,
        emails: lowered(p.emails),
        secrets: p.secrets,
        enabled_permissions: enabled,
        disabled_permissions: disabled,
    }
}

/// The operations with which every creating batch begins: the scope, the
/// reservation of the identifier, and the assertion that the name is free.
pub open spec fn new_header(name: Seq<char>) -> Seq<OpModel> {
    seq![
        OpModel::AccountId(META_ACCOUNT),
        OpModel::Collection(Collection::Principal),
        OpModel::CreateDocument,
        OpModel::AssertValue { class: ClassModel::NameToId(name), assert_value: AssertModel::Absent },
    ]
}

/// The operation that writes the new record.
pub open spec fn new_record_op(record: PrincipalModel) -> OpModel {
    OpModel::Put { class: ClassModel::Principal(fresh()), value: PayloadModel::DynamicRecord(record) }
}

/// The batch that creates a principal.
pub open spec fn new_batch(
    record: PrincipalModel,
    tenant: Option<u32>,
    member_of: Seq<PrincipalInfo>,
    members: Seq<PrincipalInfo>,
) -> Seq<OpModel> {
    let named = new_header(record.name).push(new_record_op(record)).push(
        name_op(
            record.name,
            PayloadModel::DynamicInfo(DynamicPrincipalInfo { typ: record.typ, tenant }),
        ),
    );
    let filed = file_emails_from(
        record.emails,
        DynamicPrincipalInfo { typ: record.typ, tenant: None },
        0,
        named,
    );
    adopt_from(members, record.typ, 0, join_new_from(member_of, 0, filed))
}

/// The domains that count as valid once the name has been checked: under a
/// tenant's scope the domain of the name, which must be a domain of the
/// tenant; otherwise none.
pub open spec fn name_domain_step(known: Known, name: Seq<char>, tenant: Option<u32>) -> Step<
    Set<Seq<char>>,
> {
    if tenant is None {
        Step::Done(Set::empty())
    } else {
        match domain_step(known, name, tenant) {
            Step::Ask(question) => Step::Ask(question),
            Step::Fail(fault) => Step::Fail(fault),
            Step::Done(None) => Step::Fail(invalid_name_fault()),
            Step::Done(Some(domain)) => Step::Done(Set::empty().insert(domain)),
        }
    }
}

/// What is tied to the new principal: first what it is a member of, through
/// the fields `MemberOf`, `Lists` and `Roles` in this order, then its
/// members.
pub open spec fn new_edges_step(known: Known, p: PrincipalSetModel, tenant: Option<u32>) -> Step<
    (Seq<PrincipalInfo>, Seq<PrincipalInfo>),
> {
    match new_targets_from(known, PrincipalField::Members, p.typ, tenant, p.members, 0, Seq::empty()) {
        Step::Ask(question) => Step::Ask(question),
        Step::Fail(fault) => Step::Fail(fault),
        Step::Done(members) => match new_targets_from(
            known,
            PrincipalField::MemberOf,
            p.typ,
            tenant,
            p.member_of,
            0,
            Seq::empty(),
        ) {
            Step::Ask(question) => Step::Ask(question),
            Step::Fail(fault) => Step::Fail(fault),
            Step::Done(groups) => match new_targets_from(
                known,
                PrincipalField::Lists,
                p.typ,
                tenant,
                p.lists,
                0,
                groups,
            ) {
                Step::Ask(question) => Step::Ask(question),
                Step::Fail(fault) => Step::Fail(fault),
                Step::Done(lists) => match new_targets_from(
                    known,
                    PrincipalField::Roles,
                    p.typ,
                    tenant,
                    p.roles,
                    0,
                    lists,
                ) {
                    Step::Ask(question) => Step::Ask(question),
                    Step::Fail(fault) => Step::Fail(fault),
                    Step::Done(member_of) => Step::Done((member_of, members)),
                },
            },
        },
    }
}

/// What is left of a creation once the name is known to be acceptable and
/// free.
pub open spec fn create_named(
    known: Known,
    p: PrincipalSetModel,
    name: Seq<char>,
    tenant: Option<u32>,
    valid: Set<Seq<char>>,
) -> Step<Seq<OpModel>> {
    match new_edges_step(known, p, tenant) {
        Step::Ask(question) => Step::Ask(question),
        Step::Fail(fault) => Step::Fail(fault),
        Step::Done((member_of, members)) => match permissions_step(
            known,
            PrincipalField::EnabledPermissions,
            p.enabled_permissions,
        ) {
            Step::Ask(question) => Step::Ask(question),
            Step::Fail(fault) => Step::Fail(fault),
            Step::Done(enabled) => match permissions_step(
                known,
                PrincipalField::DisabledPermissions,
                p.disabled_permissions,
            ) {
                Step::Ask(question) => Step::Ask(question),
                Step::Fail(fault) => Step::Fail(fault),
                Step::Done(disabled) => match new_emails_from(
                    known,
                    tenant,
                    lowered(p.emails),
                    0,
                    valid,
                ) {
                    Step::Ask(question) => Step::Ask(question),
                    Step::Fail(fault) => Step::Fail(fault),
                    Step::Done(_) => match new_tenant_step(known, p.tenant, tenant) {
                        Step::Ask(question) => Step::Ask(question),
                        Step::Fail(fault) => Step::Fail(fault),
                        Step::Done(owner) => Step::Done(
                            new_batch(
                                new_record(p, name, owner, enabled, disabled),
                                owner,
                                member_of,
                                members,
                            ),
                        ),
                    },
                },
            },
        },
    }
}

/// What a creation gives: the batch that creates the principal, or the
/// first question or failure on the way. The name is taken in lower case;
/// it must not be empty, must lie in a domain of the tenant where the
/// request is scoped, and must be free.
pub open spec fn create_step(known: Known, p: PrincipalSetModel, tenant: Option<u32>) -> Step<
    Seq<OpModel>,
> {
    let name = lowercase(p.name);
    if name.len() == 0 {
        Step::Fail(Fault::MissingParameter(PrincipalField::Name))
    } else {
        match name_domain_step(known, name, tenant) {
            Step::Ask(question) => Step::Ask(question),
            Step::Fail(fault) => Step::Fail(fault),
            Step::Done(valid) => match known.info(name) {
                None => Step::Ask(Question::Info(name)),
                Some(Some(_)) => Step::Fail(Fault::AlreadyExists(PrincipalField::Name, name)),
                Some(None) => create_named(known, p, name, tenant, valid),
            },
        }
    }
}

fn is_acceptable(
    field: PrincipalField,
    owner: Type,
    tenant: Option<u32>,
    info: &PrincipalInfo,
) -> (r: bool)
    requires
        field.is_membership(),
    ensures
        r == acceptable(field, owner, tenant, *info),
{
    info.has_tenant_access(tenant) && match field {
        PrincipalField::Members => owner.allows_member(info.typ),
        _ => info.typ == field.expected_type(),
    }
}

#[verifier::loop_isolation(false)]
fn resolve_new_targets(
    snapshot: &Snapshot,
    field: PrincipalField,
    owner: Type,
    tenant: Option<u32>,
    names: &Vec<String>,
    found: Vec<PrincipalInfo>,
) -> (r: Outcome<Vec<PrincipalInfo>>)
    requires
        field.is_membership(),
    ensures
        agrees(
            r,
            new_targets_from(snapshot@, field, owner, tenant, names.deep_view(), 0, found@),
            |list: Vec<PrincipalInfo>, m: Seq<PrincipalInfo>| list@ == m,
        ),
{
    let ghost start = found@;
    let mut found = found;
    let mut i: usize = 0;
    while i < names.len()
        invariant
            i <= names.len(),
            new_targets_from(snapshot@, field, owner, tenant, names.deep_view(), 0, start)
                == new_targets_from(
                snapshot@,
                field,
                owner,
                tenant,
                names.deep_view(),
                i as int,
                found@,
            ),
        decreases names.len() - i,
    {
        assert(names.deep_view()[i as int] == names[i as int]@);
        let name = names[i].as_str();
        let looked_up = match snapshot.info(name) {
            Err(query) => {
                return Outcome::Ask(query);
            },
            Ok(looked_up) => looked_up,
        };
        let accepted = match looked_up {
            Some(info) => if is_acceptable(field, owner, tenant, &info) {
                Some(info)
            } else {
                None
            },
            None => None,
        };
        let info = match accepted {
            Some(info) => info,
            None => match field.map_internal_roles(name) {
                Some(info) => info,
                None => {
                    return Outcome::Fail(DirectoryError::NotFound(owned(name)));
                },
            },
        };
        found.push(info);
        i = i + 1;
    }
    Outcome::Done(found)
}

#[verifier::loop_isolation(false)]
fn check_new_emails(
    snapshot: &Snapshot,
    tenant: Option<u32>,
    emails: &Vec<String>,
    valid: ahash::AHashSet<String>,
) -> (r: Outcome<()>)
    ensures
        agrees(
            r,
            new_emails_from(snapshot@, tenant, emails.deep_view(), 0, domain_names(valid)),
            |u: (), m: ()| true,
        ),
{
    let ghost start = domain_names(valid);
    let mut valid = valid;
    let mut i: usize = 0;
    while i < emails.len()
        invariant
            i <= emails.len(),
            new_emails_from(snapshot@, tenant, emails.deep_view(), 0, start) == new_emails_from(
                snapshot@,
                tenant,
                emails.deep_view(),
                i as int,
                domain_names(valid),
            ),
        decreases emails.len() - i,
    {
        assert(emails.deep_view()[i as int] == emails[i as int]@);
        let email = emails[i].as_str();
        match snapshot.rcpt(email) {
            Err(query) => {
                return Outcome::Ask(query);
            },
            Ok(true) => {
                return Outcome::Fail(
                    DirectoryError::AlreadyExists(PrincipalField::Emails, owned(email)),
                );
            },
            Ok(false) => {},
        }
        match domain_of(email) {
            None => {},
            Some(domain) => {
                let ghost before = domain_names(valid);
                if domains_insert(&mut valid, domain.clone()) {
                    match snapshot.info(domain.as_str()) {
                        Err(query) => {
                            return Outcome::Ask(query);
                        },
                        Ok(found) => {
                            if !is_domain(&found, tenant) {
                                return Outcome::Fail(DirectoryError::NotFound(domain));
                            }
                        },
                    }
                } else {
                    assert(domain_names(valid) =~= before);
                }
            },
        }
        i = i + 1;
    }
    Outcome::Done(())
}

impl Snapshot {
    /// Creates a principal. The result is the batch to commit; the store
    /// assigns the identifier when it applies the batch.
    #[verifier::loop_isolation(false)]
    pub fn create_principal(&self, principal: &PrincipalSet, tenant_id: Option<u32>) -> (r:
        Outcome<Batch>)
        ensures
            agrees(
                r,
                create_step(self@, principal@, tenant_id),
                |b: Batch, m: Seq<OpModel>| b@ == m,
            ),
            r matches Outcome::Done(b) ==> edges_paired(b@),
            self@.well_formed() ==> (r matches Outcome::Ask(query) ==> self@.reply(query@) is None),
    {
        proof {
            if self@.well_formed() {
                crate::progress::create_asks_anew(self@, principal@, tenant_id);
            }
        }
        let name = to_lowercase(principal.name.as_str());
        if name.as_str().is_empty() {
            return Outcome::Fail(DirectoryError::MissingParameter(PrincipalField::Name));
        }
        let mut valid_domains = domains_new();
        if tenant_id.is_some() {
            match valid_domain(self, name.as_str(), tenant_id) {
                Outcome::Ask(query) => {
                    return Outcome::Ask(query);
                },
                Outcome::Fail(e) => {
                    return Outcome::Fail(e);
                },
                Outcome::Done(Some(domain)) => {
                    domains_insert(&mut valid_domains, domain);
                },
                Outcome::Done(None) => {},
            }
            if domains_is_empty(&valid_domains) {
                return Outcome::Fail(invalid_name());
            }
        }
        match self.info(name.as_str()) {
            Err(query) => {
                return Outcome::Ask(query);
            },
            Ok(Some(_)) => {
                return Outcome::Fail(DirectoryError::AlreadyExists(PrincipalField::Name, name));
            },
            Ok(None) => {},
        }
        let typ = principal.typ;
        let members = match resolve_new_targets(
            self,
            PrincipalField::Members,
            typ,
            tenant_id,
            &principal.members,
            Vec::new(),
        ) {
            Outcome::Ask(query) => {
                return Outcome::Ask(query);
            },
            Outcome::Fail(e) => {
                return Outcome::Fail(e);
            },
            Outcome::Done(list) => list,
        };
        let groups = match resolve_new_targets(
            self,
            PrincipalField::MemberOf,
            typ,
            tenant_id,
            &principal.member_of,
            Vec::new(),
        ) {
            Outcome::Ask(query) => {
                return Outcome::Ask(query);
            },
            Outcome::Fail(e) => {
                return Outcome::Fail(e);
            },
            Outcome::Done(list) => list,
        };
        let lists = match resolve_new_targets(
            self,
            PrincipalField::Lists,
            typ,
            tenant_id,
            &principal.lists,
            groups,
        ) {
            Outcome::Ask(query) => {
                return Outcome::Ask(query);
            },
            Outcome::Fail(e) => {
                return Outcome::Fail(e);
            },
            Outcome::Done(list) => list,
        };
        let member_of = match resolve_new_targets(
            self,
            PrincipalField::Roles,
            typ,
            tenant_id,
            &principal.roles,
            lists,
        ) {
            Outcome::Ask(query) => {
                return Outcome::Ask(query);
            },
            Outcome::Fail(e) => {
                return Outcome::Fail(e);
            },
            Outcome::Done(list) => list,
        };
        let enabled = match resolve_permissions(
            self,
            PrincipalField::EnabledPermissions,
            &principal.enabled_permissions,
        ) {
            Outcome::Ask(query) => {
                return Outcome::Ask(query);
            },
            Outcome::Fail(e) => {
                return Outcome::Fail(e);
            },
            Outcome::Done(list) => list,
        };
        let disabled = match resolve_permissions(
            self,
            PrincipalField::DisabledPermissions,
            &principal.disabled_permissions,
        ) {
            Outcome::Ask(query) => {
                return Outcome::Ask(query);
            },
            Outcome::Fail(e) => {
                return Outcome::Fail(e);
            },
            Outcome::Done(list) => list,
        };
        let emails = lowercase_all(&principal.emails);
        match check_new_emails(self, tenant_id, &emails, valid_domains) {
            Outcome::Ask(query) => {
                return Outcome::Ask(query);
            },
            Outcome::Fail(e) => {
                return Outcome::Fail(e);
            },
            Outcome::Done(_) => {},
        }
        let owner = match tenant_id {
            Some(id) => Some(id),
            None => match &principal.tenant {
                None => None,
                Some(tenant_name) => match self.info(tenant_name.as_str()) {
                    Err(query) => {
                        return Outcome::Ask(query);
                    },
                    Ok(Some(info)) => {
                        if info.typ == Type::Tenant {
                            Some(info.id)
                        } else {
                            return Outcome::Fail(DirectoryError::NotFound(tenant_name.clone()));
                        }
                    },
                    Ok(None) => {
                        return Outcome::Fail(DirectoryError::NotFound(tenant_name.clone()));
                    },
                },
            },
        };
        let record = Principal {
            id: 0,
            typ,
            name: name.clone(),
            description: clone_text(&principal.description),
            tenant: owner,
            quota: clone_quota(&principal.quota),
            emails: clone_texts(&emails),
            secrets: clone_texts(&principal.secrets),
            enabled_permissions: enabled,
            disabled_permissions: disabled,
        };
        assert(record@ == new_record(principal@, name@, owner, enabled@, disabled@));
        let mut batch = BatchBuilder::new();
        proof {
            paired_push(batch@, OpModel::AccountId(META_ACCOUNT));
        }
        batch.with_account_id(META_ACCOUNT);
        proof {
            paired_push(batch@, OpModel::Collection(Collection::Principal));
        }
        batch.with_collection(Collection::Principal);
        proof {
            paired_push(batch@, OpModel::CreateDocument);
        }
        batch.create_document();
        proof {
            paired_push(batch@, new_header(name@)[3]);
        }
        batch.assert_value(DirectoryClass::NameToId(name.clone()), AssertValue::Absent);
        proof {
            assert(batch@ =~= new_header(name@));
            paired_push(batch@, new_record_op(record@));
        }
        batch.set(
            DirectoryClass::Principal(MaybeDynamicId::Dynamic(0)),
            BatchValue::DynamicRecord(record),
        );
        add_name(
            &mut batch,
            name,
            BatchValue::DynamicInfo(DynamicPrincipalInfo::new(typ, owner)),
        );
        let pinfo_email = DynamicPrincipalInfo::new(typ, None);
        let ghost named = batch@;
        let mut i: usize = 0;
        while i < emails.len()
            invariant
                i <= emails.len(),
                edges_paired(batch@),
                file_emails_from(emails.deep_view(), pinfo_email, 0, named) == file_emails_from(
                    emails.deep_view(),
                    pinfo_email,
                    i as int,
                    batch@,
                ),
            decreases emails.len() - i,
        {
            assert(emails.deep_view()[i as int] == emails[i as int]@);
            add_email(&mut batch, emails[i].clone(), BatchValue::DynamicInfo(pinfo_email));
            i = i + 1;
        }
        let ghost filed = batch@;
        let mut j: usize = 0;
        while j < member_of.len()
            invariant
                j <= member_of.len(),
                edges_paired(batch@),
                join_new_from(member_of@, 0, filed) == join_new_from(member_of@, j as int, batch@),
            decreases member_of.len() - j,
        {
            link(
                &mut batch,
                MaybeDynamicId::Dynamic(0),
                MaybeDynamicId::Static(member_of[j].id),
                member_of[j].typ,
            );
            j = j + 1;
        }
        let ghost joined = batch@;
        let mut k: usize = 0;
        while k < members.len()
            invariant
                k <= members.len(),
                edges_paired(batch@),
                adopt_from(members@, typ, 0, joined) == adopt_from(members@, typ, k as int, batch@),
            decreases members.len() - k,
        {
            link(
                &mut batch,
                MaybeDynamicId::Static(members[k].id),
                MaybeDynamicId::Dynamic(0),
                typ,
            );
            k = k + 1;
        }
        Outcome::Done(batch.build())
    }
}

} // verus!
