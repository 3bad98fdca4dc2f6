//! Turning the names in a request into what they stand for: principals by
//! the name index, domains, permissions by the registry, and the principal
//! that the request is about.

use vstd::prelude::*;
use crate::error::{DirectoryError, Fault};
use crate::lists::has_code;
use crate::messages::{invalid_permission, invalid_permission_fault};
use crate::principal::QueryBy;
use crate::snapshot::{agrees, Known, Outcome, Question, Snapshot, Step};
use crate::text::{domain_of, domain_part, owned};
use crate::types::{PrincipalField, PrincipalInfo, Type};

verus! {

/// The mathematical value of a [`QueryBy`].
pub enum Selector {
    Name(Seq<char>),
    Id(u32),
}

impl<'a> View for QueryBy<'a> {
    type V = Selector;

    open spec fn view(&self) -> Selector {
        match self {
            QueryBy::Name(name) => Selector::Name(name@),
            QueryBy::Id(id) => Selector::Id(*id),
        }
    }
}

/// The identifier of the principal that a request is about.
pub open spec fn id_step(known: Known, by: Selector) -> Step<u32> {
    match by {
        Selector::Id(id) => Step::Done(id),
        Selector::Name(name) => match known.info(name) {
            None => Step::Ask(Question::Info(name)),
            Some(None) => Step::Fail(Fault::NotFound(name)),
            Some(Some(info)) => Step::Done(info.id),
        },
    }
}

/// The identifier of the principal that a request is about.
pub fn resolve_id(snapshot: &Snapshot, by: &QueryBy) -> (r: Outcome<u32>)
    ensures
        agrees(r, id_step(snapshot@, by@), |id: u32, m: u32| id == m),
{
    match by {
        QueryBy::Id(id) => Outcome::Done(*id),
        QueryBy::Name(name) => match snapshot.info(name) {
            Err(query) => Outcome::Ask(query),
            Ok(None) => Outcome::Fail(DirectoryError::NotFound(owned(name))),
            Ok(Some(info)) => Outcome::Done(info.id),
        },
    }
}

/// Whether what the name index holds is a domain in the sight of `tenant`.
pub open spec fn is_domain_for(found: Option<PrincipalInfo>, tenant: Option<u32>) -> bool {
    found matches Some(info) && info.typ == Type::Domain && info.visible_to(tenant)
}

/// The domain of `name`, if it has one that is a domain principal in the
/// sight of `tenant`.
pub open spec fn domain_step(known: Known, name: Seq<char>, tenant: Option<u32>) -> Step<
    Option<Seq<char>>,
> {
    match domain_part(name) {
        None => Step::Done(None),
        Some(domain) => match known.info(domain) {
            None => Step::Ask(Question::Info(domain)),
            Some(found) => if is_domain_for(found, tenant) {
                Step::Done(Some(domain))
            } else {
                Step::Done(None)
            },
        },
    }
}

/// Whether what the name index holds is a domain in the sight of `tenant`.
pub fn is_domain(found: &Option<PrincipalInfo>, tenant: Option<u32>) -> (r: bool)
    ensures
        r == is_domain_for(*found, tenant),
{
    match found {
        Some(info) => info.typ == Type::Domain && info.has_tenant_access(tenant),
        None => false,
    }
}

/// The domain of `name`, if it is a domain principal in the sight of `tenant`.
pub fn valid_domain(snapshot: &Snapshot, name: &str, tenant: Option<u32>) -> (r: Outcome<
    Option<String>,
>)
    ensures
        agrees(
            r,
            domain_step(snapshot@, name@, tenant),
            |d: Option<String>, m: Option<Seq<char>>| crate::error::text_of(d) == m,
        ),
{
    match domain_of(name) {
        None => Outcome::Done(None),
        Some(domain) => match snapshot.info(domain.as_str()) {
            Err(query) => Outcome::Ask(query),
            Ok(found) => if is_domain(&found, tenant) {
                Outcome::Done(Some(domain))
            } else {
                Outcome::Done(None)
            },
        },
    }
}

/// What the name index holds, if it is in the sight of `tenant`.
pub open spec fn visible_info(found: Option<PrincipalInfo>, tenant: Option<u32>) -> Option<
    PrincipalInfo,
> {
    match found {
        Some(info) => if info.visible_to(tenant) {
            Some(info)
        } else {
            None
        },
        None => None,
    }
}

/// The principal that `name` stands for in a membership field: the one of
/// that name in the sight of `tenant`, else, in a `Roles` field, the
/// built-in role of that name.
pub open spec fn target_step(
    known: Known,
    field: PrincipalField,
    name: Seq<char>,
    tenant: Option<u32>,
) -> Step<PrincipalInfo> {
    match known.info(name) {
        None => Step::Ask(Question::Info(name)),
        Some(found) => match visible_info(found, tenant) {
            Some(info) => Step::Done(info),
            None => match field.builtin_role_info(name) {
                Some(info) => Step::Done(info),
                None => Step::Fail(Fault::NotFound(name)),
            },
        },
    }
}

/// The principal that `name` stands for in a membership field.
pub fn resolve_target(
    snapshot: &Snapshot,
    field: PrincipalField,
    name: &str,
    tenant: Option<u32>,
) -> (r: Outcome<PrincipalInfo>)
    ensures
        agrees(
            r,
            target_step(snapshot@, field, name@, tenant),
            |i: PrincipalInfo, m: PrincipalInfo| i == m,
        ),
{
    let found = match snapshot.info(name) {
        Err(query) => {
            return Outcome::Ask(query);
        },
        Ok(found) => found,
    };
    match found {
        Some(info) => {
            if info.has_tenant_access(tenant) {
                return Outcome::Done(info);
            }
        },
        None => {},
    }
    match field.map_internal_roles(name) {
        Some(info) => Outcome::Done(info),
        None => Outcome::Fail(DirectoryError::NotFound(owned(name))),
    }
}

/// The identifier that `name` stands for when a membership is ended: that
/// of the principal of that name, else, in a `Roles` field, that of the
/// built-in role of that name.
pub open spec fn peer_id_step(known: Known, field: PrincipalField, name: Seq<char>) -> Step<
    Option<u32>,
> {
    match known.info(name) {
        None => Step::Ask(Question::Info(name)),
        Some(Some(info)) => Step::Done(Some(info.id)),
        Some(None) => Step::Done(field.builtin_role(name)),
    }
}

/// The identifier that `name` stands for when a membership is ended.
pub fn resolve_peer_id(snapshot: &Snapshot, field: PrincipalField, name: &str) -> (r: Outcome<
    Option<u32>,
>)
    ensures
        agrees(
            r,
            peer_id_step(snapshot@, field, name@),
            |i: Option<u32>, m: Option<u32>| i == m,
        ),
{
    match snapshot.info(name) {
        Err(query) => Outcome::Ask(query),
        Ok(Some(info)) => Outcome::Done(Some(info.id)),
        Ok(None) => Outcome::Done(field.map_internal_role_name(name)),
    }
}

/// The number of the permission called `name`.
pub open spec fn permission_step(known: Known, field: PrincipalField, name: Seq<char>) -> Step<
    u64,
> {
    match known.permission(name) {
        None => Step::Ask(Question::Permission(name)),
        Some(None) => Step::Fail(invalid_permission_fault(field, name)),
        Some(Some(id)) => Step::Done(id),
    }
}

/// The number of the permission called `name`.
pub fn resolve_permission(snapshot: &Snapshot, field: PrincipalField, name: &str) -> (r: Outcome<
    u64,
>)
    ensures
        agrees(r, permission_step(snapshot@, field, name@), |i: u64, m: u64| i == m),
{
    match snapshot.permission(name) {
        Err(query) => Outcome::Ask(query),
        Ok(None) => Outcome::Fail(invalid_permission(field, name)),
        Ok(Some(id)) => Outcome::Done(id),
    }
}

/// The numbers of the permissions called `names` from position `from` on,
/// each once, behind those already found.
pub open spec fn permissions_from(
    known: Known,
    field: PrincipalField,
    names: Seq<Seq<char>>,
    from: int,
    found: Seq<u64>,
) -> Step<Seq<u64>>
    decreases names.len() - from,
{
    if from < 0 || from >= names.len() {
        Step::Done(found)
    } else {
        match permission_step(known, field, names[from]) {
            Step::Ask(question) => Step::Ask(question),
            Step::Fail(fault) => Step::Fail(fault),
            Step::Done(id) => permissions_from(
                known,
                field,
                names,
                from + 1,
                if found.contains(id) {
                    found
                } else {
                    found.push(id)
                },
            ),
        }
    }
}

/// The numbers of the permissions called `names`, each once, in the order
/// of their first mention.
pub open spec fn permissions_step(known: Known, field: PrincipalField, names: Seq<Seq<char>>) -> Step<
    Seq<u64>,
> {
    permissions_from(known, field, names, 0, Seq::empty())
}

/// The numbers of the permissions called `names`, each once.
#[verifier::loop_isolation(false)]
pub fn resolve_permissions(snapshot: &Snapshot, field: PrincipalField, names: &Vec<String>) -> (r:
    Outcome<Vec<u64>>)
    ensures
        agrees(
            r,
            permissions_step(snapshot@, field, names.deep_view()),
            |list: Vec<u64>, m: Seq<u64>| list@ == m,
        ),
{
    let mut found: Vec<u64> = Vec::new();
    let mut i: usize = 0;
    while i < names.len()
        invariant
            i <= names.len(),
            permissions_step(snapshot@, field, names.deep_view()) == permissions_from(
                snapshot@,
                field,
                names.deep_view(),
                i as int,
                found@,
            ),
        decreases names.len() - i,
    {
        assert(names.deep_view()[i as int] == names[i as int]@);
        match resolve_permission(snapshot, field, names[i].as_str()) {
            Outcome::Ask(query) => {
                return Outcome::Ask(query);
            },
            Outcome::Fail(e) => {
                return Outcome::Fail(e);
            },
            Outcome::Done(id) => {
                if !has_code(&found, id) {
                    found.push(id);
                }
            },
        }
        i = i + 1;
    }
    Outcome::Done(found)
}

/// Whether a new address may be taken: it receives no mail yet and its
/// domain, if it has one, is served locally.
pub open spec fn admit_email_step(known: Known, email: Seq<char>) -> Step<()> {
    match known.rcpt(email) {
        None => Step::Ask(Question::Rcpt(email)),
        Some(true) => Step::Fail(Fault::AlreadyExists(PrincipalField::Emails, email)),
        Some(false) => match domain_part(email) {
            None => Step::Done(()),
            Some(domain) => match known.local_domain(domain) {
                None => Step::Ask(Question::LocalDomain(domain)),
                Some(false) => Step::Fail(Fault::NotFound(domain)),
                Some(true) => Step::Done(()),
            },
        },
    }
}

/// Whether a new address may be taken.
pub fn admit_email(snapshot: &Snapshot, email: &str) -> (r: Outcome<()>)
    ensures
        agrees(r, admit_email_step(snapshot@, email@), |u: (), m: ()| true),
{
    match snapshot.rcpt(email) {
        Err(query) => {
            return Outcome::Ask(query);
        },
        Ok(true) => {
            return Outcome::Fail(
                DirectoryError::AlreadyExists(PrincipalField::Emails, owned(email)),
            );
        },
        Ok(false) => {},
    }
    match domain_of(email) {
        None => Outcome::Done(()),
        Some(domain) => match snapshot.is_local_domain(domain.as_str()) {
            Err(query) => Outcome::Ask(query),
            Ok(false) => Outcome::Fail(DirectoryError::NotFound(domain)),
            Ok(true) => Outcome::Done(()),
        },
    }
}

} // verus!
