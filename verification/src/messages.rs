//! The wording of the failures that the directory reports.

use vstd::prelude::*;
use vstd::string::*;
use crate::error::{DirectoryError, Fault};
use crate::text::{decimal, owned, quoted, to_decimal, to_quoted};
use crate::types::{PrincipalField, Type};

verus! {

/// Three texts in a row.
pub fn join3(a: &str, b: &str, c: &str) -> (r: String)
    ensures
        r@ == a@ + b@ + c@,
{
    let mut out = owned(a);
    out.append(b);
    out.append(c);
    out
}

/// What is wrong when a field holds an unacceptable value.
pub open spec fn invalid_value_text(field: PrincipalField) -> Seq<char> {
    "Invalid "@ + field.label() + " value"@
}

/// Why a principal of the wrong kind is refused.
pub open spec fn not_a_text(name: Seq<char>, typ: Type) -> Seq<char> {
    "Principal "@ + quoted(name) + " is not a "@ + typ.label() + "."@
}

/// Why a principal that is no tenant is refused as one.
pub open spec fn not_a_tenant_text(name: Seq<char>) -> Seq<char> {
    "Principal "@ + quoted(name) + " is not a tenant"@
}

/// Why an unknown permission is refused.
pub open spec fn invalid_permission_text(name: Seq<char>) -> Seq<char> {
    "Permission "@ + quoted(name) + " is invalid"@
}

/// The names of the kinds from position `from` on, separated by commas.
pub open spec fn type_list_from(types: Seq<Type>, from: int) -> Seq<char>
    decreases types.len() - from,
{
    if from < 0 || from >= types.len() {
        Seq::empty()
    } else if from + 1 == types.len() {
        types[from].label()
    } else {
        types[from].label() + ", "@ + type_list_from(types, from + 1)
    }
}

/// Why a member of an inadmissible kind is refused by an owner of kind
/// `owner`.
pub open spec fn not_one_of_text(name: Seq<char>, owner: Type) -> Seq<char> {
    "Principal "@ + quoted(name) + " is not one of "@ + type_list_from(owner.admitted(), 0)
        + "."@
}

/// The texts from position `from` up to `to`, separated by commas.
pub open spec fn name_list(names: Seq<Seq<char>>, from: int, to: int) -> Seq<char>
    decreases to - from,
{
    if from < 0 || from >= to || to > names.len() {
        Seq::empty()
    } else if from + 1 == to {
        names[from]
    } else {
        names[from] + ", "@ + name_list(names, from + 1, to)
    }
}

/// The members that keep a tenant from being deleted: all of them up to
/// five, else the first five and the number of the others.
pub open spec fn found_members_text(names: Seq<Seq<char>>) -> Seq<char> {
    if names.len() > 5 {
        name_list(names, 0, 5) + " and "@ + decimal((names.len() - 5) as u64) + " others"@
    } else {
        name_list(names, 0, names.len() as int)
    }
}

/// Why a tenant with members cannot be deleted.
pub open spec fn tenant_members_text(names: Seq<Seq<char>>) -> Seq<char> {
    "Tenant must have no members to be deleted: Found: "@ + found_members_text(names)
}

/// The failure of a name outside the domains of the tenant.
pub open spec fn invalid_name_fault() -> Fault {
    Fault::Error("Invalid principal name"@, Some("Principal name must include a valid domain"@))
}

/// The failure of a principal of the wrong kind in a membership field.
pub open spec fn not_a_fault(field: PrincipalField, name: Seq<char>, typ: Type) -> Fault {
    Fault::Error(invalid_value_text(field), Some(not_a_text(name, typ)))
}

/// The failure of a member of a kind that the owner does not admit.
pub open spec fn not_one_of_fault(name: Seq<char>, owner: Type) -> Fault {
    Fault::Error("Invalid members value"@, Some(not_one_of_text(name, owner)))
}

/// The failure of a principal that is named as a tenant and is none.
pub open spec fn not_a_tenant_fault(name: Seq<char>) -> Fault {
    Fault::Error("Not a tenant"@, Some(not_a_tenant_text(name)))
}

/// The failure of a permission that the registry does not know.
pub open spec fn invalid_permission_fault(field: PrincipalField, name: Seq<char>) -> Fault {
    Fault::Error(invalid_value_text(field), Some(invalid_permission_text(name)))
}

/// The failure of deleting a tenant that has principals.
pub open spec fn tenant_members_fault(names: Seq<Seq<char>>) -> Fault {
    Fault::Error("Tenant has members"@, Some(tenant_members_text(names)))
}

/// The failure of a name outside the domains of the tenant.
pub fn invalid_name() -> (r: DirectoryError)
    ensures
        r@ == invalid_name_fault(),
{
    DirectoryError::Error(
        owned("Invalid principal name"),
        Some(owned("Principal name must include a valid domain")),
    )
}

/// What is wrong when a field holds an unacceptable value.
pub fn invalid_value(field: PrincipalField) -> (r: String)
    ensures
        r@ == invalid_value_text(field),
{
    join3("Invalid ", field.as_str(), " value")
}

/// The failure of a principal of the wrong kind in a membership field.
pub fn not_a(field: PrincipalField, name: &str, typ: Type) -> (r: DirectoryError)
    ensures
        r@ == not_a_fault(field, name@, typ),
{
    let shown = to_quoted(name);
    let mut reason = join3("Principal ", shown.as_str(), " is not a ");
    reason.append(typ.as_str());
    reason.append(".");
    DirectoryError::Error(invalid_value(field), Some(reason))
}

/// The failure of a principal that is named as a tenant and is none.
pub fn not_a_tenant(name: &str) -> (r: DirectoryError)
    ensures
        r@ == not_a_tenant_fault(name@),
{
    let shown = to_quoted(name);
    DirectoryError::Error(
        owned("Not a tenant"),
        Some(join3("Principal ", shown.as_str(), " is not a tenant")),
    )
}

/// The failure of a permission that the registry does not know.
pub fn invalid_permission(field: PrincipalField, name: &str) -> (r: DirectoryError)
    ensures
        r@ == invalid_permission_fault(field, name@),
{
    let shown = to_quoted(name);
    DirectoryError::Error(
        invalid_value(field),
        Some(join3("Permission ", shown.as_str(), " is invalid")),
    )
}

/// The kinds that an owner admits as members, in the order of
/// [`Type::admitted`].
pub fn admitted_types(owner: Type) -> (r: Vec<Type>)
    ensures
        r@ == owner.admitted(),
{
    let mut out: Vec<Type> = Vec::new();
    match owner {
        Type::Group | Type::List => {
            out.push(Type::Individual);
            out.push(Type::Group);
        },
        Type::Resource => {
            out.push(Type::Resource);
        },
        Type::Location => {
            out.push(Type::Location);
            out.push(Type::Resource);
            out.push(Type::Individual);
            out.push(Type::Group);
            out.push(Type::Other);
        },
        Type::Role => {
            out.push(Type::Role);
        },
        Type::Individual | Type::Domain | Type::Tenant | Type::Other => {},
    }
    assert(out@ =~= owner.admitted());
    out
}

fn type_list(types: &Vec<Type>) -> (r: String)
    ensures
        r@ == type_list_from(types@, 0),
{
    let mut out = String::new();
    let mut i: usize = types.len();
    while i > 0
        invariant
            i <= types.len(),
            out@ == type_list_from(types@, i as int),
        decreases i,
    {
        i = i - 1;
        if i + 1 == types.len() {
            out = owned(types[i].as_str());
        } else {
            out = join3(types[i].as_str(), ", ", out.as_str());
        }
    }
    out
}

/// The failure of a member of a kind that the owner does not admit.
pub fn not_one_of(name: &str, owner: Type) -> (r: DirectoryError)
    ensures
        r@ == not_one_of_fault(name@, owner),
{
    let shown = to_quoted(name);
    let types = admitted_types(owner);
    let listed = type_list(&types);
    let mut reason = join3("Principal ", shown.as_str(), " is not one of ");
    reason.append(listed.as_str());
    reason.append(".");
    DirectoryError::Error(owned("Invalid members value"), Some(reason))
}

fn list_names(names: &Vec<String>, to: usize) -> (r: String)
    requires
        to <= names.len(),
    ensures
        r@ == name_list(names.deep_view(), 0, to as int),
{
    let mut out = String::new();
    let mut i: usize = to;
    while i > 0
        invariant
            i <= to <= names.len(),
            out@ == name_list(names.deep_view(), i as int, to as int),
        decreases i,
    {
        i = i - 1;
        if i + 1 == to {
            out = owned(names[i].as_str());
        } else {
            out = join3(names[i].as_str(), ", ", out.as_str());
        }
    }
    out
}

/// The failure of deleting a tenant that has principals.
pub fn tenant_has_members(names: &Vec<String>) -> (r: DirectoryError)
    ensures
        r@ == tenant_members_fault(names.deep_view()),
{
    let found = if names.len() > 5 {
        let first = list_names(names, 5);
        let others = to_decimal((names.len() - 5) as u64);
        let mut out = join3(first.as_str(), " and ", others.as_str());
        out.append(" others");
        out
    } else {
        list_names(names, names.len())
    };
    let mut reason = owned("Tenant must have no members to be deleted: Found: ");
    reason.append(found.as_str());
    DirectoryError::Error(owned("Tenant has members"), Some(reason))
}

} // verus!
