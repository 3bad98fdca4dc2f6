//! The principal record, the request that creates one and the changes that
//! can be asked of one.

use vstd::prelude::*;
use crate::error::text_of;
use crate::lists::{clone_codes, clone_texts};
use crate::types::{PrincipalAction, PrincipalField, Type};

verus! {

/// A storage quota: one number, or for a tenant one number per kind of
/// principal.
#[derive(Clone, Debug, PartialEq, Eq)]
pub enum Quota {
    Scalar(u64),
    PerType(Vec<u64>),
}

/// The mathematical value of a [`Quota`].
pub enum QuotaModel {
    Scalar(u64),
    PerType(Seq<u64>),
}

impl View for Quota {
    type V = QuotaModel;

    open spec fn view(&self) -> QuotaModel {
        match self {
            Quota::Scalar(n) => QuotaModel::Scalar(*n),
            Quota::PerType(list) => QuotaModel::PerType(list@),
        }
    }
}

/// The mathematical value of an optional quota.
pub open spec fn quota_of(q: Option<Quota>) -> Option<QuotaModel> {
    match q {
        Some(quota) => Some(quota@),
        None => None,
    }
}

/// A copy of an optional text.
pub fn clone_text(t: &Option<String>) -> (r: Option<String>)
    ensures
        text_of(r) == text_of(*t),
{
    match t {
        Some(s) => Some(s.clone()),
        None => None,
    }
}

/// A copy of an optional quota.
pub fn clone_quota(q: &Option<Quota>) -> (r: Option<Quota>)
    ensures
        quota_of(r) == quota_of(*q),
{
    match q {
        Some(Quota::Scalar(n)) => Some(Quota::Scalar(*n)),
        Some(Quota::PerType(list)) => Some(Quota::PerType(clone_codes(list))),
        None => None,
    }
}

/// A principal as it is stored under its identifier.
#[derive(Clone, Debug, PartialEq, Eq)]
pub struct Principal {
    pub id: u32,
    pub typ: Type,
    pub name: String,
    pub description: Option<String>,
    pub tenant: Option<u32>,
    pub quota: Option<Quota>,
    pub emails: Vec<String>,
    pub secrets: Vec<String>,
    pub enabled_permissions: Vec<u64>,
    pub disabled_permissions: Vec<u64>,
}

/// The mathematical value of a [`Principal`].
pub struct PrincipalModel {
    pub id: u32,
    pub typ: Type,
    pub name: Seq<char>,
    pub description: Option<Seq<char>>,
    pub tenant: Option<u32>,
    pub quota: Option<QuotaModel>,
    pub emails: Seq<Seq<char>>,
    pub secrets: Seq<Seq<char>>,
    pub enabled_permissions: Seq<u64>,
    pub disabled_permissions: Seq<u64>,
}

impl View for Principal {
    type V = PrincipalModel;

    open spec fn view(&self) -> PrincipalModel {
        PrincipalModel {
            id: self.id,
            typ: self.typ,
            name: self.name@,
            description: text_of(self.description),
            tenant: self.tenant,
            quota: quota_of(self.quota),
            emails: self.emails.deep_view(),
            secrets: self.secrets.deep_view(),
            enabled_permissions: self.enabled_permissions@,
            disabled_permissions: self.disabled_permissions@,
        }
    }
}

impl Principal {
    /// A principal of the given kind and name with nothing else set.
    pub fn new(typ: Type, name: String) -> (r: Principal)
        ensures
            r@ == PrincipalModel::bare(typ, name@),
    {
        let r = Principal {
            id: 0,
            typ,
            name,
            description: None,
            tenant: None,
            quota: None,
            emails: Vec::new(),
            secrets: Vec::new(),
            enabled_permissions: Vec::new(),
            disabled_permissions: Vec::new(),
        };
        assert(r.emails.deep_view() =~= Seq::empty());
        assert(r.secrets.deep_view() =~= Seq::empty());
        r
    }

    /// A copy of the record.
    pub fn duplicate(&self) -> (r: Principal)
        ensures
            r@ == self@,
    {
        Principal {
            id: self.id,
            typ: self.typ,
            name: self.name.clone(),
            description: clone_text(&self.description),
            tenant: self.tenant,
            quota: clone_quota(&self.quota),
            emails: clone_texts(&self.emails),
            secrets: clone_texts(&self.secrets),
            enabled_permissions: clone_codes(&self.enabled_permissions),
            disabled_permissions: clone_codes(&self.disabled_permissions),
        }
    }
}

impl PrincipalModel {
    /// The record of a principal of the given kind and name with nothing
    /// else set, before an identifier is assigned.
    pub open spec fn bare(typ: Type, name: Seq<char>) -> PrincipalModel {
        PrincipalModel {
            id: 0,
            typ,
            name,
            description: None,
            tenant: None,
            quota: None,
            emails: Seq::empty(),
            secrets: Seq::empty(),
            enabled_permissions: Seq::empty(),
            disabled_permissions: Seq::empty(),
        }
    }

    /// The record under another identifier.
    pub open spec fn with_id(self, id: u32) -> PrincipalModel {
        PrincipalModel { id, ..self }
    }
}

/// A principal record together with the hash of its stored bytes, by which
/// a later write can assert that the record has not changed meanwhile.
#[derive(Clone, Debug, PartialEq, Eq)]
pub struct HashedPrincipal {
    pub hash: u64,
    pub inner: Principal,
}

/// The mathematical value of a [`HashedPrincipal`].
pub struct HashedModel {
    pub hash: u64,
    pub inner: PrincipalModel,
}

impl View for HashedPrincipal {
    type V = HashedModel;

    open spec fn view(&self) -> HashedModel {
        HashedModel { hash: self.hash, inner: self.inner@ }
    }
}

impl HashedPrincipal {
    /// A copy of the record with its hash.
    pub fn duplicate(&self) -> (r: HashedPrincipal)
        ensures
            r@ == self@,
    {
        HashedPrincipal { hash: self.hash, inner: self.inner.duplicate() }
    }
}

/// What a caller submits to have a principal created. Other principals are
/// referred to by name and permissions by their registered names.
#[derive(Clone, Debug, PartialEq, Eq)]
pub struct PrincipalSet {
    pub typ: Type,
    pub name: String,
    pub description: Option<String>,
    pub tenant: Option<String>,
    pub quota: Option<Quota>,
    pub emails: Vec<String>,
    pub secrets: Vec<String>,
    pub members: Vec<String>,
    pub member_of: Vec<String>,
    pub lists: Vec<String>,
    pub roles: Vec<String>,
    pub enabled_permissions: Vec<String>,
    pub disabled_permissions: Vec<String>,
}

/// The mathematical value of a [`PrincipalSet`].
pub struct PrincipalSetModel {
    pub typ: Type,
    pub name: Seq<char>,
    pub description: Option<Seq<char>>,
    pub tenant: Option<Seq<char>>,
    pub quota: Option<QuotaModel>,
    pub emails: Seq<Seq<char>>,
    pub secrets: Seq<Seq<char>>,
    pub members: Seq<Seq<char>>,
    pub member_of: Seq<Seq<char>>,
    pub lists: Seq<Seq<char>>,
    pub roles: Seq<Seq<char>>,
    pub enabled_permissions: Seq<Seq<char>>,
    pub disabled_permissions: Seq<Seq<char>>,
}

impl View for PrincipalSet {
    type V = PrincipalSetModel;

    open spec fn view(&self) -> PrincipalSetModel {
        PrincipalSetModel {
            typ: self.typ,
            name: self.name@,
            description: text_of(self.description),
            tenant: text_of(self.tenant),
            quota: quota_of(self.quota),
            emails: self.emails.deep_view(),
            secrets: self.secrets.deep_view(),
            members: self.members.deep_view(),
            member_of: self.member_of.deep_view(),
            lists: self.lists.deep_view(),
            roles: self.roles.deep_view(),
            enabled_permissions: self.enabled_permissions.deep_view(),
            disabled_permissions: self.disabled_permissions.deep_view(),
        }
    }
}

impl PrincipalSet {
    /// A request for a principal of the given kind and name with nothing
    /// else set.
    pub fn new(typ: Type, name: String) -> (r: PrincipalSet)
        ensures
            r.typ == typ,
            r.name@ == name@,
            r.description is None,
            r.tenant is None,
            r.quota is None,
            r.emails@.len() == 0,
            r.secrets@.len() == 0,
            r.members@.len() == 0,
            r.member_of@.len() == 0,
            r.lists@.len() == 0,
            r.roles@.len() == 0,
            r.enabled_permissions@.len() == 0,
            r.disabled_permissions@.len() == 0,
    {
        PrincipalSet {
            typ,
            name,
            description: None,
            tenant: None,
            quota: None,
            emails: Vec::new(),
            secrets: Vec::new(),
            members: Vec::new(),
            member_of: Vec::new(),
            lists: Vec::new(),
            roles: Vec::new(),
            enabled_permissions: Vec::new(),
            disabled_permissions: Vec::new(),
        }
    }
}

/// The value that a change carries.
#[derive(Clone, Debug, PartialEq, Eq)]
pub enum PrincipalValue {
    String(String),
    StringList(Vec<String>),
    Integer(u64),
    IntegerList(Vec<u64>),
}

/// The mathematical value of a [`PrincipalValue`].
pub enum ValueModel {
    String(Seq<char>),
    StringList(Seq<Seq<char>>),
    Integer(u64),
    IntegerList(Seq<u64>),
}

impl View for PrincipalValue {
    type V = ValueModel;

    open spec fn view(&self) -> ValueModel {
        match self {
            PrincipalValue::String(s) => ValueModel::String(s@),
            PrincipalValue::StringList(l) => ValueModel::StringList(l.deep_view()),
            PrincipalValue::Integer(n) => ValueModel::Integer(*n),
            PrincipalValue::IntegerList(l) => ValueModel::IntegerList(l@),
        }
    }
}

/// One requested change: what to do, to which field, with which value.
#[derive(Clone, Debug, PartialEq, Eq)]
pub struct PrincipalUpdate {
    pub action: PrincipalAction,
    pub field: PrincipalField,
    pub value: PrincipalValue,
}

/// The mathematical value of a [`PrincipalUpdate`].
pub struct ChangeModel {
    pub action: PrincipalAction,
    pub field: PrincipalField,
    pub value: ValueModel,
}

impl View for PrincipalUpdate {
    type V = ChangeModel;

    open spec fn view(&self) -> ChangeModel {
        ChangeModel { action: self.action, field: self.field, value: self.value@ }
    }
}

impl DeepView for PrincipalUpdate {
    type V = ChangeModel;

    open spec fn deep_view(&self) -> ChangeModel {
        self@
    }
}

impl PrincipalUpdate {
    /// The change that replaces a field by a value.
    pub fn set(field: PrincipalField, value: PrincipalValue) -> (r: PrincipalUpdate)
        ensures
            r == (PrincipalUpdate { action: PrincipalAction::Replace, field, value }),
    {
        PrincipalUpdate { action: PrincipalAction::Replace, field, value }
    }

    /// The change that adds one item to a field.
    pub fn add_item(field: PrincipalField, value: PrincipalValue) -> (r: PrincipalUpdate)
        ensures
            r == (PrincipalUpdate { action: PrincipalAction::AddItem, field, value }),
    {
        PrincipalUpdate { action: PrincipalAction::AddItem, field, value }
    }

    /// The change that removes one item from a field.
    pub fn remove_item(field: PrincipalField, value: PrincipalValue) -> (r: PrincipalUpdate)
        ensures
            r == (PrincipalUpdate { action: PrincipalAction::RemoveItem, field, value }),
    {
        PrincipalUpdate { action: PrincipalAction::RemoveItem, field, value }
    }
}

/// How a request names the principal it is about.
#[derive(Clone, Copy, Debug, PartialEq, Eq)]
pub enum QueryBy<'a> {
    Name(&'a str),
    Id(u32),
}

} // verus!
