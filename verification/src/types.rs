//! The data model: principals, their kinds and fields, the denormalised
//! index payload, and the change requests that the update path understands.

use vstd::prelude::*;

verus! {

/// Identifier of the built-in administrator role.
pub const ROLE_ADMIN: u32 = 0xFFFF_FFFF;

/// Identifier of the built-in tenant administrator role.
pub const ROLE_TENANT_ADMIN: u32 = 0xFFFF_FFFE;

/// Identifier of the built-in user role.
pub const ROLE_USER: u32 = 0xFFFF_FFFD;

/// Whether `id` is one of the built-in role identifiers, which may be the
/// target of a role edge without any principal record behind them.
pub open spec fn is_builtin_role(id: u32) -> bool {
    id == ROLE_ADMIN || id == ROLE_TENANT_ADMIN || id == ROLE_USER
}

/// The kind of a principal.
#[derive(Clone, Copy, Debug, PartialEq, Eq, Structural, Hash)]
pub enum Type {
    Individual,
    Group,
    Resource,
    Location,
    List,
    Other,
    Domain,
    Tenant,
    Role,
}

impl Type {
    /// The stable one-byte code under which a kind is stored.
    pub open spec fn code(self) -> u8 {
        match self {
            Type::Individual => 0,
            Type::Group => 1,
            Type::Resource => 2,
            Type::Location => 3,
            Type::List => 5,
            Type::Other => 6,
            Type::Domain => 7,
            Type::Tenant => 8,
            Type::Role => 9,
        }
    }

    /// The kind that a stored code stands for. Code 4 is a retired kind that
    /// reads back as an individual; every unassigned code reads as `Other`.
    pub open spec fn of_code(value: u8) -> Type {
        if value == 0 || value == 4 {
            Type::Individual
        } else if value == 1 {
            Type::Group
        } else if value == 2 {
            Type::Resource
        } else if value == 3 {
            Type::Location
        } else if value == 5 {
            Type::List
        } else if value == 7 {
            Type::Domain
        } else if value == 8 {
            Type::Tenant
        } else if value == 9 {
            Type::Role
        } else {
            Type::Other
        }
    }

    /// The lower-case name of a kind, as it appears in messages.
    pub open spec fn label(self) -> Seq<char> {
        match self {
            Type::Individual => "individual"@,
            Type::Group => "group"@,
            Type::Resource => "resource"@,
            Type::Location => "location"@,
            Type::List => "list"@,
            Type::Other => "other"@,
            Type::Domain => "domain"@,
            Type::Tenant => "tenant"@,
            Type::Role => "role"@,
        }
    }

    /// The code under which the kind is stored.
    pub fn to_u8(self) -> (r: u8)
        ensures
            r == self.code(),
    {
        match self {
            Type::Individual => 0,
            Type::Group => 1,
            Type::Resource => 2,
            Type::Location => 3,
            Type::List => 5,
            Type::Other => 6,
            Type::Domain => 7,
            Type::Tenant => 8,
            Type::Role => 9,
        }
    }

    /// The kind that a stored code stands for.
    pub fn from_u8(value: u8) -> (r: Type)
        ensures
            r == Type::of_code(value),
    {
        match value {
            0 | 4 => Type::Individual,
            1 => Type::Group,
            2 => Type::Resource,
            3 => Type::Location,
            5 => Type::List,
            7 => Type::Domain,
            8 => Type::Tenant,
            9 => Type::Role,
            _ => Type::Other,
        }
    }

    /// The name, as it appears in messages.
    pub fn as_str(self) -> (r: &'static str)
        ensures
            r@ == self.label(),
    {
        match self {
            Type::Individual => "individual",
            Type::Group => "group",
            Type::Resource => "resource",
            Type::Location => "location",
            Type::List => "list",
            Type::Other => "other",
            Type::Domain => "domain",
            Type::Tenant => "tenant",
            Type::Role => "role",
        }
    }

    /// Whether a principal of kind `member` may be listed among the members
    /// of a principal of kind `self`.
    pub open spec fn admits(self, member: Type) -> bool {
        match self {
            Type::Group | Type::List => member == Type::Individual || member == Type::Group,
            Type::Resource => member == Type::Resource,
            Type::Location => member == Type::Location || member == Type::Resource || member
                == Type::Individual || member == Type::Group || member == Type::Other,
            Type::Role => member == Type::Role,
            Type::Individual | Type::Domain | Type::Tenant | Type::Other => false,
        }
    }

    /// The kinds that `self` admits as members, in the order in which they
    /// are named when a member is refused.
    pub open spec fn admitted(self) -> Seq<Type> {
        match self {
            Type::Group | Type::List => seq![Type::Individual, Type::Group],
            Type::Resource => seq![Type::Resource],
            Type::Location => seq![
                Type::Location,
                Type::Resource,
                Type::Individual,
                Type::Group,
                Type::Other,
            ],
            Type::Role => seq![Type::Role],
            Type::Individual | Type::Domain | Type::Tenant | Type::Other => seq![],
        }
    }

    /// Whether a principal of kind `member` may be a member of one of this
    /// kind.
    pub fn allows_member(self, member: Type) -> (r: bool)
        ensures
            r == self.admits(member),
            r == self.admitted().contains(member),
    {
        proof {
            let s = self.admitted();
            if self.admits(member) {
                assert(exists|i: int| 0 <= i < s.len() && s[i] == member) by {
                    if s.len() > 0 && s[0] == member {
                    } else if s.len() > 1 && s[1] == member {
                    } else if s.len() > 2 && s[2] == member {
                    } else if s.len() > 3 && s[3] == member {
                    } else {
                        assert(s[4] == member);
                    }
                }
            }
        }
        match self {
            Type::Group | Type::List => member == Type::Individual || member == Type::Group,
            Type::Resource => member == Type::Resource,
            Type::Location => member == Type::Location || member == Type::Resource || member
                == Type::Individual || member == Type::Group || member == Type::Other,
            Type::Role => member == Type::Role,
            Type::Individual | Type::Domain | Type::Tenant | Type::Other => false,
        }
    }

    /// Whether a scalar quota may be set on a principal of this kind.
    pub open spec fn has_quota(self) -> bool {
        self == Type::Individual || self == Type::Group || self == Type::Tenant
    }
}

/// Reading a kind back from its own code gives the kind.
pub proof fn type_code_round_trip(t: Type)
    ensures
        Type::of_code(t.code()) == t,
{
}

/// The fields of a principal that a request can name.
#[derive(Clone, Copy, Debug, PartialEq, Eq, Structural, Hash)]
pub enum PrincipalField {
    Name,
    Type,
    Quota,
    UsedQuota,
    Description,
    Secrets,
    Emails,
    MemberOf,
    Members,
    Tenant,
    Roles,
    Lists,
    EnabledPermissions,
    DisabledPermissions,
}

impl PrincipalField {
    /// The name of a field, as it appears in messages.
    pub open spec fn label(self) -> Seq<char> {
        match self {
            PrincipalField::Name => "name"@,
            PrincipalField::Type => "type"@,
            PrincipalField::Quota => "quota"@,
            PrincipalField::UsedQuota => "usedQuota"@,
            PrincipalField::Description => "description"@,
            PrincipalField::Secrets => "secrets"@,
            PrincipalField::Emails => "emails"@,
            PrincipalField::MemberOf => "memberOf"@,
            PrincipalField::Members => "members"@,
            PrincipalField::Tenant => "tenant"@,
            PrincipalField::Roles => "roles"@,
            PrincipalField::Lists => "lists"@,
            PrincipalField::EnabledPermissions => "enabledPermissions"@,
            PrincipalField::DisabledPermissions => "disabledPermissions"@,
        }
    }

    /// The name, as it appears in messages.
    pub fn as_str(self) -> (r: &'static str)
        ensures
            r@ == self.label(),
    {
        match self {
            PrincipalField::Name => "name",
            PrincipalField::Type => "type",
            PrincipalField::Quota => "quota",
            PrincipalField::UsedQuota => "usedQuota",
            PrincipalField::Description => "description",
            PrincipalField::Secrets => "secrets",
            PrincipalField::Emails => "emails",
            PrincipalField::MemberOf => "memberOf",
            PrincipalField::Members => "members",
            PrincipalField::Tenant => "tenant",
            PrincipalField::Roles => "roles",
            PrincipalField::Lists => "lists",
            PrincipalField::EnabledPermissions => "enabledPermissions",
            PrincipalField::DisabledPermissions => "disabledPermissions",
        }
    }

    /// Whether the field is one of the four that hold membership edges and
    /// therefore live outside the principal record.
    pub open spec fn is_membership(self) -> bool {
        self == PrincipalField::MemberOf || self == PrincipalField::Members || self
            == PrincipalField::Lists || self == PrincipalField::Roles
    }

    /// Whether the field holds edges that point from the principal to what
    /// it belongs to.
    pub open spec fn is_member_of(self) -> bool {
        self == PrincipalField::MemberOf || self == PrincipalField::Lists || self
            == PrincipalField::Roles
    }

    /// The kind that the target of an edge held by this field must have.
    pub open spec fn target_type(self) -> Type
        recommends
            self.is_member_of(),
    {
        if self == PrincipalField::MemberOf {
            Type::Group
        } else if self == PrincipalField::Lists {
            Type::List
        } else {
            Type::Role
        }
    }

    pub(crate) fn expected_type(self) -> (r: Type)
        requires
            self.is_member_of(),
        ensures
            r == self.target_type(),
    {
        match self {
            PrincipalField::MemberOf => Type::Group,
            PrincipalField::Lists => Type::List,
            _ => Type::Role,
        }
    }

    /// The built-in role that `name` stands for inside a `Roles` field.
    pub open spec fn builtin_role(self, name: Seq<char>) -> Option<u32> {
        if self != PrincipalField::Roles {
            None
        } else if name == "admin"@ {
            Some(ROLE_ADMIN)
        } else if name == "tenant-admin"@ {
            Some(ROLE_TENANT_ADMIN)
        } else if name == "user"@ {
            Some(ROLE_USER)
        } else {
            None
        }
    }

    /// The index payload of the built-in role that `name` stands for inside
    /// a `Roles` field: a tenant-less role under the built-in identifier.
    pub open spec fn builtin_role_info(self, name: Seq<char>) -> Option<PrincipalInfo> {
        match self.builtin_role(name) {
            Some(id) => Some(PrincipalInfo { id, typ: Type::Role, tenant: None }),
            None => None,
        }
    }

    /// The identifier of the built-in role that `name` stands for in a `Roles`
    /// field.
    pub fn map_internal_role_name(&self, name: &str) -> (r: Option<u32>)
        ensures
            r == self.builtin_role(name@),
            r matches Some(id) ==> is_builtin_role(id),
    {
        match self {
            PrincipalField::Roles => {
                if crate::text::same_text(name, "admin") {
                    Some(ROLE_ADMIN)
                } else if crate::text::same_text(name, "tenant-admin") {
                    Some(ROLE_TENANT_ADMIN)
                } else if crate::text::same_text(name, "user") {
                    Some(ROLE_USER)
                } else {
                    None
                }
            },
            _ => None,
        }
    }

    /// The index payload of the built-in role that `name` stands for in a
    /// `Roles` field.
    pub fn map_internal_roles(&self, name: &str) -> (r: Option<PrincipalInfo>)
        ensures
            r == self.builtin_role_info(name@),
    {
        match self.map_internal_role_name(name) {
            Some(role_id) => Some(PrincipalInfo::new(role_id, Type::Role, None)),
            None => None,
        }
    }
}

/// What a change does to the field it names.
#[derive(Clone, Copy, Debug, PartialEq, Eq, Structural, Hash)]
pub enum PrincipalAction {
    Replace,
    AddItem,
    RemoveItem,
}

/// What the name and e-mail indexes store for a principal, so that lookups
/// can filter by kind and tenant without loading the record.
#[derive(Clone, Copy, Debug, PartialEq, Eq)]
pub struct PrincipalInfo {
    pub id: u32,
    pub typ: Type,
    pub tenant: Option<u32>,
}

impl PrincipalInfo {
    /// The payload from its parts.
    pub fn new(id: u32, typ: Type, tenant: Option<u32>) -> (r: PrincipalInfo)
        ensures
            r == (PrincipalInfo { id, typ, tenant }),
    {
        PrincipalInfo { id, typ, tenant }
    }

    /// Whether an operation scoped to `scope` may refer to this principal:
    /// an unscoped operation may refer to any, a scoped one only to
    /// principals of that very tenant.
    pub open spec fn visible_to(self, scope: Option<u32>) -> bool {
        scope is None || self.tenant == scope
    }

    /// Whether an operation scoped to `tenant_id` may refer to this principal.
    pub fn has_tenant_access(&self, tenant_id: Option<u32>) -> (r: bool)
        ensures
            r == self.visible_to(tenant_id),
    {
        match tenant_id {
            None => true,
            Some(scope) => match self.tenant {
                Some(own) => own == scope,
                None => false,
            },
        }
    }
}

/// An index payload whose identifier is only known once the batch that
/// carries it has been assigned a fresh document id.
#[derive(Clone, Copy, Debug, PartialEq, Eq)]
pub struct DynamicPrincipalInfo {
    pub typ: Type,
    pub tenant: Option<u32>,
}

impl DynamicPrincipalInfo {
    /// The payload from its parts.
    pub fn new(typ: Type, tenant: Option<u32>) -> (r: DynamicPrincipalInfo)
        ensures
            r == (DynamicPrincipalInfo { typ, tenant }),
    {
        DynamicPrincipalInfo { typ, tenant }
    }

    /// The payload once the identifier is known.
    pub open spec fn bind(self, id: u32) -> PrincipalInfo {
        PrincipalInfo { id, typ: self.typ, tenant: self.tenant }
    }

    /// The payload once the identifier is known.
    pub fn with_id(&self, id: u32) -> (r: PrincipalInfo)
        ensures
            r == self.bind(id),
    {
        PrincipalInfo { id, typ: self.typ, tenant: self.tenant }
    }
}

/// One forward membership edge as read back from the store: the principal
/// at the far end and the kind recorded on the edge.
#[derive(Clone, Copy, Debug, PartialEq, Eq)]
pub struct MemberOf {
    pub principal_id: u32,
    pub typ: Type,
}

} // verus!
