//! The changes that touch nothing but the principal record itself: secrets,
//! description, quota and permissions.

use vstd::prelude::*;
use crate::lists::{
    deep_view_push, excluding, has_text, remove_code, remove_texts, surviving, Removal, Taken,
};
use crate::principal::{Principal, PrincipalModel, Quota, QuotaModel};
use crate::text::{app_password, is_app_password, is_otp_auth, otp_auth, owned};
use crate::types::{PrincipalField, Type};

verus! {

/// Greatest length of a tenant's list of quotas per kind of principal.
pub open spec fn quota_list_limit() -> int {
    Type::Other.code() + 1
}

/// Which secrets the removal of `secret` takes out: for an application
/// password or a one-time-password address every secret that begins with
/// it, for another text every secret equal to it, and for the empty text
/// every plain password.
pub open spec fn secret_removal(secret: Seq<char>) -> Taken {
    if app_password(secret) || otp_auth(secret) {
        Taken::Prefixed(secret)
    } else if secret.len() > 0 {
        Taken::Equal(secret)
    } else {
        Taken::Plain
    }
}

impl PrincipalModel {
    /// The record with its secrets replaced.
    pub open spec fn with_secrets(self, secrets: Seq<Seq<char>>) -> PrincipalModel {
        PrincipalModel { secrets, ..self }
    }

    /// The record with one more secret, unless it holds it already. A
    /// one-time-password address goes to the front, anything else to the end.
    pub open spec fn add_secret(self, secret: Seq<char>) -> PrincipalModel {
        if self.secrets.contains(secret) {
            self
        } else if otp_auth(secret) {
            PrincipalModel { secrets: seq![secret] + self.secrets, ..self }
        } else {
            PrincipalModel { secrets: self.secrets.push(secret), ..self }
        }
    }

    /// The record without the secrets that the removal of `secret` takes
    /// out.
    pub open spec fn remove_secret(self, secret: Seq<char>) -> PrincipalModel {
        PrincipalModel { secrets: surviving(self.secrets, secret_removal(secret)), ..self }
    }

    /// The record with its description replaced; the empty text removes it.
    pub open spec fn with_description(self, description: Seq<char>) -> PrincipalModel {
        if description.len() > 0 {
            PrincipalModel { description: Some(description), ..self }
        } else {
            PrincipalModel { description: None, ..self }
        }
    }

    /// The record with its quota replaced.
    pub open spec fn with_quota(self, quota: Option<QuotaModel>) -> PrincipalModel {
        PrincipalModel { quota, ..self }
    }

    /// The permissions that a field holds.
    pub open spec fn permissions(self, field: PrincipalField) -> Seq<u64> {
        if field == PrincipalField::EnabledPermissions {
            self.enabled_permissions
        } else {
            self.disabled_permissions
        }
    }

    /// The record with the permissions of a field replaced.
    pub open spec fn with_permissions(self, field: PrincipalField, list: Seq<u64>) -> PrincipalModel {
        if field == PrincipalField::EnabledPermissions {
            PrincipalModel { enabled_permissions: list, ..self }
        } else {
            PrincipalModel { disabled_permissions: list, ..self }
        }
    }

    /// The record with one more permission at the end of a field.
    pub open spec fn add_permission(self, field: PrincipalField, id: u64) -> PrincipalModel {
        self.with_permissions(field, self.permissions(field).push(id))
    }

    /// The record without a permission in a field.
    pub open spec fn remove_permission(self, field: PrincipalField, id: u64) -> PrincipalModel {
        self.with_permissions(field, excluding(self.permissions(field), id))
    }

    /// The record under another name.
    pub open spec fn with_name(self, name: Seq<char>) -> PrincipalModel {
        PrincipalModel { name, ..self }
    }

    /// The record under another tenant, or under none.
    pub open spec fn with_tenant(self, tenant: Option<u32>) -> PrincipalModel {
        PrincipalModel { tenant, ..self }
    }

    /// The record with its addresses replaced.
    pub open spec fn with_emails(self, emails: Seq<Seq<char>>) -> PrincipalModel {
        PrincipalModel { emails, ..self }
    }
}

impl Principal {
    /// Replaces the secrets.
    pub fn set_secrets(&mut self, secrets: Vec<String>)
        ensures
            final(self)@ == old(self)@.with_secrets(secrets.deep_view()),
    {
        self.secrets = secrets;
    }

    /// Adds a secret, unless the record holds it.
    pub fn add_secret(&mut self, secret: &str)
        ensures
            final(self)@ == old(self)@.add_secret(secret@),
    {
        if !has_text(&self.secrets, secret) {
            let item = owned(secret);
            if is_otp_auth(secret) {
                self.secrets.insert(0, item);
                assert(self.secrets.deep_view() =~= seq![secret@] + old(self).secrets.deep_view());
            } else {
                self.secrets.push(item);
                proof {
                    deep_view_push(old(self).secrets, self.secrets, item);
                }
            }
        }
    }

    /// Removes the secrets that the removal of `secret` takes out.
    pub fn remove_secret(&mut self, secret: &str)
        ensures
            final(self)@ == old(self)@.remove_secret(secret@),
    {
        let removal = if is_app_password(secret) || is_otp_auth(secret) {
            Removal::Prefixed(secret)
        } else if !secret.is_empty() {
            Removal::Equal(secret)
        } else {
            Removal::Plain
        };
        self.secrets = remove_texts(&self.secrets, &removal);
    }

    /// Replaces the description; the empty text removes it.
    pub fn set_description(&mut self, description: String)
        ensures
            final(self)@ == old(self)@.with_description(description@),
    {
        if !description.as_str().is_empty() {
            self.description = Some(description);
        } else {
            self.description = None;
        }
    }

    /// Replaces the quota.
    pub fn set_quota(&mut self, quota: Option<Quota>)
        ensures
            final(self)@ == old(self)@.with_quota(crate::principal::quota_of(quota)),
    {
        self.quota = quota;
    }

    /// Replaces the permissions of a field.
    pub fn set_permissions(&mut self, field: PrincipalField, list: Vec<u64>)
        ensures
            final(self)@ == old(self)@.with_permissions(field, list@),
    {
        match field {
            PrincipalField::EnabledPermissions => {
                self.enabled_permissions = list;
            },
            _ => {
                self.disabled_permissions = list;
            },
        }
    }

    /// Adds a permission at the end of a field.
    pub fn add_permission(&mut self, field: PrincipalField, id: u64)
        ensures
            final(self)@ == old(self)@.add_permission(field, id),
    {
        match field {
            PrincipalField::EnabledPermissions => {
                self.enabled_permissions.push(id);
            },
            _ => {
                self.disabled_permissions.push(id);
            },
        }
    }

    /// Removes a permission from a field.
    pub fn remove_permission(&mut self, field: PrincipalField, id: u64)
        ensures
            final(self)@ == old(self)@.remove_permission(field, id),
    {
        match field {
            PrincipalField::EnabledPermissions => {
                self.enabled_permissions = remove_code(&self.enabled_permissions, id);
            },
            _ => {
                self.disabled_permissions = remove_code(&self.disabled_permissions, id);
            },
        }
    }

    /// Replaces the name.
    pub fn set_name(&mut self, name: String)
        ensures
            final(self)@ == old(self)@.with_name(name@),
    {
        self.name = name;
    }

    /// Replaces the tenant.
    pub fn set_tenant(&mut self, tenant: Option<u32>)
        ensures
            final(self)@ == old(self)@.with_tenant(tenant),
    {
        self.tenant = tenant;
    }

    /// Replaces the addresses.
    pub fn set_emails(&mut self, emails: Vec<String>)
        ensures
            final(self)@ == old(self)@.with_emails(emails.deep_view()),
    {
        self.emails = emails;
    }
}

} // verus!
