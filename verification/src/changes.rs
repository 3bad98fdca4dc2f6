//! The handlers of the update path: what each kind of change does to the
//! principal in flight and to the batch that will carry it.

use vstd::prelude::*;
use crate::batch::{edges_paired, BatchBuilder, BatchValue, OpModel, PayloadModel};
use crate::error::{DirectoryError, Fault};
use crate::index::{
    add_email, drop_email_op, drop_name_op, email_op, link, link_ops, name_op, remove_email,
    rename, unlink, unlink_ops,
};
use crate::keys::{ClassModel, DirectoryClass, MaybeDynamicId};
use crate::lists::{
    clone_ids, dedupe_texts, deep_view_push, distinct, has_id, has_text, lowercase_all, lowered,
    position_of, remove_texts, surviving, Removal, Taken,
};
use crate::messages::{
    invalid_name, invalid_name_fault, not_a, not_a_fault, not_a_tenant, not_a_tenant_fault,
    not_one_of, not_one_of_fault,
};
use crate::principal::{Principal, PrincipalModel};
use crate::resolve::{
    admit_email, admit_email_step, domain_step, permission_step, permissions_step, peer_id_step,
    resolve_peer_id, resolve_permission, resolve_permissions, resolve_target, target_step,
    valid_domain,
};
use crate::snapshot::{agrees, Known, Outcome, Question, Snapshot, Step};
use crate::text::{lowercase, owned, to_lowercase};
use crate::types::{PrincipalField, PrincipalInfo, Type};

verus! {

/// What stays the same throughout one update.
#[derive(Clone, Copy, Debug)]
pub struct Context {
    /// The principal that is updated.
    pub principal_id: u32,
    /// Its kind.
    pub typ: Type,
    /// The tenant on whose behalf the update is made, if any.
    pub tenant_id: Option<u32>,
    /// What the principal has used of its quota, where that is more than
    /// nothing and the update may move it to another tenant.
    pub used_quota: Option<i64>,
}

impl Context {
    /// Whether the usage, where known, is positive.
    pub open spec fn wf(self) -> bool {
        self.used_quota matches Some(used) ==> used > 0
    }

    /// What the e-mail index holds for the principal.
    pub open spec fn email_info(self) -> PrincipalInfo {
        PrincipalInfo { id: self.principal_id, typ: self.typ, tenant: None }
    }

    /// What the name index holds for the principal under `tenant`.
    pub open spec fn name_info(self, tenant: Option<u32>) -> PrincipalInfo {
        PrincipalInfo { id: self.principal_id, typ: self.typ, tenant }
    }

    /// The operations that tie the principal to `peer` through `field`: as
    /// a member of `peer`, or for the field `Members` with `peer` as its
    /// member. The forward edge carries the kind of the principal that the
    /// other is a member of.
    pub open spec fn link(self, field: PrincipalField, peer: PrincipalInfo) -> Seq<OpModel> {
        if field == PrincipalField::Members {
            link_ops(
                MaybeDynamicId::Static(peer.id),
                MaybeDynamicId::Static(self.principal_id),
                self.typ,
            )
        } else {
            link_ops(
                MaybeDynamicId::Static(self.principal_id),
                MaybeDynamicId::Static(peer.id),
                peer.typ,
            )
        }
    }

    /// The operations that end the tie between the principal and `peer`
    /// through `field`.
    pub open spec fn unlink(self, field: PrincipalField, peer: u32) -> Seq<OpModel> {
        if field == PrincipalField::Members {
            unlink_ops(MaybeDynamicId::Static(peer), MaybeDynamicId::Static(self.principal_id))
        } else {
            unlink_ops(MaybeDynamicId::Static(self.principal_id), MaybeDynamicId::Static(peer))
        }
    }

    /// Why `peer`, called `name`, cannot be tied to the principal through
    /// `field`, if it cannot: a member must be of a kind that the
    /// principal's kind admits, and what the principal is a member of must
    /// be of the kind that the field stands for.
    pub open spec fn refusal(self, field: PrincipalField, name: Seq<char>, peer: PrincipalInfo) -> Option<
        Fault,
    > {
        if field == PrincipalField::Members {
            if self.typ.admits(peer.typ) {
                None
            } else {
                Some(not_one_of_fault(name, self.typ))
            }
        } else if peer.typ == field.target_type() {
            None
        } else {
            Some(not_a_fault(field, name, field.target_type()))
        }
    }

    /// Ties the principal to `peer` through `field`.
    pub fn write_link(&self, batch: &mut BatchBuilder, field: PrincipalField, peer: &PrincipalInfo)
        ensures
            final(batch)@ == old(batch)@ + self.link(field, *peer),
            edges_paired(old(batch)@) ==> edges_paired(final(batch)@),
    {
        match field {
            PrincipalField::Members => link(
                batch,
                MaybeDynamicId::Static(peer.id),
                MaybeDynamicId::Static(self.principal_id),
                self.typ,
            ),
            _ => link(
                batch,
                MaybeDynamicId::Static(self.principal_id),
                MaybeDynamicId::Static(peer.id),
                peer.typ,
            ),
        }
    }

    /// Ends the tie between the principal and `peer` through `field`.
    pub fn write_unlink(&self, batch: &mut BatchBuilder, field: PrincipalField, peer: u32)
        ensures
            final(batch)@ == old(batch)@ + self.unlink(field, peer),
            edges_paired(old(batch)@) ==> edges_paired(final(batch)@),
    {
        match field {
            PrincipalField::Members => unlink(
                batch,
                MaybeDynamicId::Static(peer),
                MaybeDynamicId::Static(self.principal_id),
            ),
            _ => unlink(
                batch,
                MaybeDynamicId::Static(self.principal_id),
                MaybeDynamicId::Static(peer),
            ),
        }
    }

    pub(crate) fn refuse(
        &self,
        field: PrincipalField,
        name: &str,
        peer: &PrincipalInfo,
    ) -> (r: Option<DirectoryError>)
        requires
            field.is_membership(),
        ensures
            match self.refusal(field, name@, *peer) {
                Some(fault) => r matches Some(e) && e@ == fault,
                None => r is None,
            },
    {
        match field {
            PrincipalField::Members => {
                if self.typ.allows_member(peer.typ) {
                    None
                } else {
                    Some(not_one_of(name, self.typ))
                }
            },
            _ => {
                let expected = field.expected_type();
                if peer.typ == expected {
                    None
                } else {
                    Some(not_a(field, name, expected))
                }
            },
        }
    }
}

/// The principal in flight: the record as changed so far, its edges as
/// changed so far, and the operations gathered so far.
#[derive(Debug)]
pub struct UpdateState {
    pub principal: Principal,
    /// What the principal is a member of.
    pub member_of: Vec<u32>,
    /// The members of the principal.
    pub members: Vec<u32>,
    pub batch: BatchBuilder,
    /// What the name index is to hold for the principal.
    pub pinfo_name: PrincipalInfo,
}

/// The mathematical value of an [`UpdateState`].
pub struct StateModel {
    pub principal: PrincipalModel,
    pub member_of: Seq<u32>,
    pub members: Seq<u32>,
    pub batch: Seq<OpModel>,
    pub pinfo_name: PrincipalInfo,
}

impl View for UpdateState {
    type V = StateModel;

    open spec fn view(&self) -> StateModel {
        StateModel {
            principal: self.principal@,
            member_of: self.member_of@,
            members: self.members@,
            batch: self.batch@,
            pinfo_name: self.pinfo_name,
        }
    }
}

impl StateModel {
    /// The edges that a membership field speaks of.
    pub open spec fn peers(self, field: PrincipalField) -> Seq<u32> {
        if field == PrincipalField::Members {
            self.members
        } else {
            self.member_of
        }
    }

    /// The state with the edges of a membership field replaced.
    pub open spec fn with_peers(self, field: PrincipalField, peers: Seq<u32>) -> StateModel {
        if field == PrincipalField::Members {
            StateModel { members: peers, ..self }
        } else {
            StateModel { member_of: peers, ..self }
        }
    }

    /// The state with another record.
    pub open spec fn with_principal(self, principal: PrincipalModel) -> StateModel {
        StateModel { principal, ..self }
    }

    /// The state with another batch.
    pub open spec fn with_batch(self, batch: Seq<OpModel>) -> StateModel {
        StateModel { batch, ..self }
    }
}

/// Whether an outcome is the described one.
pub open spec fn state_agrees(r: Outcome<UpdateState>, step: Step<StateModel>) -> bool {
    agrees(r, step, |s: UpdateState, m: StateModel| s@ == m)
}

/// Whether a handler that started from `before` left the edge operations of
/// the batch paired, if they were.
pub open spec fn keeps_paired(before: Seq<OpModel>, r: Outcome<UpdateState>) -> bool {
    r matches Outcome::Done(s) ==> (edges_paired(before) ==> edges_paired(s@.batch))
}

/// Whether a new name is acceptable under the tenant's scope: an unscoped
/// update accepts any, a scoped one only a name in a domain of the tenant.
pub open spec fn scoped_name_step(known: Known, name: Seq<char>, tenant: Option<u32>) -> Step<
    bool,
> {
    if tenant is None {
        Step::Done(true)
    } else {
        match domain_step(known, name, tenant) {
            Step::Ask(question) => Step::Ask(question),
            Step::Fail(fault) => Step::Fail(fault),
            Step::Done(domain) => Step::Done(domain is Some),
        }
    }
}

/// Renaming: the lower-cased name, unless the principal has it already,
/// must be in a domain of the tenant where the update is scoped and must
/// be free; then the old name leaves the index and the new one enters it.
pub open spec fn rename_step(s: StateModel, c: Context, known: Known, raw: Seq<char>) -> Step<
    StateModel,
> {
    let name = lowercase(raw);
    if s.principal.name == name {
        Step::Done(s)
    } else {
        match scoped_name_step(known, name, c.tenant_id) {
            Step::Ask(question) => Step::Ask(question),
            Step::Fail(fault) => Step::Fail(fault),
            Step::Done(false) => Step::Fail(invalid_name_fault()),
            Step::Done(true) => match known.info(name) {
                None => Step::Ask(Question::Info(name)),
                Some(Some(_)) => Step::Fail(Fault::AlreadyExists(PrincipalField::Name, name)),
                Some(None) => Step::Done(
                    StateModel {
                        principal: s.principal.with_name(name),
                        batch: s.batch.push(drop_name_op(s.principal.name)).push(
                            name_op(name, PayloadModel::Info(s.pinfo_name)),
                        ),
                        ..s
                    },
                ),
            },
        }
    }
}

/// The operation that adds `by` to the usage counter of a tenant.
pub open spec fn usage_op(tenant: u32, by: int) -> OpModel {
    OpModel::Add { class: ClassModel::UsedQuota(tenant), by: by as i64 }
}

/// Moving the principal to another tenant, or to none: what it has used
/// moves from the old tenant's counter to the new one's, the record and the
/// name index take the new tenant.
pub open spec fn move_to_tenant(s: StateModel, c: Context, tenant: Option<u32>) -> StateModel {
    let left = match (c.used_quota, s.principal.tenant) {
        (Some(used), Some(old)) => s.batch.push(usage_op(old, -used)),
        _ => s.batch,
    };
    let joined = match (c.used_quota, tenant) {
        (Some(used), Some(new)) => left.push(usage_op(new, used as int)),
        _ => left,
    };
    StateModel {
        principal: s.principal.with_tenant(tenant),
        pinfo_name: c.name_info(tenant),
        batch: joined.push(name_op(s.principal.name, PayloadModel::Info(c.name_info(tenant)))),
        ..s
    }
}

/// Setting the tenant: the empty name takes the principal out of its
/// tenant; another name must be that of a tenant, to which the principal
/// moves unless it is there already.
pub open spec fn tenant_step(s: StateModel, c: Context, known: Known, name: Seq<char>) -> Step<
    StateModel,
> {
    if name.len() > 0 {
        match known.info(name) {
            None => Step::Ask(Question::Info(name)),
            Some(None) => Step::Fail(Fault::NotFound(name)),
            Some(Some(tenant)) => if tenant.typ != Type::Tenant {
                Step::Fail(not_a_tenant_fault(name))
            } else if s.principal.tenant == Some(tenant.id) {
                Step::Done(s)
            } else {
                Step::Done(move_to_tenant(s, c, Some(tenant.id)))
            },
        }
    } else if s.principal.tenant is Some {
        Step::Done(move_to_tenant(s, c, None))
    } else {
        Step::Done(s)
    }
}

/// The batch after every address of `emails` from position `from` on that
/// the principal does not have yet has been admitted and filed.
pub open spec fn admit_from(
    known: Known,
    c: Context,
    current: Seq<Seq<char>>,
    emails: Seq<Seq<char>>,
    from: int,
    batch: Seq<OpModel>,
) -> Step<Seq<OpModel>>
    decreases emails.len() - from,
{
    if from < 0 || from >= emails.len() {
        Step::Done(batch)
    } else if current.contains(emails[from]) {
        admit_from(known, c, current, emails, from + 1, batch)
    } else {
        match admit_email_step(known, emails[from]) {
            Step::Ask(question) => Step::Ask(question),
            Step::Fail(fault) => Step::Fail(fault),
            Step::Done(_) => admit_from(
                known,
                c,
                current,
                emails,
                from + 1,
                batch.push(email_op(emails[from], PayloadModel::Info(c.email_info()))),
            ),
        }
    }
}

/// The batch after every address of `current` from position `from` on that
/// is not among `emails` has been taken out of the index.
pub open spec fn retire_from(
    current: Seq<Seq<char>>,
    emails: Seq<Seq<char>>,
    from: int,
    batch: Seq<OpModel>,
) -> Seq<OpModel>
    decreases current.len() - from,
{
    if from < 0 || from >= current.len() {
        batch
    } else {
        retire_from(
            current,
            emails,
            from + 1,
            if emails.contains(current[from]) {
                batch
            } else {
                batch.push(drop_email_op(current[from]))
            },
        )
    }
}

/// Replacing the addresses by the lower-cased list without repetitions.
pub open spec fn set_emails_step(s: StateModel, c: Context, known: Known, raw: Seq<Seq<char>>) -> Step<
    StateModel,
> {
    let emails = distinct(lowered(raw));
    match admit_from(known, c, s.principal.emails, emails, 0, s.batch) {
        Step::Ask(question) => Step::Ask(question),
        Step::Fail(fault) => Step::Fail(fault),
        Step::Done(batch) => Step::Done(
            StateModel {
                principal: s.principal.with_emails(emails),
                batch: retire_from(s.principal.emails, emails, 0, batch),
                ..s
            },
        ),
    }
}

/// Adding one address in lower case, unless the principal has it.
pub open spec fn add_email_step(s: StateModel, c: Context, known: Known, raw: Seq<char>) -> Step<
    StateModel,
> {
    let email = lowercase(raw);
    if s.principal.emails.contains(email) {
        Step::Done(s)
    } else {
        match admit_email_step(known, email) {
            Step::Ask(question) => Step::Ask(question),
            Step::Fail(fault) => Step::Fail(fault),
            Step::Done(_) => Step::Done(
                StateModel {
                    principal: s.principal.with_emails(s.principal.emails.push(email)),
                    batch: s.batch.push(email_op(email, PayloadModel::Info(c.email_info()))),
                    ..s
                },
            ),
        }
    }
}

/// Removing one address in lower case, if the principal has it.
pub open spec fn remove_email_state(s: StateModel, raw: Seq<char>) -> StateModel {
    let email = lowercase(raw);
    if s.principal.emails.contains(email) {
        StateModel {
            principal: s.principal.with_emails(surviving(s.principal.emails, Taken::Equal(email))),
            batch: s.batch.push(drop_email_op(email)),
            ..s
        }
    } else {
        s
    }
}

/// The batch and the list of peers after every name from position `from`
/// on has been resolved, checked and, where the edge is new, tied.
pub open spec fn join_from(
    known: Known,
    c: Context,
    field: PrincipalField,
    current: Seq<u32>,
    names: Seq<Seq<char>>,
    from: int,
    batch: Seq<OpModel>,
    joined: Seq<u32>,
) -> Step<(Seq<OpModel>, Seq<u32>)>
    decreases names.len() - from,
{
    if from < 0 || from >= names.len() {
        Step::Done((batch, joined))
    } else {
        match target_step(known, field, names[from], c.tenant_id) {
            Step::Ask(question) => Step::Ask(question),
            Step::Fail(fault) => Step::Fail(fault),
            Step::Done(peer) => match c.refusal(field, names[from], peer) {
                Some(fault) => Step::Fail(fault),
                None => join_from(
                    known,
                    c,
                    field,
                    current,
                    names,
                    from + 1,
                    if current.contains(peer.id) {
                        batch
                    } else {
                        batch + c.link(field, peer)
                    },
                    joined.push(peer.id),
                ),
            },
        }
    }
}

/// The batch after every peer of `current` from position `from` on that is
/// not among `joined` has been untied.
pub open spec fn leave_from(
    c: Context,
    field: PrincipalField,
    current: Seq<u32>,
    joined: Seq<u32>,
    from: int,
    batch: Seq<OpModel>,
) -> Seq<OpModel>
    decreases current.len() - from,
{
    if from < 0 || from >= current.len() {
        batch
    } else {
        leave_from(
            c,
            field,
            current,
            joined,
            from + 1,
            if joined.contains(current[from]) {
                batch
            } else {
                batch + c.unlink(field, current[from])
            },
        )
    }
}

/// Replacing the edges of a membership field by those to the named
/// principals.
pub open spec fn set_edges_step(
    s: StateModel,
    c: Context,
    known: Known,
    field: PrincipalField,
    names: Seq<Seq<char>>,
) -> Step<StateModel> {
    match join_from(known, c, field, s.peers(field), names, 0, s.batch, Seq::empty()) {
        Step::Ask(question) => Step::Ask(question),
        Step::Fail(fault) => Step::Fail(fault),
        Step::Done((batch, joined)) => Step::Done(
            s.with_batch(leave_from(c, field, s.peers(field), joined, 0, batch)).with_peers(
                field,
                joined,
            ),
        ),
    }
}

/// Adding one edge to a membership field, unless it is there.
pub open spec fn add_edge_step(
    s: StateModel,
    c: Context,
    known: Known,
    field: PrincipalField,
    name: Seq<char>,
) -> Step<StateModel> {
    match target_step(known, field, name, c.tenant_id) {
        Step::Ask(question) => Step::Ask(question),
        Step::Fail(fault) => Step::Fail(fault),
        Step::Done(peer) => if s.peers(field).contains(peer.id) {
            Step::Done(s)
        } else {
            match c.refusal(field, name, peer) {
                Some(fault) => Step::Fail(fault),
                None => Step::Done(
                    s.with_batch(s.batch + c.link(field, peer)).with_peers(
                        field,
                        s.peers(field).push(peer.id),
                    ),
                ),
            }
        },
    }
}

/// Removing one edge from a membership field, if it is there.
pub open spec fn remove_edge_step(
    s: StateModel,
    c: Context,
    known: Known,
    field: PrincipalField,
    name: Seq<char>,
) -> Step<StateModel> {
    match peer_id_step(known, field, name) {
        Step::Ask(question) => Step::Ask(question),
        Step::Fail(fault) => Step::Fail(fault),
        Step::Done(None) => Step::Done(s),
        Step::Done(Some(peer)) => if s.peers(field).contains(peer) {
            Step::Done(
                s.with_batch(s.batch + c.unlink(field, peer)).with_peers(
                    field,
                    s.peers(field).remove_value(peer),
                ),
            )
        } else {
            Step::Done(s)
        },
    }
}

/// Replacing the permissions of a field by the named ones.
pub open spec fn set_permissions_step(
    s: StateModel,
    known: Known,
    field: PrincipalField,
    names: Seq<Seq<char>>,
) -> Step<StateModel> {
    match permissions_step(known, field, names) {
        Step::Ask(question) => Step::Ask(question),
        Step::Fail(fault) => Step::Fail(fault),
        Step::Done(list) => Step::Done(s.with_principal(s.principal.with_permissions(field, list))),
    }
}

/// Adding the named permission at the end of a field.
pub open spec fn add_permission_step(
    s: StateModel,
    known: Known,
    field: PrincipalField,
    name: Seq<char>,
) -> Step<StateModel> {
    match permission_step(known, field, name) {
        Step::Ask(question) => Step::Ask(question),
        Step::Fail(fault) => Step::Fail(fault),
        Step::Done(id) => Step::Done(s.with_principal(s.principal.add_permission(field, id))),
    }
}

/// Removing the named permission from a field.
pub open spec fn remove_permission_step(
    s: StateModel,
    known: Known,
    field: PrincipalField,
    name: Seq<char>,
) -> Step<StateModel> {
    match permission_step(known, field, name) {
        Step::Ask(question) => Step::Ask(question),
        Step::Fail(fault) => Step::Fail(fault),
        Step::Done(id) => Step::Done(s.with_principal(s.principal.remove_permission(field, id))),
    }
}

/// Gives the principal another name.
pub fn rename_principal(state: UpdateState, ctx: &Context, snapshot: &Snapshot, raw: &str) -> (r:
    Outcome<UpdateState>)
    ensures
        state_agrees(r, rename_step(state@, *ctx, snapshot@, raw@)),
        keeps_paired(state@.batch, r),
{
    let mut state = state;
    let name = to_lowercase(raw);
    if state.principal.name == name {
        return Outcome::Done(state);
    }
    if ctx.tenant_id.is_some() {
        match valid_domain(snapshot, name.as_str(), ctx.tenant_id) {
            Outcome::Ask(query) => {
                return Outcome::Ask(query);
            },
            Outcome::Fail(e) => {
                return Outcome::Fail(e);
            },
            Outcome::Done(None) => {
                return Outcome::Fail(invalid_name());
            },
            Outcome::Done(Some(_)) => {},
        }
    }
    match snapshot.info(name.as_str()) {
        Err(query) => {
            return Outcome::Ask(query);
        },
        Ok(Some(_)) => {
            return Outcome::Fail(DirectoryError::AlreadyExists(PrincipalField::Name, name));
        },
        Ok(None) => {},
    }
    rename(&mut state.batch, state.principal.name.clone(), name.clone(), state.pinfo_name);
    state.principal.set_name(name);
    Outcome::Done(state)
}

pub(crate) fn set_tenant(state: UpdateState, ctx: &Context, snapshot: &Snapshot, name: &str) -> (r:
    Outcome<UpdateState>)
    requires
        ctx.wf(),
    ensures
        state_agrees(r, tenant_step(state@, *ctx, snapshot@, name@)),
        keeps_paired(state@.batch, r),
{
    let tenant = if !name.is_empty() {
        let found = match snapshot.info(name) {
            Err(query) => {
                return Outcome::Ask(query);
            },
            Ok(None) => {
                return Outcome::Fail(DirectoryError::NotFound(owned(name)));
            },
            Ok(Some(found)) => found,
        };
        if found.typ != Type::Tenant {
            return Outcome::Fail(not_a_tenant(name));
        }
        match state.principal.tenant {
            Some(old) => {
                if old == found.id {
                    return Outcome::Done(state);
                }
            },
            None => {},
        }
        Some(found.id)
    } else {
        if state.principal.tenant.is_none() {
            return Outcome::Done(state);
        }
        None
    };
    let mut state = state;
    let ghost before = state@;
    match (ctx.used_quota, state.principal.tenant) {
        (Some(used), Some(old)) => {
            proof {
                if edges_paired(state.batch@) {
                    crate::batch::paired_push(state.batch@, usage_op(old, -used));
                }
            }
            state.batch.add(DirectoryClass::UsedQuota(old), -used);
        },
        _ => {},
    }
    match (ctx.used_quota, tenant) {
        (Some(used), Some(new)) => {
            proof {
                if edges_paired(state.batch@) {
                    crate::batch::paired_push(state.batch@, usage_op(new, used as int));
                }
            }
            state.batch.add(DirectoryClass::UsedQuota(new), used);
        },
        _ => {},
    }
    let info = PrincipalInfo::new(ctx.principal_id, ctx.typ, tenant);
    crate::index::add_name(&mut state.batch, state.principal.name.clone(), BatchValue::Info(info));
    state.principal.set_tenant(tenant);
    state.pinfo_name = info;
    assert(state@ == move_to_tenant(before, *ctx, tenant));
    Outcome::Done(state)
}

/// Replaces the addresses of the principal.
#[verifier::loop_isolation(false)]
pub fn set_emails(state: UpdateState, ctx: &Context, snapshot: &Snapshot, raw: &Vec<String>) -> (r:
    Outcome<UpdateState>)
    ensures
        state_agrees(r, set_emails_step(state@, *ctx, snapshot@, raw.deep_view())),
        keeps_paired(state@.batch, r),
{
    let mut state = state;
    let ghost before = state@;
    let emails = dedupe_texts(&lowercase_all(raw));
    let info = PrincipalInfo::new(ctx.principal_id, ctx.typ, None);
    let mut i: usize = 0;
    while i < emails.len()
        invariant
            i <= emails.len(),
            state.principal@ == before.principal,
            state.member_of@ == before.member_of,
            state.members@ == before.members,
            state.pinfo_name == before.pinfo_name,
            edges_paired(before.batch) ==> edges_paired(state.batch@),
            admit_from(snapshot@, *ctx, before.principal.emails, emails.deep_view(), 0, before.batch)
                == admit_from(
                snapshot@,
                *ctx,
                before.principal.emails,
                emails.deep_view(),
                i as int,
                state.batch@,
            ),
        decreases emails.len() - i,
    {
        assert(emails.deep_view()[i as int] == emails[i as int]@);
        if !has_text(&state.principal.emails, emails[i].as_str()) {
            match admit_email(snapshot, emails[i].as_str()) {
                Outcome::Ask(query) => {
                    return Outcome::Ask(query);
                },
                Outcome::Fail(e) => {
                    return Outcome::Fail(e);
                },
                Outcome::Done(_) => {},
            }
            add_email(&mut state.batch, emails[i].clone(), BatchValue::Info(info));
        }
        i = i + 1;
    }
    let ghost admitted = state.batch@;
    let mut j: usize = 0;
    while j < state.principal.emails.len()
        invariant
            j <= state.principal.emails.len(),
            state.principal@ == before.principal,
            state.member_of@ == before.member_of,
            state.members@ == before.members,
            state.pinfo_name == before.pinfo_name,
            edges_paired(before.batch) ==> edges_paired(state.batch@),
            retire_from(before.principal.emails, emails.deep_view(), 0, admitted) == retire_from(
                before.principal.emails,
                emails.deep_view(),
                j as int,
                state.batch@,
            ),
        decreases state.principal.emails.len() - j,
    {
        assert(state.principal.emails.deep_view()[j as int] == state.principal.emails[j as int]@);
        if !has_text(&emails, state.principal.emails[j].as_str()) {
            remove_email(&mut state.batch, state.principal.emails[j].clone());
        }
        j = j + 1;
    }
    state.principal.set_emails(emails);
    Outcome::Done(state)
}

/// Adds one address to the principal.
pub fn add_address(state: UpdateState, ctx: &Context, snapshot: &Snapshot, raw: &str) -> (r:
    Outcome<UpdateState>)
    ensures
        state_agrees(r, add_email_step(state@, *ctx, snapshot@, raw@)),
        keeps_paired(state@.batch, r),
{
    let mut state = state;
    let email = to_lowercase(raw);
    if has_text(&state.principal.emails, email.as_str()) {
        return Outcome::Done(state);
    }
    match admit_email(snapshot, email.as_str()) {
        Outcome::Ask(query) => {
            return Outcome::Ask(query);
        },
        Outcome::Fail(e) => {
            return Outcome::Fail(e);
        },
        Outcome::Done(_) => {},
    }
    let info = PrincipalInfo::new(ctx.principal_id, ctx.typ, None);
    add_email(&mut state.batch, email.clone(), BatchValue::Info(info));
    let ghost old_emails = state.principal.emails;
    state.principal.emails.push(email);
    proof {
        deep_view_push(old_emails, state.principal.emails, email);
    }
    Outcome::Done(state)
}

/// Takes one address from the principal.
pub fn remove_address(state: UpdateState, raw: &str) -> (r: UpdateState)
    ensures
        r@ == remove_email_state(state@, raw@),
        edges_paired(state@.batch) ==> edges_paired(r@.batch),
{
    let mut state = state;
    let email = to_lowercase(raw);
    if has_text(&state.principal.emails, email.as_str()) {
        let kept = remove_texts(&state.principal.emails, &Removal::Equal(email.as_str()));
        state.principal.set_emails(kept);
        remove_email(&mut state.batch, email);
    }
    state
}

#[verifier::loop_isolation(false)]
pub(crate) fn set_edges(
    state: UpdateState,
    ctx: &Context,
    snapshot: &Snapshot,
    field: PrincipalField,
    names: &Vec<String>,
) -> (r: Outcome<UpdateState>)
    requires
        field.is_membership(),
    ensures
        state_agrees(r, set_edges_step(state@, *ctx, snapshot@, field, names.deep_view())),
        keeps_paired(state@.batch, r),
{
    let mut state = state;
    let ghost before = state@;
    let current = match field {
        PrincipalField::Members => clone_ids(&state.members),
        _ => clone_ids(&state.member_of),
    };
    let mut joined: Vec<u32> = Vec::new();
    let mut i: usize = 0;
    while i < names.len()
        invariant
            i <= names.len(),
            current@ == before.peers(field),
            state.principal@ == before.principal,
            state.member_of@ == before.member_of,
            state.members@ == before.members,
            state.pinfo_name == before.pinfo_name,
            edges_paired(before.batch) ==> edges_paired(state.batch@),
            join_from(
                snapshot@,
                *ctx,
                field,
                current@,
                names.deep_view(),
                0,
                before.batch,
                Seq::empty(),
            ) == join_from(
                snapshot@,
                *ctx,
                field,
                current@,
                names.deep_view(),
                i as int,
                state.batch@,
                joined@,
            ),
        decreases names.len() - i,
    {
        assert(names.deep_view()[i as int] == names[i as int]@);
        let peer = match resolve_target(snapshot, field, names[i].as_str(), ctx.tenant_id) {
            Outcome::Ask(query) => {
                return Outcome::Ask(query);
            },
            Outcome::Fail(e) => {
                return Outcome::Fail(e);
            },
            Outcome::Done(peer) => peer,
        };
        match ctx.refuse(field, names[i].as_str(), &peer) {
            Some(e) => {
                return Outcome::Fail(e);
            },
            None => {},
        }
        if !has_id(&current, peer.id) {
            ctx.write_link(&mut state.batch, field, &peer);
        }
        joined.push(peer.id);
        i = i + 1;
    }
    let ghost tied = state.batch@;
    let mut j: usize = 0;
    while j < current.len()
        invariant
            j <= current.len(),
            current@ == before.peers(field),
            state.principal@ == before.principal,
            state.member_of@ == before.member_of,
            state.members@ == before.members,
            state.pinfo_name == before.pinfo_name,
            edges_paired(before.batch) ==> edges_paired(state.batch@),
            leave_from(*ctx, field, current@, joined@, 0, tied) == leave_from(
                *ctx,
                field,
                current@,
                joined@,
                j as int,
                state.batch@,
            ),
        decreases current.len() - j,
    {
        if !has_id(&joined, current[j]) {
            ctx.write_unlink(&mut state.batch, field, current[j]);
        }
        j = j + 1;
    }
    match field {
        PrincipalField::Members => {
            state.members = joined;
        },
        _ => {
            state.member_of = joined;
        },
    }
    Outcome::Done(state)
}

pub(crate) fn add_edge(
    state: UpdateState,
    ctx: &Context,
    snapshot: &Snapshot,
    field: PrincipalField,
    name: &str,
) -> (r: Outcome<UpdateState>)
    requires
        field.is_membership(),
    ensures
        state_agrees(r, add_edge_step(state@, *ctx, snapshot@, field, name@)),
        keeps_paired(state@.batch, r),
{
    let mut state = state;
    let peer = match resolve_target(snapshot, field, name, ctx.tenant_id) {
        Outcome::Ask(query) => {
            return Outcome::Ask(query);
        },
        Outcome::Fail(e) => {
            return Outcome::Fail(e);
        },
        Outcome::Done(peer) => peer,
    };
    let present = match field {
        PrincipalField::Members => has_id(&state.members, peer.id),
        _ => has_id(&state.member_of, peer.id),
    };
    if present {
        return Outcome::Done(state);
    }
    match ctx.refuse(field, name, &peer) {
        Some(e) => {
            return Outcome::Fail(e);
        },
        None => {},
    }
    ctx.write_link(&mut state.batch, field, &peer);
    match field {
        PrincipalField::Members => {
            state.members.push(peer.id);
        },
        _ => {
            state.member_of.push(peer.id);
        },
    }
    Outcome::Done(state)
}

pub(crate) fn remove_edge(
    state: UpdateState,
    ctx: &Context,
    snapshot: &Snapshot,
    field: PrincipalField,
    name: &str,
) -> (r: Outcome<UpdateState>)
    requires
        field.is_membership(),
    ensures
        state_agrees(r, remove_edge_step(state@, *ctx, snapshot@, field, name@)),
        keeps_paired(state@.batch, r),
{
    let mut state = state;
    let peer = match resolve_peer_id(snapshot, field, name) {
        Outcome::Ask(query) => {
            return Outcome::Ask(query);
        },
        Outcome::Fail(e) => {
            return Outcome::Fail(e);
        },
        Outcome::Done(None) => {
            return Outcome::Done(state);
        },
        Outcome::Done(Some(peer)) => peer,
    };
    match field {
        PrincipalField::Members => {
            match position_of(&state.members, peer) {
                Some(at) => {
                    ctx.write_unlink(&mut state.batch, field, peer);
                    state.members.remove(at);
                },
                None => {},
            }
        },
        _ => {
            match position_of(&state.member_of, peer) {
                Some(at) => {
                    ctx.write_unlink(&mut state.batch, field, peer);
                    state.member_of.remove(at);
                },
                None => {},
            }
        },
    }
    Outcome::Done(state)
}

/// Replaces the permissions of a field.
pub fn set_permissions(
    state: UpdateState,
    snapshot: &Snapshot,
    field: PrincipalField,
    names: &Vec<String>,
) -> (r: Outcome<UpdateState>)
    ensures
        state_agrees(r, set_permissions_step(state@, snapshot@, field, names.deep_view())),
        keeps_paired(state@.batch, r),
{
    let mut state = state;
    match resolve_permissions(snapshot, field, names) {
        Outcome::Ask(query) => Outcome::Ask(query),
        Outcome::Fail(e) => Outcome::Fail(e),
        Outcome::Done(list) => {
            state.principal.set_permissions(field, list);
            Outcome::Done(state)
        },
    }
}

/// Adds one permission to a field.
pub fn add_permission(
    state: UpdateState,
    snapshot: &Snapshot,
    field: PrincipalField,
    name: &str,
) -> (r: Outcome<UpdateState>)
    ensures
        state_agrees(r, add_permission_step(state@, snapshot@, field, name@)),
        keeps_paired(state@.batch, r),
{
    let mut state = state;
    match resolve_permission(snapshot, field, name) {
        Outcome::Ask(query) => Outcome::Ask(query),
        Outcome::Fail(e) => Outcome::Fail(e),
        Outcome::Done(id) => {
            state.principal.add_permission(field, id);
            Outcome::Done(state)
        },
    }
}

/// Takes one permission from a field.
pub fn remove_permission(
    state: UpdateState,
    snapshot: &Snapshot,
    field: PrincipalField,
    name: &str,
) -> (r: Outcome<UpdateState>)
    ensures
        state_agrees(r, remove_permission_step(state@, snapshot@, field, name@)),
        keeps_paired(state@.batch, r),
{
    let mut state = state;
    match resolve_permission(snapshot, field, name) {
        Outcome::Ask(query) => Outcome::Ask(query),
        Outcome::Fail(e) => Outcome::Fail(e),
        Outcome::Done(id) => {
            state.principal.remove_permission(field, id);
            Outcome::Done(state)
        },
    }
}

} // verus!
