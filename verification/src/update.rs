//! The update path: a list of changes applied in order to one principal
//! under an optimistic lock, gathered into one batch.

use vstd::prelude::*;
use crate::batch::{
    edges_paired, paired_push, AssertModel, AssertValue, Batch, BatchBuilder, BatchValue, OpModel,
    PayloadModel,
};
use crate::changes::{
    add_address, add_edge, add_edge_step, add_email_step, add_permission, add_permission_step,
    remove_address, remove_edge, remove_edge_step, remove_email_state, remove_permission,
    remove_permission_step, rename_principal, rename_step, set_edges, set_edges_step, set_emails,
    set_emails_step, set_permissions, set_permissions_step, set_tenant, state_agrees, tenant_step,
    Context, StateModel, UpdateState,
};
use crate::error::{DirectoryError, Fault};
use crate::fields::quota_list_limit;
use crate::keys::{ClassModel, DirectoryClass, MaybeDynamicId};
use crate::lists::{clone_codes, clone_texts};
use crate::principal::{
    ChangeModel, HashedModel, PrincipalUpdate, PrincipalValue, QueryBy, Quota, QuotaModel,
    ValueModel,
};
use crate::query::{member_of_step, members_step};
use crate::resolve::{id_step, resolve_id, Selector};
use crate::snapshot::{agrees, Known, Outcome, Question, Snapshot, Step};
use crate::text::{decimal, to_decimal};
use crate::types::{MemberOf, PrincipalAction, PrincipalField, PrincipalInfo, Type};

verus! {

/// The failure of a change that no handler takes.
pub open spec fn unsupported_step() -> Step<StateModel> {
    Step::Fail(Fault::NotSupported(None))
}

/// What replacing a field by a value does.
pub open spec fn replace_step(s: StateModel, c: Context, known: Known, change: ChangeModel) -> Step<
    StateModel,
> {
    match change.field {
        PrincipalField::Name => match change.value {
            ValueModel::String(name) => rename_step(s, c, known, name),
            _ => unsupported_step(),
        },
        PrincipalField::Tenant => match change.value {
            ValueModel::String(name) => if c.tenant_id is None {
                tenant_step(s, c, known, name)
            } else {
                unsupported_step()
            },
            _ => unsupported_step(),
        },
        PrincipalField::Secrets => match change.value {
            ValueModel::String(secret) => Step::Done(
                s.with_principal(s.principal.with_secrets(seq![secret])),
            ),
            ValueModel::StringList(secrets) => Step::Done(
                s.with_principal(s.principal.with_secrets(secrets)),
            ),
            _ => unsupported_step(),
        },
        PrincipalField::Description => match change.value {
            ValueModel::String(text) => Step::Done(
                s.with_principal(s.principal.with_description(text)),
            ),
            _ => unsupported_step(),
        },
        PrincipalField::Quota => match change.value {
            ValueModel::Integer(quota) => if s.principal.typ.has_quota() {
                Step::Done(s.with_principal(s.principal.with_quota(Some(QuotaModel::Scalar(quota)))))
            } else {
                unsupported_step()
            },
            ValueModel::String(text) => if s.principal.typ.has_quota() && text.len() == 0 {
                Step::Done(s.with_principal(s.principal.with_quota(None)))
            } else {
                unsupported_step()
            },
            ValueModel::IntegerList(quotas) => if s.principal.typ == Type::Tenant && quotas.len()
                <= quota_list_limit() {
                Step::Done(
                    s.with_principal(s.principal.with_quota(Some(QuotaModel::PerType(quotas)))),
                )
            } else {
                unsupported_step()
            },
            _ => unsupported_step(),
        },
        PrincipalField::Emails => match change.value {
            ValueModel::StringList(emails) => set_emails_step(s, c, known, emails),
            _ => unsupported_step(),
        },
        PrincipalField::MemberOf | PrincipalField::Lists | PrincipalField::Roles
        | PrincipalField::Members => match change.value {
            ValueModel::StringList(names) => set_edges_step(s, c, known, change.field, names),
            _ => unsupported_step(),
        },
        PrincipalField::EnabledPermissions | PrincipalField::DisabledPermissions => match change.value {
            ValueModel::StringList(names) => set_permissions_step(s, known, change.field, names),
            _ => unsupported_step(),
        },
        _ => unsupported_step(),
    }
}

/// What adding one item to a field does.
pub open spec fn add_item_step(s: StateModel, c: Context, known: Known, change: ChangeModel) -> Step<
    StateModel,
> {
    match change.value {
        ValueModel::String(item) => match change.field {
            PrincipalField::Secrets => Step::Done(s.with_principal(s.principal.add_secret(item))),
            PrincipalField::Emails => add_email_step(s, c, known, item),
            PrincipalField::MemberOf | PrincipalField::Lists | PrincipalField::Roles
            | PrincipalField::Members => add_edge_step(s, c, known, change.field, item),
            PrincipalField::EnabledPermissions
            | PrincipalField::DisabledPermissions => add_permission_step(
                s,
                known,
                change.field,
                item,
            ),
            _ => unsupported_step(),
        },
        _ => unsupported_step(),
    }
}

/// What removing one item from a field does.
pub open spec fn remove_item_step(s: StateModel, c: Context, known: Known, change: ChangeModel) -> Step<
    StateModel,
> {
    match change.value {
        ValueModel::String(item) => match change.field {
            PrincipalField::Secrets => Step::Done(
                s.with_principal(s.principal.remove_secret(item)),
            ),
            PrincipalField::Emails => Step::Done(remove_email_state(s, item)),
            PrincipalField::MemberOf | PrincipalField::Lists | PrincipalField::Roles
            | PrincipalField::Members => remove_edge_step(s, c, known, change.field, item),
            PrincipalField::EnabledPermissions
            | PrincipalField::DisabledPermissions => remove_permission_step(
                s,
                known,
                change.field,
                item,
            ),
            _ => unsupported_step(),
        },
        _ => unsupported_step(),
    }
}

/// What one change does to the principal in flight. A change whose action,
/// field and form of value no handler takes is not supported.
pub open spec fn change_step(s: StateModel, c: Context, known: Known, change: ChangeModel) -> Step<
    StateModel,
> {
    match change.action {
        PrincipalAction::Replace => replace_step(s, c, known, change),
        PrincipalAction::AddItem => add_item_step(s, c, known, change),
        PrincipalAction::RemoveItem => remove_item_step(s, c, known, change),
    }
}

fn unsupported_change() -> (r: Outcome<UpdateState>)
    ensures
        state_agrees(r, unsupported_step()),
{
    Outcome::Fail(DirectoryError::NotSupported(None))
}

fn replace_field(
    state: UpdateState,
    ctx: &Context,
    snapshot: &Snapshot,
    change: &PrincipalUpdate,
) -> (r: Outcome<UpdateState>)
    requires
        ctx.wf(),
    ensures
        state_agrees(r, replace_step(state@, *ctx, snapshot@, change@)),
        r matches Outcome::Done(s) ==> (edges_paired(state@.batch) ==> edges_paired(s@.batch)),
{
    let mut state = state;
    match change.field {
        PrincipalField::Name => match &change.value {
            PrincipalValue::String(name) => rename_principal(state, ctx, snapshot, name.as_str()),
            _ => unsupported_change(),
        },
        PrincipalField::Tenant => match &change.value {
            PrincipalValue::String(name) => {
                if ctx.tenant_id.is_none() {
                    set_tenant(state, ctx, snapshot, name.as_str())
                } else {
                    unsupported_change()
                }
            },
            _ => unsupported_change(),
        },
        PrincipalField::Secrets => match &change.value {
            PrincipalValue::String(secret) => {
                let mut secrets: Vec<String> = Vec::new();
                secrets.push(secret.clone());
                assert(secrets.deep_view() =~= seq![secret@]);
                state.principal.set_secrets(secrets);
                Outcome::Done(state)
            },
            PrincipalValue::StringList(secrets) => {
                state.principal.set_secrets(clone_texts(secrets));
                Outcome::Done(state)
            },
            _ => unsupported_change(),
        },
        PrincipalField::Description => match &change.value {
            PrincipalValue::String(text) => {
                state.principal.set_description(text.clone());
                Outcome::Done(state)
            },
            _ => unsupported_change(),
        },
        PrincipalField::Quota => {
            let scalar = matches!(
                state.principal.typ,
                Type::Individual | Type::Group | Type::Tenant
            );
            match &change.value {
                PrincipalValue::Integer(quota) => {
                    if scalar {
                        state.principal.set_quota(Some(Quota::Scalar(*quota)));
                        Outcome::Done(state)
                    } else {
                        unsupported_change()
                    }
                },
                PrincipalValue::String(text) => {
                    if scalar && text.as_str().is_empty() {
                        state.principal.set_quota(None);
                        Outcome::Done(state)
                    } else {
                        unsupported_change()
                    }
                },
                PrincipalValue::IntegerList(quotas) => {
                    if matches!(state.principal.typ, Type::Tenant) && quotas.len() <= (
                    Type::Other.to_u8() as usize) + 1 {
                        state.principal.set_quota(Some(Quota::PerType(clone_codes(quotas))));
                        Outcome::Done(state)
                    } else {
                        unsupported_change()
                    }
                },
                _ => unsupported_change(),
            }
        },
        PrincipalField::Emails => match &change.value {
            PrincipalValue::StringList(emails) => set_emails(state, ctx, snapshot, emails),
            _ => unsupported_change(),
        },
        PrincipalField::MemberOf | PrincipalField::Lists | PrincipalField::Roles
        | PrincipalField::Members => match &change.value {
            PrincipalValue::StringList(names) => set_edges(
                state,
                ctx,
                snapshot,
                change.field,
                names,
            ),
            _ => unsupported_change(),
        },
        PrincipalField::EnabledPermissions | PrincipalField::DisabledPermissions => match &change.value {
            PrincipalValue::StringList(names) => set_permissions(
                state,
                snapshot,
                change.field,
                names,
            ),
            _ => unsupported_change(),
        },
        _ => unsupported_change(),
    }
}

fn add_item(state: UpdateState, ctx: &Context, snapshot: &Snapshot, change: &PrincipalUpdate) -> (r:
    Outcome<UpdateState>)
    ensures
        state_agrees(r, add_item_step(state@, *ctx, snapshot@, change@)),
        r matches Outcome::Done(s) ==> (edges_paired(state@.batch) ==> edges_paired(s@.batch)),
{
    let mut state = state;
    match &change.value {
        PrincipalValue::String(item) => match change.field {
            PrincipalField::Secrets => {
                state.principal.add_secret(item.as_str());
                Outcome::Done(state)
            },
            PrincipalField::Emails => add_address(state, ctx, snapshot, item.as_str()),
            PrincipalField::MemberOf | PrincipalField::Lists | PrincipalField::Roles
            | PrincipalField::Members => add_edge(
                state,
                ctx,
                snapshot,
                change.field,
                item.as_str(),
            ),
            PrincipalField::EnabledPermissions
            | PrincipalField::DisabledPermissions => add_permission(
                state,
                snapshot,
                change.field,
                item.as_str(),
            ),
            _ => unsupported_change(),
        },
        _ => unsupported_change(),
    }
}

fn remove_item(
    state: UpdateState,
    ctx: &Context,
    snapshot: &Snapshot,
    change: &PrincipalUpdate,
) -> (r: Outcome<UpdateState>)
    ensures
        state_agrees(r, remove_item_step(state@, *ctx, snapshot@, change@)),
        r matches Outcome::Done(s) ==> (edges_paired(state@.batch) ==> edges_paired(s@.batch)),
{
    let mut state = state;
    match &change.value {
        PrincipalValue::String(item) => match change.field {
            PrincipalField::Secrets => {
                state.principal.remove_secret(item.as_str());
                Outcome::Done(state)
            },
            PrincipalField::Emails => Outcome::Done(remove_address(state, item.as_str())),
            PrincipalField::MemberOf | PrincipalField::Lists | PrincipalField::Roles
            | PrincipalField::Members => remove_edge(
                state,
                ctx,
                snapshot,
                change.field,
                item.as_str(),
            ),
            PrincipalField::EnabledPermissions
            | PrincipalField::DisabledPermissions => remove_permission(
                state,
                snapshot,
                change.field,
                item.as_str(),
            ),
            _ => unsupported_change(),
        },
        _ => unsupported_change(),
    }
}

/// Applies one change to the principal in flight.
pub(crate) fn apply_change(
    state: UpdateState,
    ctx: &Context,
    snapshot: &Snapshot,
    change: &PrincipalUpdate,
) -> (r: Outcome<UpdateState>)
    requires
        ctx.wf(),
    ensures
        state_agrees(r, change_step(state@, *ctx, snapshot@, change@)),
        r matches Outcome::Done(s) ==> (edges_paired(state@.batch) ==> edges_paired(s@.batch)),
{
    match change.action {
        PrincipalAction::Replace => replace_field(state, ctx, snapshot, change),
        PrincipalAction::AddItem => add_item(state, ctx, snapshot, change),
        PrincipalAction::RemoveItem => remove_item(state, ctx, snapshot, change),
    }
}

/// What the changes from position `from` on do, one after the other; the
/// first that asks or fails ends the update.
pub open spec fn changes_from(
    s: StateModel,
    c: Context,
    known: Known,
    changes: Seq<ChangeModel>,
    from: int,
) -> Step<StateModel>
    decreases changes.len() - from,
{
    if from < 0 || from >= changes.len() {
        Step::Done(s)
    } else {
        match change_step(s, c, known, changes[from]) {
            Step::Ask(question) => Step::Ask(question),
            Step::Fail(fault) => Step::Fail(fault),
            Step::Done(next) => changes_from(next, c, known, changes, from + 1),
        }
    }
}

/// Whether some change is to a field of the record itself, so that the
/// record must be locked and written back.
pub open spec fn touches_record(changes: Seq<ChangeModel>) -> bool {
    exists|i: int| 0 <= i < changes.len() && !(#[trigger] changes[i]).field.is_membership()
}

/// Whether some change is to the tenant.
pub open spec fn names_tenant(changes: Seq<ChangeModel>) -> bool {
    exists|i: int| 0 <= i < changes.len() && (#[trigger] changes[i]).field == PrincipalField::Tenant
}

fn any_record_change(changes: &Vec<PrincipalUpdate>) -> (r: bool)
    ensures
        r == touches_record(changes.deep_view()),
{
    let mut i: usize = 0;
    while i < changes.len()
        invariant
            i <= changes.len(),
            forall|j: int| 0 <= j < i ==> (#[trigger] changes.deep_view()[j]).field.is_membership(),
        decreases changes.len() - i,
    {
        assert(changes.deep_view()[i as int] == changes[i as int]@);
        if !matches!(
            changes[i].field,
            PrincipalField::MemberOf | PrincipalField::Members | PrincipalField::Lists
                | PrincipalField::Roles
        ) {
            return true;
        }
        i = i + 1;
    }
    false
}

fn any_tenant_change(changes: &Vec<PrincipalUpdate>) -> (r: bool)
    ensures
        r == names_tenant(changes.deep_view()),
{
    let mut i: usize = 0;
    while i < changes.len()
        invariant
            i <= changes.len(),
            forall|j: int|
                0 <= j < i ==> (#[trigger] changes.deep_view()[j]).field != PrincipalField::Tenant,
        decreases changes.len() - i,
    {
        assert(changes.deep_view()[i as int] == changes[i as int]@);
        if matches!(changes[i].field, PrincipalField::Tenant) {
            return true;
        }
        i = i + 1;
    }
    false
}

/// What the principal has used of its quota, as far as the update needs to
/// know: only an unscoped update that changes the tenant asks, and only a
/// positive usage counts.
pub open spec fn usage_step(
    known: Known,
    id: u32,
    changes: Seq<ChangeModel>,
    tenant: Option<u32>,
) -> Step<Option<i64>> {
    if tenant is None && names_tenant(changes) {
        match known.used_quota(id) {
            None => Step::Ask(Question::UsedQuota(id)),
            Some(used) => Step::Done(
                if used > 0 {
                    Some(used)
                } else {
                    None
                },
            ),
        }
    } else {
        Step::Done(None)
    }
}

/// The identifiers at the far ends of forward edges.
pub open spec fn peer_ids(edges: Seq<MemberOf>) -> Seq<u32> {
    Seq::new(edges.len(), |i: int| edges[i].principal_id)
}

/// The operation that holds the batch to the record as it was read.
pub open spec fn lock_op(id: u32, hashed: HashedModel) -> OpModel {
    OpModel::AssertValue {
        class: ClassModel::Principal(MaybeDynamicId::Static(id)),
        assert_value: AssertModel::Unchanged(hashed),
    }
}

/// The operation that writes the record back.
pub open spec fn write_back_op(id: u32, s: StateModel) -> OpModel {
    OpModel::Put {
        class: ClassModel::Principal(MaybeDynamicId::Static(id)),
        value: PayloadModel::Record(s.principal),
    }
}

/// The state in which an update starts.
pub open spec fn initial_state(
    id: u32,
    hashed: HashedModel,
    member_of: Seq<MemberOf>,
    members: Seq<u32>,
    locked: bool,
) -> StateModel {
    StateModel {
        principal: hashed.inner,
        member_of: peer_ids(member_of),
        members,
        batch: if locked {
            seq![lock_op(id, hashed)]
        } else {
            Seq::empty()
        },
        pinfo_name: PrincipalInfo { id, typ: hashed.inner.typ, tenant: hashed.inner.tenant },
    }
}

/// What an update of the principal `id`, whose record, edges and usage are
/// at hand, gives.
pub open spec fn update_loaded(
    known: Known,
    id: u32,
    hashed: HashedModel,
    member_of: Seq<MemberOf>,
    members: Seq<u32>,
    used_quota: Option<i64>,
    changes: Seq<ChangeModel>,
    tenant: Option<u32>,
) -> Step<Seq<OpModel>> {
    let locked = touches_record(changes);
    let c = Context { principal_id: id, typ: hashed.inner.typ, tenant_id: tenant, used_quota };
    match changes_from(initial_state(id, hashed, member_of, members, locked), c, known, changes, 0) {
        Step::Ask(question) => Step::Ask(question),
        Step::Fail(fault) => Step::Fail(fault),
        Step::Done(s) => Step::Done(
            if locked {
                s.batch.push(write_back_op(id, s))
            } else {
                s.batch
            },
        ),
    }
}

/// What an update gives: the batch that asserts the record unchanged,
/// carries the effect of every change on the indexes and the edges, and
/// writes the record back; or the first question or failure on the way.
pub open spec fn update_step(
    known: Known,
    by: Selector,
    changes: Seq<ChangeModel>,
    tenant: Option<u32>,
) -> Step<Seq<OpModel>> {
    match id_step(known, by) {
        Step::Ask(question) => Step::Ask(question),
        Step::Fail(fault) => Step::Fail(fault),
        Step::Done(id) => match known.record(id) {
            None => Step::Ask(Question::Record(id)),
            Some(None) => Step::Fail(Fault::NotFound(decimal(id as u64))),
            Some(Some(hashed)) => match member_of_step(known, id) {
                Step::Ask(question) => Step::Ask(question),
                Step::Fail(fault) => Step::Fail(fault),
                Step::Done(member_of) => match members_step(known, id) {
                    Step::Ask(question) => Step::Ask(question),
                    Step::Fail(fault) => Step::Fail(fault),
                    Step::Done(members) => match usage_step(known, id, changes, tenant) {
                        Step::Ask(question) => Step::Ask(question),
                        Step::Fail(fault) => Step::Fail(fault),
                        Step::Done(used_quota) => update_loaded(
                            known,
                            id,
                            hashed,
                            member_of,
                            members,
                            used_quota,
                            changes,
                            tenant,
                        ),
                    },
                },
            },
        },
    }
}

fn ids_of(edges: &Vec<MemberOf>) -> (r: Vec<u32>)
    ensures
        r@ == peer_ids(edges@),
{
    let mut out: Vec<u32> = Vec::new();
    let mut i: usize = 0;
    while i < edges.len()
        invariant
            i <= edges.len(),
            out@ == peer_ids(edges@).take(i as int),
        decreases edges.len() - i,
    {
        out.push(edges[i].principal_id);
        assert(peer_ids(edges@).take(i as int).push(edges@[i as int].principal_id) =~= peer_ids(
            edges@,
        ).take(i + 1));
        i = i + 1;
    }
    assert(peer_ids(edges@).take(edges.len() as int) =~= peer_ids(edges@));
    out
}

impl Snapshot {
    /// Applies the changes to one principal. The result is the batch to
    /// commit; nothing has been written when the operation asks or fails.
    #[verifier::loop_isolation(false)]
    pub fn update_principal(
        &self,
        by: QueryBy,
        changes: &Vec<PrincipalUpdate>,
        tenant_id: Option<u32>,
    ) -> (r: Outcome<Batch>)
        ensures
            agrees(
                r,
                update_step(self@, by@, changes.deep_view(), tenant_id),
                |b: Batch, m: Seq<OpModel>| b@ == m,
            ),
            r matches Outcome::Done(b) ==> edges_paired(b@),
            self@.well_formed() ==> (r matches Outcome::Ask(query) ==> self@.reply(query@) is None),
    {
        proof {
            if self@.well_formed() {
                crate::progress::update_asks_anew(self@, by@, changes.deep_view(), tenant_id);
            }
        }
        let principal_id = match resolve_id(self, &by) {
            Outcome::Ask(query) => {
                return Outcome::Ask(query);
            },
            Outcome::Fail(e) => {
                return Outcome::Fail(e);
            },
            Outcome::Done(id) => id,
        };
        let hashed = match self.record(principal_id) {
            Err(query) => {
                return Outcome::Ask(query);
            },
            Ok(None) => {
                return Outcome::Fail(DirectoryError::NotFound(to_decimal(principal_id as u64)));
            },
            Ok(Some(hashed)) => hashed,
        };
        let member_of = match self.get_member_of(principal_id) {
            Outcome::Ask(query) => {
                return Outcome::Ask(query);
            },
            Outcome::Fail(e) => {
                return Outcome::Fail(e);
            },
            Outcome::Done(list) => list,
        };
        let members = match self.get_members(principal_id) {
            Outcome::Ask(query) => {
                return Outcome::Ask(query);
            },
            Outcome::Fail(e) => {
                return Outcome::Fail(e);
            },
            Outcome::Done(list) => list,
        };
        let locked = any_record_change(changes);
        let used_quota = if tenant_id.is_none() && any_tenant_change(changes) {
            match self.used_quota(principal_id) {
                Err(query) => {
                    return Outcome::Ask(query);
                },
                Ok(used) => if used > 0 {
                    Some(used)
                } else {
                    None
                },
            }
        } else {
            None
        };
        let ctx = Context { principal_id, typ: hashed.inner.typ, tenant_id, used_quota };
        let mut batch = BatchBuilder::new();
        if locked {
            batch.assert_value(
                DirectoryClass::Principal(MaybeDynamicId::Static(principal_id)),
                AssertValue::Unchanged(hashed.duplicate()),
            );
            proof {
                paired_push(Seq::empty(), lock_op(principal_id, hashed@));
                assert(batch@ =~= seq![lock_op(principal_id, hashed@)]);
            }
        }
        let mut state = UpdateState {
            principal: hashed.inner.duplicate(),
            member_of: ids_of(&member_of),
            members,
            batch,
            pinfo_name: PrincipalInfo::new(principal_id, hashed.inner.typ, hashed.inner.tenant),
        };
        let ghost start = state@;
        assert(start == initial_state(principal_id, hashed@, member_of@, members@, locked));
        let mut i: usize = 0;
        while i < changes.len()
            invariant
                i <= changes.len(),
                ctx.wf(),
                edges_paired(state@.batch),
                changes_from(start, ctx, self@, changes.deep_view(), 0) == changes_from(
                    state@,
                    ctx,
                    self@,
                    changes.deep_view(),
                    i as int,
                ),
            decreases changes.len() - i,
        {
            assert(changes.deep_view()[i as int] == changes[i as int]@);
            match apply_change(state, &ctx, self, &changes[i]) {
                Outcome::Ask(query) => {
                    return Outcome::Ask(query);
                },
                Outcome::Fail(e) => {
                    return Outcome::Fail(e);
                },
                Outcome::Done(next) => {
                    state = next;
                },
            }
            i = i + 1;
        }
        if locked {
            proof {
                paired_push(state@.batch, write_back_op(principal_id, state@));
            }
            state.batch.set(
                DirectoryClass::Principal(MaybeDynamicId::Static(principal_id)),
                BatchValue::Record(state.principal),
            );
        }
        Outcome::Done(state.batch.build())
    }
}

} // verus!
