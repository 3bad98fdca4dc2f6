//! The invariant of the directory, and that every batch of the engine
//! keeps it.
//!
//! A store is sound if its indexes agree with its records, its edges agree
//! in both directions and tie only principals that may be tied, and the
//! identifiers of the built-in roles hold no record. Whatever the engine
//! builds from a snapshot of a sound store, committed to that store, gives
//! a sound store again.

use vstd::prelude::*;
use crate::create::create_step;
use crate::creation::{claimed_principal_is_indexed, created_principal_is_indexed};
use crate::delete::delete_step;
use crate::deletion::deleted_principal_leaves_no_trace;
use crate::invariants::{indexed, mentions};
use crate::keys::Key;
use crate::kinds::{edges_legal, roles_reserved};
use crate::model::Directory;
use crate::pairing::{claim_is_paired, engine_keeps_symmetry};
use crate::principal::{ChangeModel, PrincipalSetModel};
use crate::races::{claim_commits_iff_free, claimed};
use crate::reflect::reflects;
use crate::relinking::updated_edges_stay_legal;
use crate::resolve::Selector;
use crate::snapshot::Known;
use crate::symmetry::{paired_batch_keeps_symmetry, symmetric};
use crate::tying::{claimed_edges_stay_legal, created_edges_stay_legal, deleted_edges_stay_legal};
use crate::types::{is_builtin_role, Type};
use crate::update::update_step;
use crate::updated::updated_principal_stays_indexed;
use crate::upsert::claim_batch;

verus! {

/// Whether a store is sound.
pub open spec fn sound(d: Directory) -> bool {
    &&& indexed(d)
    &&& symmetric(d)
    &&& edges_legal(d)
    &&& roles_reserved(d)
}

/// Whether the store may assign `id` to a new principal: nothing is
/// recorded under it, and it is not the identifier of a built-in role.
pub open spec fn unused(d: Directory, id: u32) -> bool {
    !d.entries.contains_key(Key::Principal(id)) && !is_builtin_role(id)
}

/// A sound store accepts the batch of a creation under an unused
/// identifier and is sound afterwards.
pub proof fn creation_keeps_sound(
    d: Directory,
    known: Known,
    p: PrincipalSetModel,
    tenant: Option<u32>,
    id: u32,
)
    requires
        sound(d),
        reflects(known, d),
        unused(d, id),
        create_step(known, p, tenant) is Done,
    ensures
        d.commit(create_step(known, p, tenant)->Done_0, id) matches Some(after) && sound(after),
{
    created_principal_is_indexed(d, known, p, tenant, id);
    created_edges_stay_legal(d, known, p, tenant, id);
    engine_keeps_symmetry(
        d,
        known,
        p,
        Selector::Id(id),
        Seq::empty(),
        Seq::empty(),
        p.typ,
        tenant,
        id,
    );
}

/// A sound store accepts the batch of an update, while the record has not
/// changed since it was read, and is sound afterwards.
pub proof fn update_keeps_sound(
    d: Directory,
    known: Known,
    by: Selector,
    changes: Seq<ChangeModel>,
    tenant: Option<u32>,
    assigned: u32,
)
    requires
        sound(d),
        reflects(known, d),
        update_step(known, by, changes, tenant) is Done,
    ensures
        d.commit(update_step(known, by, changes, tenant)->Done_0, assigned) matches Some(after)
            && sound(after),
{
    updated_principal_stays_indexed(d, known, by, changes, tenant, assigned);
    updated_edges_stay_legal(d, known, by, changes, tenant, assigned);
    engine_keeps_symmetry(
        d,
        known,
        PrincipalSetModel {
            typ: Type::Individual,
            name: Seq::empty(),
            description: None,
            tenant: None,
            quota: None,
            emails: Seq::empty(),
            secrets: Seq::empty(),
            members: Seq::empty(),
            member_of: Seq::empty(),
            lists: Seq::empty(),
            roles: Seq::empty(),
            enabled_permissions: Seq::empty(),
            disabled_permissions: Seq::empty(),
        },
        by,
        changes,
        Seq::empty(),
        Type::Individual,
        tenant,
        assigned,
    );
}

/// A sound store accepts the batch of a deletion and is sound afterwards,
/// and nothing in it speaks of the deleted principal any more.
pub proof fn deletion_keeps_sound(d: Directory, known: Known, by: Selector, assigned: u32)
    requires
        sound(d),
        reflects(known, d),
        delete_step(known, by) is Done,
    ensures
        d.commit(delete_step(known, by)->Done_0.batch, assigned) matches Some(after) && sound(
            after,
        ) && !mentions(after, delete_step(known, by)->Done_0.principal_id),
{
    deleted_principal_leaves_no_trace(d, known, by, assigned);
    deleted_edges_stay_legal(d, known, by, assigned);
    crate::pairing::delete_is_paired(known, by);
    paired_batch_keeps_symmetry(d, delete_step(known, by)->Done_0.batch, assigned);
}

/// A sound store in which a name is free accepts the batch that claims
/// the name under an unused identifier and is sound afterwards.
pub proof fn claim_keeps_sound(d: Directory, name: Seq<char>, typ: Type, id: u32)
    requires
        sound(d),
        unused(d, id),
        !d.entries.contains_key(Key::NameToId(name)),
    ensures
        d.commit(claim_batch(name, typ), id) == Some(claimed(d, name, typ, id)),
        sound(claimed(d, name, typ, id)),
{
    claim_commits_iff_free(d, name, typ, id);
    claimed_principal_is_indexed(d, name, typ, id);
    claimed_edges_stay_legal(d, name, typ, id);
    claim_is_paired(name, typ);
    paired_batch_keeps_symmetry(d, claim_batch(name, typ), id);
}

} // verus!
