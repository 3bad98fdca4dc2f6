//! A verified engine for a multi-tenant principal directory.
//!
//! A directory holds principals (individuals, groups, lists, roles,
//! resources, locations, domains and tenants) in an ordered key-value store:
//! one record per principal, an index from names and one from e-mail
//! addresses to principals, the membership graph in both directions, and a
//! usage counter per principal.
//!
//! The engine never touches the store itself. Every operation is written
//! against a [`snapshot::Snapshot`] of what has been read so far and either
//! names the next read that it needs or hands back the one atomic batch to
//! commit. The caller reads, tells the snapshot, runs the operation again,
//! and commits.
//!
//! - The data: [`types`], [`principal`], [`error`], [`keys`], [`batch`].
//! - The operations: [`query`], [`create`], [`update`] with [`changes`] and
//!   [`fields`], [`delete`], [`upsert`]; they share [`resolve`], [`index`],
//!   [`lists`], [`text`], [`messages`] and [`domains`].
//! - The store as mathematics: [`model`], with [`reflect`] for what it means
//!   that a snapshot was read from a store, and [`invariants`] for what holds
//!   of a store between batches.
//! - What is proved of the operations over that model: [`soundness`] states
//!   the invariant of the directory and that every batch of the engine keeps
//!   it. Its parts are [`creation`], [`updating`], [`updated`] and
//!   [`deletion`] (the indexes agree with the records, and a deleted
//!   principal leaves no trace), [`symmetry`] and [`pairing`] (every edge has
//!   its opposite), [`kinds`], [`legality`], [`tying`] and [`relinking`]
//!   (edges tie only principals that may be tied). Beside it stand
//!   [`listing`] (a listing stays within its tenant), [`races`] (racing
//!   callers agree on one principal, and an idle update changes nothing),
//!   [`ranges`] (a scan covers the edges of one principal and no other key)
//!   and [`progress`] (an operation asks only what its snapshot does not
//!   know).

pub mod batch;
pub mod changes;
pub mod create;
pub mod creation;
pub mod delete;
pub mod deletion;
pub mod domains;
pub mod error;
pub mod fields;
pub mod index;
pub mod invariants;
pub mod keys;
pub mod kinds;
pub mod legality;
pub mod listing;
pub mod lists;
pub mod messages;
pub mod model;
pub mod pairing;
pub mod principal;
pub mod progress;
pub mod query;
pub mod races;
pub mod ranges;
pub mod reflect;
pub mod relinking;
pub mod resolve;
pub mod snapshot;
pub mod soundness;
pub mod symmetry;
pub mod text;
pub mod tying;
pub mod types;
pub mod update;
pub mod updated;
pub mod updating;
pub mod upsert;
