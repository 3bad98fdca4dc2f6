//! What a listing can hold: only names of the index, and only those that
//! pass the filters on kind and tenant.

use vstd::prelude::*;
use vstd::utf8::{encode_utf8, encode_utf8_decode_utf8, encode_utf8_valid_utf8};
use crate::invariants::{indexed, name_leads};
use crate::keys::{info_bytes, info_of_bytes, info_round_trip, Key};
use crate::model::Directory;
use crate::query::{
    candidates, candidates_from, key_suffix, list_step, listed_name, matching_from, names_of,
    selected,
};
use crate::snapshot::{Known, Question, Step};
use crate::text::words;
use crate::types::Type;

verus! {

/// Whether a principal with this identifier and name stands in the scan
/// with a payload that passes the filters on kind and tenant.
pub open spec fn stands_in(
    entries: Seq<(Seq<u8>, Seq<u8>)>,
    candidate: (u32, Seq<char>),
    typ: Option<Type>,
    tenant: Option<u32>,
) -> bool {
    exists|j: int|
        0 <= j < entries.len() && (info_of_bytes((#[trigger] entries[j]).1) matches Some(info)
            && info.id == candidate.0 && selected(info, typ, tenant) && candidate.1 == listed_name(
            key_suffix(entries[j].0),
        ))
}

/// Whether a name stands in the scan with a payload that passes the
/// filters on kind and tenant.
pub open spec fn name_stands_in(
    entries: Seq<(Seq<u8>, Seq<u8>)>,
    name: Seq<char>,
    typ: Option<Type>,
    tenant: Option<u32>,
) -> bool {
    exists|j: int|
        0 <= j < entries.len() && (info_of_bytes((#[trigger] entries[j]).1) matches Some(info)
            && selected(info, typ, tenant) && name == listed_name(key_suffix(entries[j].0)))
}

proof fn candidates_stand_in(
    entries: Seq<(Seq<u8>, Seq<u8>)>,
    typ: Option<Type>,
    tenant: Option<u32>,
    from: int,
    found: Seq<(u32, Seq<char>)>,
)
    requires
        0 <= from <= entries.len(),
        forall|i: int| 0 <= i < found.len() ==> stands_in(entries, #[trigger] found[i], typ, tenant),
    ensures
        candidates_from(entries, typ, tenant, from, found) matches Some(all) ==> forall|i: int|
            0 <= i < all.len() ==> stands_in(entries, #[trigger] all[i], typ, tenant),
    decreases entries.len() - from,
{
    if from < entries.len() {
        match info_of_bytes(entries[from].1) {
            None => {},
            Some(info) => {
                let next = if selected(info, typ, tenant) {
                    found.push((info.id, listed_name(key_suffix(entries[from].0))))
                } else {
                    found
                };
                assert forall|i: int| 0 <= i < next.len() implies stands_in(
                    entries,
                    #[trigger] next[i],
                    typ,
                    tenant,
                ) by {
                    if i < found.len() {
                        assert(next[i] == found[i]);
                    } else {
                        assert(info_of_bytes(entries[from].1) == Some(info));
                    }
                }
                candidates_stand_in(entries, typ, tenant, from + 1, next);
            },
        }
    }
}

proof fn matching_are_candidates(
    known: Known,
    entries: Seq<(Seq<u8>, Seq<u8>)>,
    typ: Option<Type>,
    tenant: Option<u32>,
    found: Seq<(u32, Seq<char>)>,
    tokens: Seq<Seq<char>>,
    from: int,
    names: Seq<Seq<char>>,
)
    requires
        0 <= from <= found.len(),
        forall|i: int| 0 <= i < found.len() ==> stands_in(entries, #[trigger] found[i], typ, tenant),
        forall|i: int|
            0 <= i < names.len() ==> name_stands_in(entries, #[trigger] names[i], typ, tenant),
    ensures
        matching_from(known, found, tokens, from, names) matches Step::Done(all) ==> forall|i: int|
            0 <= i < all.len() ==> name_stands_in(entries, #[trigger] all[i], typ, tenant),
    decreases found.len() - from,
{
    if from < found.len() {
        match known.record(found[from].0) {
            Some(Some(hashed)) => {
                let next = if crate::query::mentions_all(hashed.inner, tokens) {
                    names.push(found[from].1)
                } else {
                    names
                };
                assert forall|i: int| 0 <= i < next.len() implies name_stands_in(
                    entries,
                    #[trigger] next[i],
                    typ,
                    tenant,
                ) by {
                    if i < names.len() {
                        assert(next[i] == names[i]);
                    } else {
                        assert(stands_in(entries, found[from], typ, tenant));
                    }
                }
                matching_are_candidates(known, entries, typ, tenant, found, tokens, from + 1, next);
            },
            _ => {},
        }
    }
}

/// Every name of a listing stands in the name index with a payload that
/// passes the filters on kind and tenant.
pub proof fn listed_names_pass_the_filters(
    known: Known,
    filter: Option<Seq<char>>,
    typ: Option<Type>,
    tenant: Option<u32>,
)
    ensures
        list_step(known, filter, typ, tenant) matches Step::Done(names) ==> forall|i: int|
            0 <= i < names.len() ==> name_stands_in(
                known.entries(Question::Names)->0,
                #[trigger] names[i],
                typ,
                tenant,
            ),
{
    match known.entries(Question::Names) {
        None => {},
        Some(entries) => {
            candidates_stand_in(entries, typ, tenant, 0, Seq::empty());
            match candidates(entries, typ, tenant) {
                None => {},
                Some(found) => match filter {
                    Some(text) => {
                        matching_are_candidates(
                            known,
                            entries,
                            typ,
                            tenant,
                            found,
                            words(text),
                            0,
                            Seq::empty(),
                        );
                    },
                    None => {
                        let names = names_of(found);
                        assert forall|i: int| 0 <= i < names.len() implies name_stands_in(
                            entries,
                            #[trigger] names[i],
                            typ,
                            tenant,
                        ) by {
                            assert(stands_in(entries, found[i], typ, tenant));
                        }
                    },
                },
            }
        },
    }
}

/// Whether a name stands in the scan with a payload of the tenant.
pub open spec fn of_tenant(entries: Seq<(Seq<u8>, Seq<u8>)>, name: Seq<char>, tenant: u32) -> bool {
    exists|j: int|
        0 <= j < entries.len() && (info_of_bytes((#[trigger] entries[j]).1) matches Some(info)
            && info.tenant == Some(tenant) && name == listed_name(key_suffix(entries[j].0)))
}

/// Under the scope of a tenant, every principal that a listing returns is
/// a principal of that tenant: its name stands in the name index with a
/// payload that names the tenant.
pub proof fn listing_stays_within_the_tenant(
    known: Known,
    filter: Option<Seq<char>>,
    typ: Option<Type>,
    tenant: u32,
)
    ensures
        list_step(known, filter, typ, Some(tenant)) matches Step::Done(names) ==> forall|i: int|
            0 <= i < names.len() ==> of_tenant(
                known.entries(Question::Names)->0,
                #[trigger] names[i],
                tenant,
            ),
{
    listed_names_pass_the_filters(known, filter, typ, Some(tenant));
    match list_step(known, filter, typ, Some(tenant)) {
        Step::Done(names) => {
            let entries = known.entries(Question::Names)->0;
            assert forall|i: int| 0 <= i < names.len() implies of_tenant(
                entries,
                #[trigger] names[i],
                tenant,
            ) by {
                assert(name_stands_in(entries, names[i], typ, Some(tenant)));
                let j = choose|j: int|
                    0 <= j < entries.len() && (info_of_bytes((#[trigger] entries[j]).1) matches Some(
                        info,
                    ) && selected(info, typ, Some(tenant)) && names[i] == listed_name(
                        key_suffix(entries[j].0),
                    ));
                assert(info_of_bytes(entries[j].1)->0.tenant == Some(tenant));
            }
        },
        _ => {},
    }
}

/// Whether an entry of a scan is the entry of the name index of the store
/// for `name`.
pub open spec fn filed_under(entry: (Seq<u8>, Seq<u8>), d: Directory, name: Seq<char>) -> bool {
    entry.0 == Key::NameToId(name).encode() && (d.info(name) matches Some(info) && entry.1
        == info_bytes(info))
}

/// Whether every entry of a scan is an entry of the name index of the
/// store.
pub open spec fn scan_reflects(entries: Seq<(Seq<u8>, Seq<u8>)>, d: Directory) -> bool {
    forall|j: int|
        0 <= j < entries.len() ==> exists|name: Seq<char>| filed_under(#[trigger] entries[j], d, name)
}

/// Under the scope of a tenant, every principal that a listing returns is
/// a principal of that tenant: where the scan was read from a store whose
/// indexes agree with the records, each name of the listing is the name of
/// a record of the store, and that record is of the tenant.
pub proof fn listed_principals_are_of_the_tenant(
    d: Directory,
    known: Known,
    filter: Option<Seq<char>>,
    typ: Option<Type>,
    tenant: u32,
)
    requires
        indexed(d),
        known.entries(Question::Names) matches Some(entries) && scan_reflects(entries, d),
        list_step(known, filter, typ, Some(tenant)) is Done,
    ensures
        forall|i: int|
            0 <= i < list_step(known, filter, typ, Some(tenant))->Done_0.len() ==> belongs(
                d,
                #[trigger] list_step(known, filter, typ, Some(tenant))->Done_0[i],
                tenant,
            ),
{
    let names = list_step(known, filter, typ, Some(tenant))->Done_0;
    let entries = known.entries(Question::Names)->0;
    listing_stays_within_the_tenant(known, filter, typ, tenant);
    assert forall|i: int| 0 <= i < names.len() implies belongs(d, #[trigger] names[i], tenant) by {
        assert(of_tenant(entries, names[i], tenant));
        let j = choose|j: int|
            0 <= j < entries.len() && (info_of_bytes((#[trigger] entries[j]).1) matches Some(info)
                && info.tenant == Some(tenant) && names[i] == listed_name(
                key_suffix(entries[j].0),
            ));
        let name = choose|name: Seq<char>| filed_under(entries[j], d, name);
        let info = d.info(name)->0;
        info_round_trip(info);
        assert(key_suffix(entries[j].0) =~= encode_utf8(name));
        encode_utf8_valid_utf8(name);
        encode_utf8_decode_utf8(name);
        assert(names[i] == name);
        assert(name_leads(d, name));
    }
}

/// Whether `name` is the name of a record of the store that is of the
/// tenant, and is indexed as such.
pub open spec fn belongs(d: Directory, name: Seq<char>, tenant: u32) -> bool {
    d.info(name) matches Some(info) && info.tenant == Some(tenant) && (d.record(
        info.id,
    ) matches Some(p) && p.name == name && p.tenant == Some(tenant))
}

} // verus!
