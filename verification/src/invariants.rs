//! What holds of the store between any two batches of the engine.

use vstd::prelude::*;
use crate::keys::Key;
use crate::model::Directory;

verus! {

/// Whether what the name index holds for `name`, if anything, is the
/// record of that name and tells its kind and its tenant.
pub open spec fn name_leads(d: Directory, name: Seq<char>) -> bool {
    d.info(name) matches Some(info) ==> (d.record(info.id) matches Some(p) && p.name == name
        && p.typ == info.typ && p.tenant == info.tenant)
}

/// Whether the record of `id`, if there is one, is indexed under its name.
pub open spec fn record_named(d: Directory, id: u32) -> bool {
    d.record(id) matches Some(p) ==> (d.info(p.name) matches Some(info) && info.id == id)
}

/// Whether what the e-mail index holds for `email`, if anything, is a
/// record with that address.
pub open spec fn email_leads(d: Directory, email: Seq<char>) -> bool {
    d.email(email) matches Some(info) ==> (d.record(info.id) matches Some(p)
        && p.emails.contains(email))
}

/// Whether `email`, if the record of `id` has it, is indexed under `id`.
pub open spec fn email_filed(d: Directory, id: u32, email: Seq<char>) -> bool {
    (d.record(id) matches Some(p) && p.emails.contains(email)) ==> (d.email(
        email,
    ) matches Some(info) && info.id == id)
}

/// Whether the name index and the records agree: what the index holds for
/// a name is the record of that name, and every record is indexed under
/// its name.
pub open spec fn names_indexed(d: Directory) -> bool {
    &&& forall|name: Seq<char>| #[trigger] name_leads(d, name)
    &&& forall|id: u32| #[trigger] record_named(d, id)
}

/// Whether the e-mail index and the records agree: what the index holds
/// for an address is a record with that address, and every address of a
/// record is indexed under the record's identifier.
pub open spec fn emails_indexed(d: Directory) -> bool {
    &&& forall|email: Seq<char>| #[trigger] email_leads(d, email)
    &&& forall|id: u32, email: Seq<char>| #[trigger] email_filed(d, id, email)
}

/// Whether both indexes agree with the records. Then the name and every
/// address of a principal lead to its identifier, and no other entry of
/// either index does.
pub open spec fn indexed(d: Directory) -> bool {
    names_indexed(d) && emails_indexed(d)
}

/// Whether some index entry points at `id`.
pub open spec fn pointed_at(d: Directory, id: u32) -> bool {
    ||| exists|name: Seq<char>| #[trigger] d.info(name) matches Some(info) && info.id == id
    ||| exists|email: Seq<char>| #[trigger] d.email(email) matches Some(info) && info.id == id
}

/// Whether some edge begins or ends at `id`.
pub open spec fn tied(d: Directory, id: u32) -> bool {
    exists|other: u32|
        #![trigger d.is_member_of(id, other)]
        #![trigger d.is_member_of(other, id)]
        #![trigger d.has_member(id, other)]
        #![trigger d.has_member(other, id)]
        d.is_member_of(id, other) || d.is_member_of(other, id) || d.has_member(id, other)
            || d.has_member(other, id)
}

/// Whether anything in the store speaks of `id`: its record, its usage
/// counter, an index entry that points at it, or an edge from or to it.
pub open spec fn mentions(d: Directory, id: u32) -> bool {
    ||| d.entries.contains_key(Key::Principal(id))
    ||| d.entries.contains_key(Key::UsedQuota(id))
    ||| pointed_at(d, id)
    ||| tied(d, id)
}

/// Whether two stores hold the same under a key.
pub open spec fn same_at(a: Directory, b: Directory, key: Key) -> bool {
    a.entries.contains_key(key) == b.entries.contains_key(key) && (a.entries.contains_key(key)
        ==> a.entries[key] == b.entries[key])
}

/// Whether a key is that of a membership edge.
pub open spec fn is_edge_key(key: Key) -> bool {
    key is MemberOf || key is Members
}

/// Whether two stores hold the same under every key but those of the
/// membership edges.
pub open spec fn same_but_edges(a: Directory, b: Directory) -> bool {
    forall|key: Key| !is_edge_key(key) ==> #[trigger] same_at(a, b, key)
}

} // verus!
