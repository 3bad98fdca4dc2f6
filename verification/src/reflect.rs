//! When a snapshot tells the truth about a store.

use vstd::prelude::*;
use crate::keys::Key;
use crate::model::Directory;
use crate::query::{member_of_step, members_step};
use crate::snapshot::{Known, Step};

verus! {

/// Whether what the snapshot knows of the name index is what the store
/// holds.
pub open spec fn reflects_names(known: Known, d: Directory) -> bool {
    forall|name: Seq<char>| #[trigger]
        known.info(name) matches Some(found) ==> found == d.info(name) && (found is None
            ==> !d.entries.contains_key(Key::NameToId(name)))
}

/// Whether every address that the snapshot knows to receive no mail is
/// absent from the e-mail index.
pub open spec fn reflects_emails(known: Known, d: Directory) -> bool {
    forall|email: Seq<char>| #[trigger]
        known.rcpt(email) == Some(false) ==> !d.entries.contains_key(Key::EmailToId(email))
}

/// Whether what the snapshot knows of the records and the usage counters
/// is what the store holds.
pub open spec fn reflects_records(known: Known, d: Directory) -> bool {
    &&& forall|id: u32| #[trigger]
        known.record(id) matches Some(found) ==> match found {
            Some(hashed) => d.record(id) == Some(hashed.inner),
            None => !d.entries.contains_key(Key::Principal(id)),
        }
    &&& forall|id: u32| #[trigger] known.used_quota(id) matches Some(used) ==> d.counter(id) == used
}

/// Whether the edge scans that the snapshot knows hold exactly the edges of
/// the store.
pub open spec fn reflects_edges(known: Known, d: Directory) -> bool {
    &&& forall|id: u32, peer: u32|
        #![trigger member_of_step(known, id), d.is_member_of(id, peer)]
        member_of_step(known, id) matches Step::Done(list) ==> (d.is_member_of(id, peer)
            <==> exists|i: int| 0 <= i < list.len() && (#[trigger] list[i]).principal_id == peer)
    &&& forall|id: u32, peer: u32|
        #![trigger members_step(known, id), d.has_member(id, peer)]
        members_step(known, id) matches Step::Done(list) ==> (d.has_member(id, peer)
            <==> list.contains(peer))
}

/// Whether everything that the snapshot knows was read from the store as
/// it is now.
pub open spec fn reflects(known: Known, d: Directory) -> bool {
    &&& reflects_names(known, d)
    &&& reflects_emails(known, d)
    &&& reflects_records(known, d)
    &&& reflects_edges(known, d)
}

} // verus!
