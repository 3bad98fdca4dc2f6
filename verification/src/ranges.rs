//! The key ranges that the scans of the directory cover.
//!
//! The store orders its keys as byte strings. The edges of one principal
//! lie between the edge to the least and the edge to the greatest
//! identifier, and no other key does.

use vstd::prelude::*;
use crate::keys::{
    be32, be32_ordered, DirectoryClass, Key, MaybeDynamicId, MEMBERS, MEMBER_OF,
    NAME_TO_ID,
};

verus! {

/// Whether `a` comes before `b` or is `b` in the order of the store: at the
/// first place where they differ `a` has the smaller byte, or `a` ends
/// first.
pub open spec fn bytes_le(a: Seq<u8>, b: Seq<u8>) -> bool
    decreases a.len(),
{
    if a.len() == 0 {
        true
    } else if b.len() == 0 {
        false
    } else if a[0] != b[0] {
        a[0] < b[0]
    } else {
        bytes_le(a.drop_first(), b.drop_first())
    }
}

/// Whether a key lies in the range from `from` to `to`, both included.
pub open spec fn within(key: Seq<u8>, from: Seq<u8>, to: Seq<u8>) -> bool {
    bytes_le(from, key) && bytes_le(key, to)
}

/// The greatest suffix that a scan of the name index reaches.
pub open spec fn last_name() -> Seq<u8> {
    seq![0xffu8, 0xff, 0xff, 0xff, 0xff, 0xff, 0xff, 0xff, 0xff, 0xff]
}

/// Two byte strings of the same length that are not equal compare as they
/// do at the first place where they differ, whatever follows them.
proof fn first_difference_decides(a: Seq<u8>, b: Seq<u8>, x: Seq<u8>, y: Seq<u8>, at: int)
    requires
        a.len() == b.len(),
        0 <= at < a.len(),
        a[at] < b[at],
        forall|j: int| 0 <= j < at ==> a[j] == b[j],
    ensures
        bytes_le(a + x, b + y),
        !bytes_le(b + y, a + x),
    decreases a.len(),
{
    if at > 0 {
        assert((a + x).drop_first() =~= a.drop_first() + x);
        assert((b + y).drop_first() =~= b.drop_first() + y);
        assert forall|j: int| 0 <= j < at - 1 implies a.drop_first()[j] == b.drop_first()[j] by {
            assert(a[j + 1] == b[j + 1]);
        }
        first_difference_decides(a.drop_first(), b.drop_first(), x, y, at - 1);
    }
}

/// Behind a common beginning two byte strings compare as their rests do.
proof fn common_prefix_cancels(p: Seq<u8>, x: Seq<u8>, y: Seq<u8>)
    ensures
        bytes_le(p + x, p + y) == bytes_le(x, y),
    decreases p.len(),
{
    if p.len() == 0 {
        assert(p + x =~= x);
        assert(p + y =~= y);
    } else {
        assert((p + x).drop_first() =~= p.drop_first() + x);
        assert((p + y).drop_first() =~= p.drop_first() + y);
        common_prefix_cancels(p.drop_first(), x, y);
    }
}

/// Every byte string comes before itself or is itself.
proof fn bytes_le_itself(a: Seq<u8>)
    ensures
        bytes_le(a, a),
    decreases a.len(),
{
    if a.len() > 0 {
        bytes_le_itself(a.drop_first());
    }
}

/// Stored identifiers compare as the identifiers do, whatever follows
/// them.
pub proof fn identifiers_in_order(x: u32, y: u32, rest_x: Seq<u8>, rest_y: Seq<u8>)
    requires
        x < y,
    ensures
        bytes_le(be32(x) + rest_x, be32(y) + rest_y),
        !bytes_le(be32(y) + rest_y, be32(x) + rest_x),
{
    be32_ordered(x, y);
    let at = choose|i: int|
        0 <= i < 4 && be32(x)[i] < be32(y)[i] && forall|j: int|
            0 <= j < i ==> be32(x)[j] == be32(y)[j];
    first_difference_decides(be32(x), be32(y), rest_x, rest_y, at);
}

/// An identifier lies between the least and the greatest.
proof fn identifier_in_range(x: u32)
    ensures
        bytes_le(be32(0), be32(x)),
        bytes_le(be32(x), be32(0xFFFF_FFFF)),
{
    if x > 0 {
        identifiers_in_order(0, x, Seq::empty(), Seq::empty());
        assert(be32(0) + Seq::<u8>::empty() =~= be32(0));
        assert(be32(x) + Seq::<u8>::empty() =~= be32(x));
    } else {
        bytes_le_itself(be32(0));
    }
    if x < 0xFFFF_FFFF {
        identifiers_in_order(x, 0xFFFF_FFFF, Seq::empty(), Seq::empty());
        assert(be32(x) + Seq::<u8>::empty() =~= be32(x));
        assert(be32(0xFFFF_FFFF) + Seq::<u8>::empty() =~= be32(0xFFFF_FFFF));
    } else {
        bytes_le_itself(be32(x));
    }
}

/// The least key among the forward edges of a principal.
pub open spec fn first_member_of(id: u32) -> Seq<u8> {
    Key::MemberOf(id, 0).encode()
}

/// The greatest key among the forward edges of a principal.
pub open spec fn last_member_of(id: u32) -> Seq<u8> {
    Key::MemberOf(id, 0xFFFF_FFFF).encode()
}

/// The least key among the reverse edges of a principal.
pub open spec fn first_members(id: u32) -> Seq<u8> {
    Key::Members(id, 0).encode()
}

/// The greatest key among the reverse edges of a principal.
pub open spec fn last_members(id: u32) -> Seq<u8> {
    Key::Members(id, 0xFFFF_FFFF).encode()
}

/// Whether a key with this leading byte and these two identifiers lies in
/// the range of the edges of `id` with the same leading byte.
proof fn edge_range(family: u8, id: u32, from: u32, to: u32)
    ensures
        within(
            seq![family] + be32(from) + be32(to),
            seq![family] + be32(id) + be32(0),
            seq![family] + be32(id) + be32(0xFFFF_FFFF),
        ) <==> from == id,
{
    let key = seq![family] + be32(from) + be32(to);
    let first = seq![family] + be32(id) + be32(0);
    let last = seq![family] + be32(id) + be32(0xFFFF_FFFF);
    assert(key =~= seq![family] + (be32(from) + be32(to)));
    assert(first =~= seq![family] + (be32(id) + be32(0)));
    assert(last =~= seq![family] + (be32(id) + be32(0xFFFF_FFFF)));
    common_prefix_cancels(seq![family], be32(id) + be32(0), be32(from) + be32(to));
    common_prefix_cancels(seq![family], be32(from) + be32(to), be32(id) + be32(0xFFFF_FFFF));
    if from == id {
        common_prefix_cancels(be32(id), be32(0), be32(to));
        common_prefix_cancels(be32(id), be32(to), be32(0xFFFF_FFFF));
        identifier_in_range(to);
    } else if from < id {
        identifiers_in_order(from, id, be32(to), be32(0));
    } else {
        identifiers_in_order(id, from, be32(0xFFFF_FFFF), be32(to));
    }
}

/// A key of another family lies outside the range of a family, because it
/// begins with another byte.
proof fn other_family_is_outside(key: Seq<u8>, family: u8, first: Seq<u8>, last: Seq<u8>)
    requires
        key.len() > 0,
        key[0] != family,
    ensures
        !within(key, seq![family] + first, seq![family] + last),
{
}

/// The scan of the forward edges of a principal covers exactly the forward
/// edges of that principal: of all the keys of the directory, those
/// between the edge to the least and the edge to the greatest identifier
/// are the edges from the principal.
pub proof fn member_of_range_is_exact(id: u32, key: Key)
    ensures
        within(key.encode(), first_member_of(id), last_member_of(id)) <==> (key matches Key::MemberOf(
            from,
            _,
        ) && from == id),
{
    let first = be32(id) + be32(0);
    let last = be32(id) + be32(0xFFFF_FFFF);
    assert(first_member_of(id) =~= seq![MEMBER_OF] + first);
    assert(last_member_of(id) =~= seq![MEMBER_OF] + last);
    match key {
        Key::MemberOf(from, to) => {
            edge_range(MEMBER_OF, id, from, to);
        },
        _ => {
            other_family_is_outside(key.encode(), MEMBER_OF, first, last);
        },
    }
}

/// The scan of the reverse edges of a principal covers exactly the reverse
/// edges of that principal.
pub proof fn members_range_is_exact(id: u32, key: Key)
    ensures
        within(key.encode(), first_members(id), last_members(id)) <==> (key matches Key::Members(
            of,
            _,
        ) && of == id),
{
    let first = be32(id) + be32(0);
    let last = be32(id) + be32(0xFFFF_FFFF);
    assert(first_members(id) =~= seq![MEMBERS] + first);
    assert(last_members(id) =~= seq![MEMBERS] + last);
    match key {
        Key::Members(of, member) => {
            edge_range(MEMBERS, id, of, member);
        },
        _ => {
            other_family_is_outside(key.encode(), MEMBERS, first, last);
        },
    }
}

/// The first and the last key of the scan of the forward edges of a
/// principal.
pub fn member_of_range(principal_id: u32) -> (r: (Vec<u8>, Vec<u8>))
    ensures
        r.0@ == first_member_of(principal_id),
        r.1@ == last_member_of(principal_id),
{
    (
        DirectoryClass::MemberOf {
            principal_id: MaybeDynamicId::Static(principal_id),
            member_of: MaybeDynamicId::Static(0),
        }.serialize(0),
        DirectoryClass::MemberOf {
            principal_id: MaybeDynamicId::Static(principal_id),
            member_of: MaybeDynamicId::Static(0xFFFF_FFFF),
        }.serialize(0),
    )
}

/// The first and the last key of the scan of the reverse edges of a
/// principal.
pub fn members_range(principal_id: u32) -> (r: (Vec<u8>, Vec<u8>))
    ensures
        r.0@ == first_members(principal_id),
        r.1@ == last_members(principal_id),
{
    (
        DirectoryClass::Members {
            principal_id: MaybeDynamicId::Static(principal_id),
            has_member: MaybeDynamicId::Static(0),
        }.serialize(0),
        DirectoryClass::Members {
            principal_id: MaybeDynamicId::Static(principal_id),
            has_member: MaybeDynamicId::Static(0xFFFF_FFFF),
        }.serialize(0),
    )
}

/// The first and the last key of the scan of the name index: the leading
/// byte alone, and the leading byte with ten times the greatest byte.
pub fn names_range() -> (r: (Vec<u8>, Vec<u8>))
    ensures
        r.0@ == seq![NAME_TO_ID],
        r.1@ == seq![NAME_TO_ID] + last_name(),
{
    let mut from: Vec<u8> = Vec::new();
    from.push(NAME_TO_ID);
    let mut to: Vec<u8> = Vec::new();
    to.push(NAME_TO_ID);
    let mut i: usize = 0;
    while i < 10
        invariant
            i <= 10,
            to@.len() == i + 1,
            to@[0] == NAME_TO_ID,
            forall|j: int| 1 <= j < to@.len() ==> to@[j] == 0xff,
        decreases 10 - i,
    {
        to.push(0xff);
        i = i + 1;
    }
    assert(from@ =~= seq![NAME_TO_ID]);
    assert(to@ =~= seq![NAME_TO_ID] + last_name());
    (from, to)
}

} // verus!
