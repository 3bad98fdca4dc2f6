//! The key families of the directory and their ordered binary layout.
//!
//! Every family has its own leading byte. Identifiers are written as four
//! bytes, most significant first, so that the store's byte order agrees with
//! the numeric order and a range scan between the least and the greatest
//! second identifier returns exactly the edges of one principal.

use vstd::prelude::*;
use vstd::string::*;
use vstd::utf8::encode_utf8;
use crate::error::{DirectoryError, Fault, StoreError, StoreFault};
use crate::types::{PrincipalInfo, Type};

verus! {

/// Leading byte of the name index.
pub const NAME_TO_ID: u8 = 0;

/// Leading byte of the e-mail index.
pub const EMAIL_TO_ID: u8 = 1;

/// Leading byte of the principal records.
pub const PRINCIPAL: u8 = 2;

/// Leading byte of the usage counters.
pub const USED_QUOTA: u8 = 4;

/// Leading byte of the forward membership edges.
pub const MEMBER_OF: u8 = 5;

/// Leading byte of the reverse membership edges.
pub const MEMBERS: u8 = 6;

/// Number of bytes of a stored identifier.
pub const U32_LEN: usize = 4;

/// The four bytes of an identifier, most significant first.
pub open spec fn be32(x: u32) -> Seq<u8> {
    seq![
        ((x >> 24) & 0xff) as u8,
        ((x >> 16) & 0xff) as u8,
        ((x >> 8) & 0xff) as u8,
        (x & 0xff) as u8,
    ]
}

/// The identifier that four bytes stand for, most significant first.
pub open spec fn from_be32(b: Seq<u8>) -> u32
    recommends
        b.len() == 4,
{
    ((b[0] as u32) << 24) | ((b[1] as u32) << 16) | ((b[2] as u32) << 8) | (b[3] as u32)
}

/// Reading an identifier back from its bytes gives the identifier.
pub proof fn be32_round_trip(x: u32)
    ensures
        be32(x).len() == 4,
        from_be32(be32(x)) == x,
{
    let b0 = ((x >> 24) & 0xff) as u8;
    let b1 = ((x >> 16) & 0xff) as u8;
    let b2 = ((x >> 8) & 0xff) as u8;
    let b3 = (x & 0xff) as u8;
    assert(((b0 as u32) << 24) | ((b1 as u32) << 16) | ((b2 as u32) << 8) | (b3 as u32) == x)
        by (bit_vector)
        requires
            b0 == ((x >> 24) & 0xff) as u8,
            b1 == ((x >> 16) & 0xff) as u8,
            b2 == ((x >> 8) & 0xff) as u8,
            b3 == (x & 0xff) as u8,
    ;
}

/// The byte order of stored identifiers is their numeric order: of two
/// identifiers the smaller has the smaller byte at the first place where
/// their bytes differ.
pub proof fn be32_ordered(x: u32, y: u32)
    requires
        x < y,
    ensures
        exists|i: int|
            0 <= i < 4 && be32(x)[i] < be32(y)[i] && forall|j: int|
                0 <= j < i ==> be32(x)[j] == be32(y)[j],
{
    let x0 = ((x >> 24) & 0xff) as u8;
    let x1 = ((x >> 16) & 0xff) as u8;
    let x2 = ((x >> 8) & 0xff) as u8;
    let x3 = (x & 0xff) as u8;
    let y0 = ((y >> 24) & 0xff) as u8;
    let y1 = ((y >> 16) & 0xff) as u8;
    let y2 = ((y >> 8) & 0xff) as u8;
    let y3 = (y & 0xff) as u8;
    assert(x0 < y0 || (x0 == y0 && (x1 < y1 || (x1 == y1 && (x2 < y2 || (x2 == y2 && x3 < y3))))))
        by (bit_vector)
        requires
            x < y,
            x0 == ((x >> 24) & 0xff) as u8,
            x1 == ((x >> 16) & 0xff) as u8,
            x2 == ((x >> 8) & 0xff) as u8,
            x3 == (x & 0xff) as u8,
            y0 == ((y >> 24) & 0xff) as u8,
            y1 == ((y >> 16) & 0xff) as u8,
            y2 == ((y >> 8) & 0xff) as u8,
            y3 == (y & 0xff) as u8,
    ;
    let i: int = if x0 < y0 {
        0
    } else if x1 < y1 {
        1
    } else if x2 < y2 {
        2
    } else {
        3
    };
    assert(0 <= i < 4 && be32(x)[i] < be32(y)[i] && forall|j: int|
        0 <= j < i ==> be32(x)[j] == be32(y)[j]);
}

/// Appends the four bytes of an identifier.
pub fn write_be32(out: &mut Vec<u8>, x: u32)
    ensures
        final(out)@ == old(out)@ + be32(x),
{
    let b0 = ((x >> 24) & 0xff) as u8;
    let b1 = ((x >> 16) & 0xff) as u8;
    let b2 = ((x >> 8) & 0xff) as u8;
    let b3 = (x & 0xff) as u8;
    out.push(b0);
    out.push(b1);
    out.push(b2);
    out.push(b3);
    assert(out@ =~= old(out)@ + be32(x));
}

/// Reads the identifier whose four bytes start at `index`, if the bytes are
/// there.
pub fn deserialize_be_u32(bytes: &Vec<u8>, index: usize) -> (r: Option<u32>)
    ensures
        r is Some == (index + 4 <= bytes@.len()),
        r matches Some(x) ==> x == from_be32(bytes@.subrange(index as int, index + 4)),
{
    if bytes.len() < 4 || index > bytes.len() - 4 {
        return None;
    }
    let b0 = bytes[index];
    let b1 = bytes[index + 1];
    let b2 = bytes[index + 2];
    let b3 = bytes[index + 3];
    Some(((b0 as u32) << 24) | ((b1 as u32) << 16) | ((b2 as u32) << 8) | (b3 as u32))
}

/// An identifier inside a batch: one that is known, or the place of one that
/// the store assigns when the batch is committed.
#[derive(Clone, Copy, Debug, PartialEq, Eq)]
pub enum MaybeDynamicId {
    Static(u32),
    Dynamic(usize),
}

impl MaybeDynamicId {
    /// The identifier once the store has assigned `id` to the batch.
    pub open spec fn bind(self, id: u32) -> u32 {
        match self {
            MaybeDynamicId::Static(known) => known,
            MaybeDynamicId::Dynamic(_) => id,
        }
    }

    /// The identifier once the store has assigned `id` to the batch.
    pub fn resolve(&self, id: u32) -> (r: u32)
        ensures
            r == self.bind(id),
    {
        match self {
            MaybeDynamicId::Static(known) => *known,
            MaybeDynamicId::Dynamic(_) => id,
        }
    }
}

/// A key of the directory as a batch names it.
#[derive(Clone, Debug, PartialEq, Eq)]
pub enum DirectoryClass {
    NameToId(String),
    EmailToId(String),
    Principal(MaybeDynamicId),
    MemberOf { principal_id: MaybeDynamicId, member_of: MaybeDynamicId },
    Members { principal_id: MaybeDynamicId, has_member: MaybeDynamicId },
    UsedQuota(u32),
}

/// The mathematical value of a [`DirectoryClass`].
pub enum ClassModel {
    NameToId(Seq<char>),
    EmailToId(Seq<char>),
    Principal(MaybeDynamicId),
    MemberOf { principal_id: MaybeDynamicId, member_of: MaybeDynamicId },
    Members { principal_id: MaybeDynamicId, has_member: MaybeDynamicId },
    UsedQuota(u32),
}

/// A key of the directory as the store holds it.
pub enum Key {
    /// The index entry of a name.
    NameToId(Seq<char>),
    /// The index entry of an e-mail address.
    EmailToId(Seq<char>),
    /// The record of a principal.
    Principal(u32),
    /// The forward edge: the first principal is a member of the second.
    MemberOf(u32, u32),
    /// The reverse edge: the first principal has the second as a member.
    Members(u32, u32),
    /// The usage counter of a principal.
    UsedQuota(u32),
}

impl View for DirectoryClass {
    type V = ClassModel;

    open spec fn view(&self) -> ClassModel {
        match self {
            DirectoryClass::NameToId(name) => ClassModel::NameToId(name@),
            DirectoryClass::EmailToId(email) => ClassModel::EmailToId(email@),
            DirectoryClass::Principal(id) => ClassModel::Principal(*id),
            DirectoryClass::MemberOf { principal_id, member_of } => ClassModel::MemberOf {
                principal_id: *principal_id,
                member_of: *member_of,
            },
            DirectoryClass::Members { principal_id, has_member } => ClassModel::Members {
                principal_id: *principal_id,
                has_member: *has_member,
            },
            DirectoryClass::UsedQuota(id) => ClassModel::UsedQuota(*id),
        }
    }
}

impl ClassModel {
    /// The key that the store sees once it has assigned `id` to the batch.
    pub open spec fn bind(self, id: u32) -> Key {
        match self {
            ClassModel::NameToId(name) => Key::NameToId(name),
            ClassModel::EmailToId(email) => Key::EmailToId(email),
            ClassModel::Principal(p) => Key::Principal(p.bind(id)),
            ClassModel::MemberOf { principal_id, member_of } => Key::MemberOf(
                principal_id.bind(id),
                member_of.bind(id),
            ),
            ClassModel::Members { principal_id, has_member } => Key::Members(
                principal_id.bind(id),
                has_member.bind(id),
            ),
            ClassModel::UsedQuota(p) => Key::UsedQuota(p),
        }
    }

    /// Whether the key names a membership edge.
    pub open spec fn is_edge(self) -> bool {
        self is MemberOf || self is Members
    }
}

impl Key {
    /// The bytes under which the store files the key.
    pub open spec fn encode(self) -> Seq<u8> {
        match self {
            Key::NameToId(name) => seq![NAME_TO_ID] + encode_utf8(name),
            Key::EmailToId(email) => seq![EMAIL_TO_ID] + encode_utf8(email),
            Key::Principal(id) => seq![PRINCIPAL] + be32(id),
            Key::UsedQuota(id) => seq![USED_QUOTA] + be32(id),
            Key::MemberOf(from, to) => seq![MEMBER_OF] + be32(from) + be32(to),
            Key::Members(of, member) => seq![MEMBERS] + be32(of) + be32(member),
        }
    }
}

impl DirectoryClass {
    /// The bytes of the key once the store has assigned `id` to the batch.
    pub fn serialize(&self, id: u32) -> (r: Vec<u8>)
        ensures
            r@ == self@.bind(id).encode(),
    {
        let mut out: Vec<u8> = Vec::new();
        match self {
            DirectoryClass::NameToId(name) => {
                out.push(NAME_TO_ID);
                out.extend_from_slice(name.as_str().as_bytes());
                assert(out@ =~= seq![NAME_TO_ID] + encode_utf8(name@));
            },
            DirectoryClass::EmailToId(email) => {
                out.push(EMAIL_TO_ID);
                out.extend_from_slice(email.as_str().as_bytes());
                assert(out@ =~= seq![EMAIL_TO_ID] + encode_utf8(email@));
            },
            DirectoryClass::Principal(p) => {
                out.push(PRINCIPAL);
                write_be32(&mut out, p.resolve(id));
                assert(out@ =~= seq![PRINCIPAL] + be32(p.bind(id)));
            },
            DirectoryClass::UsedQuota(p) => {
                out.push(USED_QUOTA);
                write_be32(&mut out, *p);
                assert(out@ =~= seq![USED_QUOTA] + be32(*p));
            },
            DirectoryClass::MemberOf { principal_id, member_of } => {
                out.push(MEMBER_OF);
                write_be32(&mut out, principal_id.resolve(id));
                write_be32(&mut out, member_of.resolve(id));
                assert(out@ =~= seq![MEMBER_OF] + be32(principal_id.bind(id)) + be32(
                    member_of.bind(id),
                ));
            },
            DirectoryClass::Members { principal_id, has_member } => {
                out.push(MEMBERS);
                write_be32(&mut out, principal_id.resolve(id));
                write_be32(&mut out, has_member.resolve(id));
                assert(out@ =~= seq![MEMBERS] + be32(principal_id.bind(id)) + be32(
                    has_member.bind(id),
                ));
            },
        }
        out
    }

    /// The key with every placeholder replaced by the assigned identifier.
    pub fn resolve(&self, id: u32) -> (r: DirectoryClass)
        ensures
            r@.bind(0) == self@.bind(id),
            forall|other: u32| r@.bind(other) == self@.bind(id),
    {
        match self {
            DirectoryClass::NameToId(name) => DirectoryClass::NameToId(name.clone()),
            DirectoryClass::EmailToId(email) => DirectoryClass::EmailToId(email.clone()),
            DirectoryClass::Principal(p) => DirectoryClass::Principal(
                MaybeDynamicId::Static(p.resolve(id)),
            ),
            DirectoryClass::UsedQuota(p) => DirectoryClass::UsedQuota(*p),
            DirectoryClass::MemberOf { principal_id, member_of } => DirectoryClass::MemberOf {
                principal_id: MaybeDynamicId::Static(principal_id.resolve(id)),
                member_of: MaybeDynamicId::Static(member_of.resolve(id)),
            },
            DirectoryClass::Members { principal_id, has_member } => DirectoryClass::Members {
                principal_id: MaybeDynamicId::Static(principal_id.resolve(id)),
                has_member: MaybeDynamicId::Static(has_member.resolve(id)),
            },
        }
    }
}

/// The last four bytes of an edge key hold the identifier at the far end of
/// the edge.
pub proof fn edge_key_ends_with_peer(from: u32, to: u32)
    ensures
        ({
            let k = Key::MemberOf(from, to).encode();
            k.len() == 9 && from_be32(k.subrange(k.len() - 4, k.len() as int)) == to
        }),
        ({
            let k = Key::Members(from, to).encode();
            k.len() == 9 && from_be32(k.subrange(k.len() - 4, k.len() as int)) == to
        }),
{
    be32_round_trip(to);
    let k = Key::MemberOf(from, to).encode();
    assert(k.subrange(k.len() - 4, k.len() as int) =~= be32(to));
    let m = Key::Members(from, to).encode();
    assert(m.subrange(m.len() - 4, m.len() as int) =~= be32(to));
}

/// The bytes of an index payload: the identifier, the code of the kind, and
/// the tenant's identifier where there is one.
pub open spec fn info_bytes(info: PrincipalInfo) -> Seq<u8> {
    match info.tenant {
        Some(tenant) => be32(info.id) + seq![info.typ.code()] + be32(tenant),
        None => be32(info.id) + seq![info.typ.code()],
    }
}

/// The index payload that the bytes stand for, if they are well formed.
pub open spec fn info_of_bytes(b: Seq<u8>) -> Option<PrincipalInfo> {
    if b.len() == 5 {
        Some(PrincipalInfo { id: from_be32(b.subrange(0, 4)), typ: Type::of_code(b[4]), tenant: None })
    } else if b.len() == 9 {
        Some(
            PrincipalInfo {
                id: from_be32(b.subrange(0, 4)),
                typ: Type::of_code(b[4]),
                tenant: Some(from_be32(b.subrange(5, 9))),
            },
        )
    } else {
        None
    }
}

/// Reading an index payload back from its bytes gives the payload.
pub proof fn info_round_trip(info: PrincipalInfo)
    ensures
        info_of_bytes(info_bytes(info)) == Some(info),
{
    let b = info_bytes(info);
    be32_round_trip(info.id);
    assert(b.subrange(0, 4) =~= be32(info.id));
    match info.tenant {
        Some(tenant) => {
            be32_round_trip(tenant);
            assert(b.subrange(5, 9) =~= be32(tenant));
        },
        None => {},
    }
}

impl PrincipalInfo {
    /// The bytes of the payload.
    pub fn serialize(&self) -> (r: Vec<u8>)
        ensures
            r@ == info_bytes(*self),
    {
        let mut out: Vec<u8> = Vec::new();
        write_be32(&mut out, self.id);
        out.push(self.typ.to_u8());
        match self.tenant {
            Some(tenant) => {
                write_be32(&mut out, tenant);
                assert(out@ =~= be32(self.id) + seq![self.typ.code()] + be32(tenant));
            },
            None => {
                assert(out@ =~= be32(self.id) + seq![self.typ.code()]);
            },
        }
        out
    }

    /// The payload that the bytes stand for.
    pub fn deserialize(bytes: &Vec<u8>) -> (r: Result<PrincipalInfo, DirectoryError>)
        ensures
            match info_of_bytes(bytes@) {
                Some(info) => r == Ok::<PrincipalInfo, DirectoryError>(info),
                None => r matches Err(e) && e@ == Fault::Store(StoreFault::DataCorruption),
            },
    {
        if bytes.len() != 5 && bytes.len() != 9 {
            return Err(DirectoryError::Store(StoreError::DataCorruption));
        }
        let id = match deserialize_be_u32(bytes, 0) {
            Some(id) => id,
            None => {
                return Err(DirectoryError::Store(StoreError::DataCorruption));
            },
        };
        let typ = Type::from_u8(bytes[4]);
        if bytes.len() == 9 {
            match deserialize_be_u32(bytes, 5) {
                Some(tenant) => Ok(PrincipalInfo { id, typ, tenant: Some(tenant) }),
                None => Err(DirectoryError::Store(StoreError::DataCorruption)),
            }
        } else {
            Ok(PrincipalInfo { id, typ, tenant: None })
        }
    }
}

} // verus!
