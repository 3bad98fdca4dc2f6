//! Reading the directory: point lookups, the two edge scans, and listing
//! and counting principals by kind, tenant and text.

use vstd::prelude::*;
use vstd::utf8::{decode_utf8, valid_utf8};
use crate::error::{DirectoryError, Fault, StoreError, StoreFault};
use crate::keys::{deserialize_be_u32, from_be32, info_of_bytes};
use crate::lists::deep_view_push;
use crate::principal::{Principal, PrincipalModel};
use crate::snapshot::{agrees, Entry, Known, Outcome, Query, Question, Snapshot, Step};
use crate::text::{
    contains, decimal, from_utf8, from_utf8_lossy, lossy_text, lowercase_words, occurs_in,
    to_decimal, words,
};
use crate::types::{MemberOf, PrincipalInfo, Type};

verus! {

/// The failure that a malformed key or value gives.
pub open spec fn corrupt() -> Fault {
    Fault::Store(StoreFault::DataCorruption)
}

/// The identifier in the last four bytes of a key, if the key has four.
pub open spec fn peer_of(key: Seq<u8>) -> Option<u32> {
    if key.len() >= 4 {
        Some(from_be32(key.subrange(key.len() - 4, key.len() as int)))
    } else {
        None
    }
}

/// The kind recorded on an edge: that of its first byte, or a group where
/// the edge carries no byte.
pub open spec fn edge_type(value: Seq<u8>) -> Type {
    if value.len() > 0 {
        Type::of_code(value[0])
    } else {
        Type::Group
    }
}

/// Whether every key of a scan ends in an identifier.
pub open spec fn peers_readable(entries: Seq<(Seq<u8>, Seq<u8>)>) -> bool {
    forall|i: int| 0 <= i < entries.len() ==> (#[trigger] entries[i]).0.len() >= 4
}

/// The forward edges that a scan stands for, in the order of the scan.
pub open spec fn member_of_list(entries: Seq<(Seq<u8>, Seq<u8>)>) -> Seq<MemberOf> {
    Seq::new(
        entries.len(),
        |i: int|
            MemberOf { principal_id: peer_of(entries[i].0)->0, typ: edge_type(entries[i].1) },
    )
}

/// The far ends of the edges that a scan stands for, in the order of the
/// scan.
pub open spec fn peer_list(entries: Seq<(Seq<u8>, Seq<u8>)>) -> Seq<u32> {
    Seq::new(entries.len(), |i: int| peer_of(entries[i].0)->0)
}

/// What reading the forward edges of `id` gives.
pub open spec fn member_of_step(known: Known, id: u32) -> Step<Seq<MemberOf>> {
    match known.entries(Question::MemberOf(id)) {
        None => Step::Ask(Question::MemberOf(id)),
        Some(entries) => if peers_readable(entries) {
            Step::Done(member_of_list(entries))
        } else {
            Step::Fail(corrupt())
        },
    }
}

/// What reading the reverse edges of `id` gives.
pub open spec fn members_step(known: Known, id: u32) -> Step<Seq<u32>> {
    match known.entries(Question::Members(id)) {
        None => Step::Ask(Question::Members(id)),
        Some(entries) => if peers_readable(entries) {
            Step::Done(peer_list(entries))
        } else {
            Step::Fail(corrupt())
        },
    }
}

/// Decodes the forward edges of a scan.
pub fn decode_member_of(entries: &Vec<Entry>) -> (r: Result<Vec<MemberOf>, DirectoryError>)
    ensures
        match r {
            Ok(list) => peers_readable(entries.deep_view()) && list@ == member_of_list(
                entries.deep_view(),
            ),
            Err(e) => !peers_readable(entries.deep_view()) && e@ == corrupt(),
        },
{
    let mut out: Vec<MemberOf> = Vec::new();
    let mut i: usize = 0;
    while i < entries.len()
        invariant
            i <= entries.len(),
            out.len() == i,
            forall|j: int| 0 <= j < i ==> (#[trigger] entries.deep_view()[j]).0.len() >= 4,
            forall|j: int| 0 <= j < i ==> out@[j] == member_of_list(entries.deep_view())[j],
        decreases entries.len() - i,
    {
        let entry = &entries[i];
        assert(entries.deep_view()[i as int] == entry@);
        if entry.key.len() < 4 {
            return Err(DirectoryError::Store(StoreError::DataCorruption));
        }
        let peer = match deserialize_be_u32(&entry.key, entry.key.len() - 4) {
            Some(peer) => peer,
            None => {
                return Err(DirectoryError::Store(StoreError::DataCorruption));
            },
        };
        let typ = if entry.value.len() > 0 {
            Type::from_u8(entry.value[0])
        } else {
            Type::Group
        };
        out.push(MemberOf { principal_id: peer, typ });
        i = i + 1;
    }
    assert(out@ =~= member_of_list(entries.deep_view()));
    Ok(out)
}

/// Decodes the far ends of the edges of a scan.
pub fn decode_members(entries: &Vec<Entry>) -> (r: Result<Vec<u32>, DirectoryError>)
    ensures
        match r {
            Ok(list) => peers_readable(entries.deep_view()) && list@ == peer_list(
                entries.deep_view(),
            ),
            Err(e) => !peers_readable(entries.deep_view()) && e@ == corrupt(),
        },
{
    let mut out: Vec<u32> = Vec::new();
    let mut i: usize = 0;
    while i < entries.len()
        invariant
            i <= entries.len(),
            out.len() == i,
            forall|j: int| 0 <= j < i ==> (#[trigger] entries.deep_view()[j]).0.len() >= 4,
            forall|j: int| 0 <= j < i ==> out@[j] == peer_list(entries.deep_view())[j],
        decreases entries.len() - i,
    {
        let entry = &entries[i];
        assert(entries.deep_view()[i as int] == entry@);
        if entry.key.len() < 4 {
            return Err(DirectoryError::Store(StoreError::DataCorruption));
        }
        let peer = match deserialize_be_u32(&entry.key, entry.key.len() - 4) {
            Some(peer) => peer,
            None => {
                return Err(DirectoryError::Store(StoreError::DataCorruption));
            },
        };
        out.push(peer);
        i = i + 1;
    }
    assert(out@ =~= peer_list(entries.deep_view()));
    Ok(out)
}

/// The bytes of a key after its leading byte.
pub open spec fn key_suffix(key: Seq<u8>) -> Seq<u8> {
    if key.len() >= 1 {
        key.subrange(1, key.len() as int)
    } else {
        Seq::empty()
    }
}

fn suffix_of(key: &Vec<u8>) -> (r: Vec<u8>)
    ensures
        r@ == key_suffix(key@),
{
    let mut out: Vec<u8> = Vec::new();
    let mut i: usize = 1;
    while i < key.len()
        invariant
            1 <= i,
            i <= key.len() || key.len() == 0,
            key.len() >= 1 ==> out@ == key@.subrange(1, i as int),
            key.len() == 0 ==> out@ == Seq::<u8>::empty(),
        decreases key.len() - i,
    {
        out.push(key[i]);
        assert(key@.subrange(1, i as int).push(key@[i as int]) =~= key@.subrange(1, i + 1));
        i = i + 1;
    }
    assert(key.len() >= 1 ==> out@ =~= key@.subrange(1, key.len() as int));
    out
}

/// The name that the bytes behind the leading byte of a key give when
/// principals are listed: the text that they encode, or where they encode
/// none, what they read as with every ill-formed part replaced.
pub open spec fn listed_name(bytes: Seq<u8>) -> Seq<char> {
    if valid_utf8(bytes) {
        decode_utf8(bytes)
    } else {
        lossy_text(bytes)
    }
}

/// Whether a principal of the given index payload passes the filters on
/// kind and tenant.
pub open spec fn selected(info: PrincipalInfo, typ: Option<Type>, tenant: Option<u32>) -> bool {
    (typ matches Some(t) ==> info.typ == t) && info.visible_to(tenant)
}

fn is_selected(info: &PrincipalInfo, typ: Option<Type>, tenant: Option<u32>) -> (r: bool)
    ensures
        r == selected(*info, typ, tenant),
{
    let kind_fits = match typ {
        Some(t) => info.typ == t,
        None => true,
    };
    kind_fits && info.has_tenant_access(tenant)
}

/// The principals of a scan of the name index from position `from` on that
/// pass the filters, each with its identifier and name, behind those already
/// found. A value that is no index payload spoils the scan.
pub open spec fn candidates_from(
    entries: Seq<(Seq<u8>, Seq<u8>)>,
    typ: Option<Type>,
    tenant: Option<u32>,
    from: int,
    found: Seq<(u32, Seq<char>)>,
) -> Option<Seq<(u32, Seq<char>)>>
    decreases entries.len() - from,
{
    if from < 0 || from >= entries.len() {
        Some(found)
    } else {
        match info_of_bytes(entries[from].1) {
            None => None,
            Some(info) => candidates_from(
                entries,
                typ,
                tenant,
                from + 1,
                if selected(info, typ, tenant) {
                    found.push((info.id, listed_name(key_suffix(entries[from].0))))
                } else {
                    found
                },
            ),
        }
    }
}

/// The principals of a scan of the name index that pass the filters on kind
/// and tenant.
pub open spec fn candidates(
    entries: Seq<(Seq<u8>, Seq<u8>)>,
    typ: Option<Type>,
    tenant: Option<u32>,
) -> Option<Seq<(u32, Seq<char>)>> {
    candidates_from(entries, typ, tenant, 0, Seq::empty())
}

/// One candidate of a listing.
pub struct Candidate {
    pub id: u32,
    pub name: String,
}

impl View for Candidate {
    type V = (u32, Seq<char>);

    open spec fn view(&self) -> (u32, Seq<char>) {
        (self.id, self.name@)
    }
}

impl DeepView for Candidate {
    type V = (u32, Seq<char>);

    open spec fn deep_view(&self) -> (u32, Seq<char>) {
        self@
    }
}

/// Selects the candidates of a scan of the name index.
pub fn select_candidates(entries: &Vec<Entry>, typ: Option<Type>, tenant: Option<u32>) -> (r:
    Result<Vec<Candidate>, DirectoryError>)
    ensures
        match candidates(entries.deep_view(), typ, tenant) {
            Some(found) => r matches Ok(list) && list.deep_view() == found,
            None => r matches Err(e) && e@ == corrupt(),
        },
{
    let mut out: Vec<Candidate> = Vec::new();
    let mut i: usize = 0;
    assert(out.deep_view() =~= Seq::empty());
    while i < entries.len()
        invariant
            i <= entries.len(),
            candidates(entries.deep_view(), typ, tenant) == candidates_from(
                entries.deep_view(),
                typ,
                tenant,
                i as int,
                out.deep_view(),
            ),
        decreases entries.len() - i,
    {
        let entry = &entries[i];
        assert(entries.deep_view()[i as int] == entry@);
        let info = match PrincipalInfo::deserialize(&entry.value) {
            Ok(info) => info,
            Err(e) => {
                return Err(e);
            },
        };
        if is_selected(&info, typ, tenant) {
            let name = from_utf8_lossy(&suffix_of(&entry.key));
            let ghost before = out.deep_view();
            let candidate = Candidate { id: info.id, name };
            out.push(candidate);
            assert(out.deep_view() =~= before.push(candidate@));
        }
        i = i + 1;
    }
    Ok(out)
}

/// Whether `token` occurs in the name, the description or one of the
/// addresses of a principal.
pub open spec fn mentions(p: PrincipalModel, token: Seq<char>) -> bool {
    ||| occurs_in(token, p.name)
    ||| (p.description matches Some(d) && occurs_in(token, d))
    ||| exists|i: int| 0 <= i < p.emails.len() && occurs_in(token, #[trigger] p.emails[i])
}

/// Whether every token occurs in the principal.
pub open spec fn mentions_all(p: PrincipalModel, tokens: Seq<Seq<char>>) -> bool {
    forall|i: int| 0 <= i < tokens.len() ==> mentions(p, #[trigger] tokens[i])
}

impl Principal {
    /// Whether `token` occurs in the name, the description or one of the
    /// addresses.
    pub fn find_str(&self, token: &str) -> (r: bool)
        ensures
            r == mentions(self@, token@),
    {
        if contains(self.name.as_str(), token) {
            return true;
        }
        match &self.description {
            Some(d) => {
                if contains(d.as_str(), token) {
                    return true;
                }
            },
            None => {},
        }
        let mut i: usize = 0;
        while i < self.emails.len()
            invariant
                i <= self.emails.len(),
                forall|j: int| 0 <= j < i ==> !occurs_in(token@, #[trigger] self.emails.deep_view()[j]),
            decreases self.emails.len() - i,
        {
            if contains(self.emails[i].as_str(), token) {
                assert(occurs_in(token@, self@.emails[i as int]));
                return true;
            }
            i = i + 1;
        }
        false
    }

    /// Whether every token occurs in the principal.
    pub fn find_all(&self, tokens: &Vec<String>) -> (r: bool)
        ensures
            r == mentions_all(self@, tokens.deep_view()),
    {
        let mut i: usize = 0;
        while i < tokens.len()
            invariant
                i <= tokens.len(),
                forall|j: int| 0 <= j < i ==> mentions(self@, #[trigger] tokens.deep_view()[j]),
            decreases tokens.len() - i,
        {
            if !self.find_str(tokens[i].as_str()) {
                assert(!mentions(self@, tokens.deep_view()[i as int]));
                return false;
            }
            i = i + 1;
        }
        true
    }
}

/// The names of the candidates from position `from` on whose records
/// mention every token, behind those already found. A record that is not
/// known yet is asked for; one that does not exist fails the listing.
pub open spec fn matching_from(
    known: Known,
    found: Seq<(u32, Seq<char>)>,
    tokens: Seq<Seq<char>>,
    from: int,
    names: Seq<Seq<char>>,
) -> Step<Seq<Seq<char>>>
    decreases found.len() - from,
{
    if from < 0 || from >= found.len() {
        Step::Done(names)
    } else {
        match known.record(found[from].0) {
            None => Step::Ask(Question::Record(found[from].0)),
            Some(None) => Step::Fail(Fault::NotFound(decimal(found[from].0 as u64))),
            Some(Some(hashed)) => matching_from(
                known,
                found,
                tokens,
                from + 1,
                if mentions_all(hashed.inner, tokens) {
                    names.push(found[from].1)
                } else {
                    names
                },
            ),
        }
    }
}

/// The names of the candidates.
pub open spec fn names_of(found: Seq<(u32, Seq<char>)>) -> Seq<Seq<char>> {
    Seq::new(found.len(), |i: int| found[i].1)
}

/// What listing the principals gives: the names of the name index, in its
/// order, that pass the filters on kind and tenant and, where a text filter
/// is given, whose records mention every lower-cased word of it.
pub open spec fn list_step(
    known: Known,
    filter: Option<Seq<char>>,
    typ: Option<Type>,
    tenant: Option<u32>,
) -> Step<Seq<Seq<char>>> {
    match known.entries(Question::Names) {
        None => Step::Ask(Question::Names),
        Some(entries) => match candidates(entries, typ, tenant) {
            None => Step::Fail(corrupt()),
            Some(found) => match filter {
                Some(text) => matching_from(known, found, words(text), 0, Seq::empty()),
                None => Step::Done(names_of(found)),
            },
        },
    }
}

/// The number of entries of a scan of the name index from position `from`
/// on that pass the filters on kind and tenant and whose name holds the
/// filter text, added to `count`. A key that is no well-formed text has the
/// empty name.
pub open spec fn count_from(
    entries: Seq<(Seq<u8>, Seq<u8>)>,
    filter: Option<Seq<char>>,
    typ: Option<Type>,
    tenant: Option<u32>,
    from: int,
    count: int,
) -> Option<int>
    decreases entries.len() - from,
{
    if from < 0 || from >= entries.len() {
        Some(count)
    } else {
        match info_of_bytes(entries[from].1) {
            None => None,
            Some(info) => count_from(
                entries,
                filter,
                typ,
                tenant,
                from + 1,
                if selected(info, typ, tenant) && name_passes(key_suffix(entries[from].0), filter) {
                    count + 1
                } else {
                    count
                },
            ),
        }
    }
}

/// The name that the bytes of a key give when principals are counted.
pub open spec fn counted_name(bytes: Seq<u8>) -> Seq<char> {
    if valid_utf8(bytes) {
        decode_utf8(bytes)
    } else {
        Seq::empty()
    }
}

/// Whether the name in the bytes of a key holds the filter text.
pub open spec fn name_passes(bytes: Seq<u8>, filter: Option<Seq<char>>) -> bool {
    filter matches Some(text) ==> occurs_in(text, counted_name(bytes))
}

/// What counting the principals gives.
pub open spec fn count_step(
    known: Known,
    filter: Option<Seq<char>>,
    typ: Option<Type>,
    tenant: Option<u32>,
) -> Step<int> {
    match known.entries(Question::Names) {
        None => Step::Ask(Question::Names),
        Some(entries) => match count_from(entries, filter, typ, tenant, 0, 0) {
            None => Step::Fail(corrupt()),
            Some(count) => Step::Done(count),
        },
    }
}

/// The filter of a listing or a count as a mathematical value.
pub open spec fn filter_of(filter: Option<&str>) -> Option<Seq<char>> {
    match filter {
        Some(text) => Some(text@),
        None => None,
    }
}

impl Snapshot {
    /// What the name index holds for `name`.
    pub fn get_principal_info(&self, name: &str) -> (r: Outcome<Option<PrincipalInfo>>)
        ensures
            match self@.info(name@) {
                Some(info) => r == Outcome::<Option<PrincipalInfo>>::Done(info),
                None => r matches Outcome::Ask(query) && query@ == Question::Info(name@),
            },
            self@.well_formed() ==> (r matches Outcome::Ask(query) ==> self@.reply(query@) is None),
    {
        proof {
            if self@.well_formed() {
                crate::progress::reading_asks_anew(
                    self@,
                    None,
                    None,
                    None,
                    0,
                    name@,
                    Type::Individual,
                );
            }
        }
        match self.info(name) {
            Ok(info) => Outcome::Done(info),
            Err(query) => Outcome::Ask(query),
        }
    }

    /// The identifier of the principal called `name`.
    pub fn get_principal_id(&self, name: &str) -> (r: Outcome<Option<u32>>)
        ensures
            match self@.info(name@) {
                Some(Some(info)) => r == Outcome::<Option<u32>>::Done(Some(info.id)),
                Some(None) => r == Outcome::<Option<u32>>::Done(None),
                None => r matches Outcome::Ask(query) && query@ == Question::Info(name@),
            },
            self@.well_formed() ==> (r matches Outcome::Ask(query) ==> self@.reply(query@) is None),
    {
        proof {
            if self@.well_formed() {
                crate::progress::reading_asks_anew(
                    self@,
                    None,
                    None,
                    None,
                    0,
                    name@,
                    Type::Individual,
                );
            }
        }
        match self.info(name) {
            Ok(Some(info)) => Outcome::Done(Some(info.id)),
            Ok(None) => Outcome::Done(None),
            Err(query) => Outcome::Ask(query),
        }
    }

    /// The name of the principal with the identifier `principal_id`.
    pub fn get_principal_name(&self, principal_id: u32) -> (r: Outcome<Option<String>>)
        ensures
            match self@.record(principal_id) {
                Some(Some(hashed)) => r matches Outcome::Done(Some(name)) && name@
                    == hashed.inner.name,
                Some(None) => r matches Outcome::Done(None),
                None => r matches Outcome::Ask(query) && query@ == Question::Record(principal_id),
            },
            self@.well_formed() ==> (r matches Outcome::Ask(query) ==> self@.reply(query@) is None),
    {
        proof {
            if self@.well_formed() {
                crate::progress::reading_asks_anew(
                    self@,
                    None,
                    None,
                    None,
                    principal_id,
                    Seq::empty(),
                    Type::Individual,
                );
            }
        }
        match self.record(principal_id) {
            Ok(Some(hashed)) => Outcome::Done(Some(hashed.inner.name.clone())),
            Ok(None) => Outcome::Done(None),
            Err(query) => Outcome::Ask(query),
        }
    }

    /// The principals that `principal_id` is a member of, each with the
    /// kind recorded on the edge.
    pub fn get_member_of(&self, principal_id: u32) -> (r: Outcome<Vec<MemberOf>>)
        ensures
            agrees(
                r,
                member_of_step(self@, principal_id),
                |list: Vec<MemberOf>, m: Seq<MemberOf>| list@ == m,
            ),
            self@.well_formed() ==> (r matches Outcome::Ask(query) ==> self@.reply(query@) is None),
    {
        proof {
            if self@.well_formed() {
                crate::progress::reading_asks_anew(
                    self@,
                    None,
                    None,
                    None,
                    principal_id,
                    Seq::empty(),
                    Type::Individual,
                );
            }
        }
        match self.entries(Query::MemberOf(principal_id)) {
            Err(query) => Outcome::Ask(query),
            Ok(entries) => match decode_member_of(entries) {
                Ok(list) => Outcome::Done(list),
                Err(e) => Outcome::Fail(e),
            },
        }
    }

    /// The members of `principal_id`.
    pub fn get_members(&self, principal_id: u32) -> (r: Outcome<Vec<u32>>)
        ensures
            agrees(
                r,
                members_step(self@, principal_id),
                |list: Vec<u32>, m: Seq<u32>| list@ == m,
            ),
            self@.well_formed() ==> (r matches Outcome::Ask(query) ==> self@.reply(query@) is None),
    {
        proof {
            if self@.well_formed() {
                crate::progress::reading_asks_anew(
                    self@,
                    None,
                    None,
                    None,
                    principal_id,
                    Seq::empty(),
                    Type::Individual,
                );
            }
        }
        match self.entries(Query::Members(principal_id)) {
            Err(query) => Outcome::Ask(query),
            Ok(entries) => match decode_members(entries) {
                Ok(list) => Outcome::Done(list),
                Err(e) => Outcome::Fail(e),
            },
        }
    }

    /// The names of the principals that pass the filters.
    #[verifier::loop_isolation(false)]
    pub fn list_principals(
        &self,
        filter: Option<&str>,
        typ: Option<Type>,
        tenant_id: Option<u32>,
    ) -> (r: Outcome<Vec<String>>)
        ensures
            agrees(
                r,
                list_step(self@, filter_of(filter), typ, tenant_id),
                |list: Vec<String>, m: Seq<Seq<char>>| list.deep_view() == m,
            ),
            self@.well_formed() ==> (r matches Outcome::Ask(query) ==> self@.reply(query@) is None),
    {
        proof {
            if self@.well_formed() {
                crate::progress::reading_asks_anew(
                    self@,
                    filter_of(filter),
                    typ,
                    tenant_id,
                    0,
                    Seq::empty(),
                    Type::Individual,
                );
            }
        }
        let entries = match self.entries(Query::Names) {
            Ok(entries) => entries,
            Err(query) => {
                return Outcome::Ask(query);
            },
        };
        let found = match select_candidates(entries, typ, tenant_id) {
            Ok(found) => found,
            Err(e) => {
                return Outcome::Fail(e);
            },
        };
        let mut names: Vec<String> = Vec::new();
        assert(names.deep_view() =~= Seq::empty());
        match filter {
            Some(text) => {
                let tokens = lowercase_words(text);
                let mut i: usize = 0;
                while i < found.len()
                    invariant
                        i <= found.len(),
                        tokens.deep_view() == words(text@),
                        matching_from(self@, found.deep_view(), words(text@), 0, Seq::empty())
                            == matching_from(
                            self@,
                            found.deep_view(),
                            words(text@),
                            i as int,
                            names.deep_view(),
                        ),
                    decreases found.len() - i,
                {
                    assert(found.deep_view()[i as int] == found[i as int]@);
                    let hashed = match self.record(found[i].id) {
                        Err(query) => {
                            return Outcome::Ask(query);
                        },
                        Ok(None) => {
                            return Outcome::Fail(
                                DirectoryError::NotFound(to_decimal(found[i].id as u64)),
                            );
                        },
                        Ok(Some(hashed)) => hashed,
                    };
                    if hashed.inner.find_all(&tokens) {
                        let ghost before = names;
                        let name = found[i].name.clone();
                        names.push(name);
                        proof {
                            deep_view_push(before, names, name);
                        }
                    }
                    i = i + 1;
                }
                Outcome::Done(names)
            },
            None => {
                let mut i: usize = 0;
                while i < found.len()
                    invariant
                        i <= found.len(),
                        names.deep_view() == names_of(found.deep_view()).take(i as int),
                    decreases found.len() - i,
                {
                    assert(found.deep_view()[i as int] == found[i as int]@);
                    let ghost before = names;
                    let name = found[i].name.clone();
                    names.push(name);
                    proof {
                        deep_view_push(before, names, name);
                        assert(names_of(found.deep_view()).take(i as int).push(name@)
                            =~= names_of(found.deep_view()).take(i + 1));
                    }
                    i = i + 1;
                }
                assert(names_of(found.deep_view()).take(found.len() as int) =~= names_of(
                    found.deep_view(),
                ));
                Outcome::Done(names)
            },
        }
    }

    /// The number of principals that pass the filters.
    #[verifier::loop_isolation(false)]
    pub fn count_principals(
        &self,
        filter: Option<&str>,
        typ: Option<Type>,
        tenant_id: Option<u32>,
    ) -> (r: Outcome<u64>)
        ensures
            agrees(
                r,
                count_step(self@, filter_of(filter), typ, tenant_id),
                |n: u64, m: int| n == m,
            ),
            self@.well_formed() ==> (r matches Outcome::Ask(query) ==> self@.reply(query@) is None),
    {
        proof {
            if self@.well_formed() {
                crate::progress::reading_asks_anew(
                    self@,
                    filter_of(filter),
                    typ,
                    tenant_id,
                    0,
                    Seq::empty(),
                    Type::Individual,
                );
            }
        }
        let entries = match self.entries(Query::Names) {
            Ok(entries) => entries,
            Err(query) => {
                return Outcome::Ask(query);
            },
        };
        let mut count: u64 = 0;
        let mut i: usize = 0;
        while i < entries.len()
            invariant
                i <= entries.len(),
                count <= i,
                count_from(entries.deep_view(), filter_of(filter), typ, tenant_id, 0, 0)
                    == count_from(
                    entries.deep_view(),
                    filter_of(filter),
                    typ,
                    tenant_id,
                    i as int,
                    count as int,
                ),
            decreases entries.len() - i,
        {
            let entry = &entries[i];
            assert(entries.deep_view()[i as int] == entry@);
            let info = match PrincipalInfo::deserialize(&entry.value) {
                Ok(info) => info,
                Err(e) => {
                    return Outcome::Fail(e);
                },
            };
            if is_selected(&info, typ, tenant_id) {
                let passes = match filter {
                    None => true,
                    Some(text) => {
                        let name = match from_utf8(&suffix_of(&entry.key)) {
                            Some(name) => name,
                            None => String::new(),
                        };
                        contains(name.as_str(), text)
                    },
                };
                if passes {
                    count = count + 1;
                }
            }
            i = i + 1;
        }
        Outcome::Done(count)
    }
}

} // verus!
