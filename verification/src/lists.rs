//! Ordered lists of texts and identifiers: membership tests, duplicates and
//! selective removal.

use vstd::prelude::*;
use crate::text::{is_password, lowercase, plain_password, same_text, starts_with, to_lowercase};

verus! {

/// The list with each element's later repetitions removed.
pub open spec fn distinct<A>(s: Seq<A>) -> Seq<A>
    decreases s.len(),
{
    if s.len() == 0 {
        s
    } else {
        let rest = distinct(s.drop_last());
        if rest.contains(s.last()) {
            rest
        } else {
            rest.push(s.last())
        }
    }
}

/// Every text of the list in lower case.
pub open spec fn lowered(s: Seq<Seq<char>>) -> Seq<Seq<char>> {
    s.map_values(|t: Seq<char>| lowercase(t))
}

/// Which entries of a list of texts a removal takes out.
pub enum Removal<'a> {
    /// Entries equal to the text.
    Equal(&'a str),
    /// Entries that begin with the text, the text itself included.
    Prefixed(&'a str),
    /// Entries that are plain passwords.
    Plain,
}

/// The mathematical value of a [`Removal`].
pub enum Taken {
    Equal(Seq<char>),
    Prefixed(Seq<char>),
    Plain,
}

impl<'a> View for Removal<'a> {
    type V = Taken;

    open spec fn view(&self) -> Taken {
        match self {
            Removal::Equal(x) => Taken::Equal(x@),
            Removal::Prefixed(x) => Taken::Prefixed(x@),
            Removal::Plain => Taken::Plain,
        }
    }
}

impl Taken {
    /// Whether the removal takes `t` out.
    pub open spec fn takes(self, t: Seq<char>) -> bool {
        match self {
            Taken::Equal(x) => t == x,
            Taken::Prefixed(x) => x.is_prefix_of(t),
            Taken::Plain => plain_password(t),
        }
    }
}

impl<'a> Removal<'a> {
    /// Whether the removal takes `t` out.
    pub fn applies(&self, t: &str) -> (r: bool)
        ensures
            r == self@.takes(t@),
    {
        match self {
            Removal::Equal(x) => same_text(t, x),
            Removal::Prefixed(x) => starts_with(t, x),
            Removal::Plain => is_password(t),
        }
    }
}

/// What is left of a list of texts after a removal, in the old order.
pub open spec fn surviving(s: Seq<Seq<char>>, removal: Taken) -> Seq<Seq<char>> {
    s.filter(|t: Seq<char>| !removal.takes(t))
}

/// What is left of a list of numbers after every `x` is taken out.
pub open spec fn excluding(s: Seq<u64>, x: u64) -> Seq<u64> {
    s.filter(|c: u64| c != x)
}

/// Pushing a text onto a list pushes its characters onto the list of
/// characters.
pub proof fn deep_view_push(before: Vec<String>, after: Vec<String>, last: String)
    requires
        after@ == before@.push(last),
    ensures
        after.deep_view() == before.deep_view().push(last@),
{
    assert(after.deep_view() =~= before.deep_view().push(last@));
}

/// A copy of a list of texts.
pub fn clone_texts(v: &Vec<String>) -> (r: Vec<String>)
    ensures
        r.deep_view() == v.deep_view(),
{
    let mut out: Vec<String> = Vec::new();
    let mut i: usize = 0;
    while i < v.len()
        invariant
            i <= v.len(),
            out.deep_view() == v.deep_view().take(i as int),
        decreases v.len() - i,
    {
        let ghost before = out;
        let item = v[i].clone();
        out.push(item);
        proof {
            deep_view_push(before, out, item);
            assert(v.deep_view().take(i as int).push(v.deep_view()[i as int])
                =~= v.deep_view().take(i + 1));
        }
        i = i + 1;
    }
    assert(v.deep_view().take(v.len() as int) =~= v.deep_view());
    out
}

/// A copy of a list of numbers.
pub fn clone_codes(v: &Vec<u64>) -> (r: Vec<u64>)
    ensures
        r@ == v@,
{
    let mut out: Vec<u64> = Vec::new();
    let mut i: usize = 0;
    while i < v.len()
        invariant
            i <= v.len(),
            out@ == v@.take(i as int),
        decreases v.len() - i,
    {
        out.push(v[i]);
        assert(v@.take(i as int).push(v@[i as int]) =~= v@.take(i + 1));
        i = i + 1;
    }
    assert(v@.take(v.len() as int) =~= v@);
    out
}

/// A copy of a run of bytes.
pub fn clone_bytes(v: &Vec<u8>) -> (r: Vec<u8>)
    ensures
        r@ == v@,
{
    let mut out: Vec<u8> = Vec::new();
    let mut i: usize = 0;
    while i < v.len()
        invariant
            i <= v.len(),
            out@ == v@.take(i as int),
        decreases v.len() - i,
    {
        out.push(v[i]);
        assert(v@.take(i as int).push(v@[i as int]) =~= v@.take(i + 1));
        i = i + 1;
    }
    assert(v@.take(v.len() as int) =~= v@);
    out
}

/// A copy of a list of identifiers.
pub fn clone_ids(v: &Vec<u32>) -> (r: Vec<u32>)
    ensures
        r@ == v@,
{
    let mut out: Vec<u32> = Vec::new();
    let mut i: usize = 0;
    while i < v.len()
        invariant
            i <= v.len(),
            out@ == v@.take(i as int),
        decreases v.len() - i,
    {
        out.push(v[i]);
        assert(v@.take(i as int).push(v@[i as int]) =~= v@.take(i + 1));
        i = i + 1;
    }
    assert(v@.take(v.len() as int) =~= v@);
    out
}

/// Whether the list holds the text.
pub fn has_text(v: &Vec<String>, s: &str) -> (r: bool)
    ensures
        r == v.deep_view().contains(s@),
{
    let mut i: usize = 0;
    while i < v.len()
        invariant
            i <= v.len(),
            forall|j: int| 0 <= j < i ==> v.deep_view()[j] != s@,
        decreases v.len() - i,
    {
        if same_text(v[i].as_str(), s) {
            assert(v.deep_view()[i as int] == s@);
            return true;
        }
        i = i + 1;
    }
    false
}

/// Whether the list holds the number.
pub fn has_code(v: &Vec<u64>, x: u64) -> (r: bool)
    ensures
        r == v@.contains(x),
{
    let mut i: usize = 0;
    while i < v.len()
        invariant
            i <= v.len(),
            forall|j: int| 0 <= j < i ==> v@[j] != x,
        decreases v.len() - i,
    {
        if v[i] == x {
            return true;
        }
        i = i + 1;
    }
    false
}

/// Position of the first `x` in the list.
pub fn position_of(v: &Vec<u32>, x: u32) -> (r: Option<usize>)
    ensures
        r is Some == v@.contains(x),
        r matches Some(at) ==> at < v@.len() && v@.index_of_first(x) == Some(at as int),
        r is None ==> v@.index_of_first(x) is None,
{
    let mut i: usize = 0;
    while i < v.len()
        invariant
            i <= v.len(),
            forall|j: int| 0 <= j < i ==> v@[j] != x,
        decreases v.len() - i,
    {
        if v[i] == x {
            proof {
                v@.index_of_first_ensures(x);
            }
            return Some(i);
        }
        i = i + 1;
    }
    proof {
        v@.index_of_first_ensures(x);
    }
    None
}

/// Whether the list holds the identifier.
pub fn has_id(v: &Vec<u32>, x: u32) -> (r: bool)
    ensures
        r == v@.contains(x),
{
    position_of(v, x).is_some()
}

/// Every text of the list in lower case.
pub fn lowercase_all(v: &Vec<String>) -> (r: Vec<String>)
    ensures
        r.deep_view() == lowered(v.deep_view()),
{
    let mut out: Vec<String> = Vec::new();
    let mut i: usize = 0;
    while i < v.len()
        invariant
            i <= v.len(),
            out.deep_view() == lowered(v.deep_view()).take(i as int),
        decreases v.len() - i,
    {
        let ghost before = out;
        let item = to_lowercase(v[i].as_str());
        out.push(item);
        proof {
            deep_view_push(before, out, item);
            assert(lowered(v.deep_view()).take(i as int).push(lowered(v.deep_view())[i as int])
                =~= lowered(v.deep_view()).take(i + 1));
        }
        i = i + 1;
    }
    assert(lowered(v.deep_view()).take(v.len() as int) =~= lowered(v.deep_view()));
    out
}

/// The list without the later repetitions of its texts.
pub fn dedupe_texts(v: &Vec<String>) -> (r: Vec<String>)
    ensures
        r.deep_view() == distinct(v.deep_view()),
{
    let mut out: Vec<String> = Vec::new();
    let mut i: usize = 0;
    assert(v.deep_view().take(0) =~= Seq::<Seq<char>>::empty());
    while i < v.len()
        invariant
            i <= v.len(),
            out.deep_view() == distinct(v.deep_view().take(i as int)),
        decreases v.len() - i,
    {
        proof {
            assert(v.deep_view().take(i + 1).drop_last() =~= v.deep_view().take(i as int));
        }
        if !has_text(&out, v[i].as_str()) {
            let ghost before = out;
            let item = v[i].clone();
            out.push(item);
            proof {
                deep_view_push(before, out, item);
            }
        }
        i = i + 1;
    }
    assert(v.deep_view().take(v.len() as int) =~= v.deep_view());
    out
}

/// The list without the later repetitions of its numbers.
pub fn dedupe_codes(v: &Vec<u64>) -> (r: Vec<u64>)
    ensures
        r@ == distinct(v@),
{
    let mut out: Vec<u64> = Vec::new();
    let mut i: usize = 0;
    assert(v@.take(0) =~= Seq::<u64>::empty());
    while i < v.len()
        invariant
            i <= v.len(),
            out@ == distinct(v@.take(i as int)),
        decreases v.len() - i,
    {
        proof {
            assert(v@.take(i + 1).drop_last() =~= v@.take(i as int));
        }
        if !has_code(&out, v[i]) {
            out.push(v[i]);
        }
        i = i + 1;
    }
    assert(v@.take(v.len() as int) =~= v@);
    out
}

/// A removal looks at each entry by itself.
pub proof fn surviving_push(s: Seq<Seq<char>>, last: Seq<char>, removal: Taken)
    ensures
        surviving(Seq::empty(), removal) == Seq::<Seq<char>>::empty(),
        surviving(s.push(last), removal) == if removal.takes(last) {
            surviving(s, removal)
        } else {
            surviving(s, removal).push(last)
        },
{
    reveal(Seq::filter);
    assert(s.push(last).drop_last() =~= s);
}

/// Taking a number out looks at each entry by itself.
pub proof fn excluding_push(s: Seq<u64>, last: u64, x: u64)
    ensures
        excluding(Seq::empty(), x) == Seq::<u64>::empty(),
        excluding(s.push(last), x) == if last == x {
            excluding(s, x)
        } else {
            excluding(s, x).push(last)
        },
{
    reveal(Seq::filter);
    assert(s.push(last).drop_last() =~= s);
}

/// What is left of the list after a removal.
pub fn remove_texts(v: &Vec<String>, removal: &Removal) -> (r: Vec<String>)
    ensures
        r.deep_view() == surviving(v.deep_view(), removal@),
{
    let mut out: Vec<String> = Vec::new();
    let mut i: usize = 0;
    proof {
        assert(v.deep_view().take(0) =~= Seq::<Seq<char>>::empty());
        surviving_push(Seq::empty(), Seq::empty(), removal@);
    }
    while i < v.len()
        invariant
            i <= v.len(),
            out.deep_view() == surviving(v.deep_view().take(i as int), removal@),
        decreases v.len() - i,
    {
        proof {
            assert(v.deep_view().take(i + 1) =~= v.deep_view().take(i as int).push(
                v.deep_view()[i as int],
            ));
            surviving_push(v.deep_view().take(i as int), v.deep_view()[i as int], removal@);
        }
        if !removal.applies(v[i].as_str()) {
            let ghost before = out;
            let item = v[i].clone();
            out.push(item);
            proof {
                deep_view_push(before, out, item);
            }
        }
        i = i + 1;
    }
    assert(v.deep_view().take(v.len() as int) =~= v.deep_view());
    out
}

/// What is left of the list after every `x` is taken out.
pub fn remove_code(v: &Vec<u64>, x: u64) -> (r: Vec<u64>)
    ensures
        r@ == excluding(v@, x),
{
    let mut out: Vec<u64> = Vec::new();
    let mut i: usize = 0;
    proof {
        assert(v@.take(0) =~= Seq::<u64>::empty());
        excluding_push(Seq::empty(), 0, x);
    }
    while i < v.len()
        invariant
            i <= v.len(),
            out@ == excluding(v@.take(i as int), x),
        decreases v.len() - i,
    {
        proof {
            assert(v@.take(i + 1) =~= v@.take(i as int).push(v@[i as int]));
            excluding_push(v@.take(i as int), v@[i as int], x);
        }
        if v[i] != x {
            out.push(v[i]);
        }
        i = i + 1;
    }
    assert(v@.take(v.len() as int) =~= v@);
    out
}

} // verus!
