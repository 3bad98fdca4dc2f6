//! The set of domain names that have already been validated during one
//! operation, kept in an `ahash` hash set.

use vstd::prelude::*;

verus! {

/// `ahash::RandomState`, the hasher of the set; nothing is said of it.
#[verifier::external_type_specification]
#[verifier::external_body]
pub struct ExRandomState(ahash::RandomState);

/// `ahash::AHashSet`, a hash set of the standard library with that hasher;
/// what it holds is told by [`domain_names`].
#[verifier::external_type_specification]
#[verifier::external_body]
#[verifier::reject_recursive_types(T)]
#[verifier::reject_recursive_types(S)]
pub struct ExAHashSet<T, S>(ahash::AHashSet<T, S>);

/// The domain names held by a set.
pub uninterp spec fn domain_names(set: ahash::AHashSet<String>) -> Set<Seq<char>>;

/// `AHashSet::new`: a fresh set holds nothing.
#[verifier::external_body]
pub(crate) fn domains_new() -> (set: ahash::AHashSet<String>)
    ensures
        domain_names(set) == Set::<Seq<char>>::empty(),
{
    ahash::AHashSet::new()
}

/// `HashSet::insert`, reached through `AHashSet`'s deref: the value joins the
/// set, and the result tells whether it was absent before.
#[verifier::external_body]
pub(crate) fn domains_insert(set: &mut ahash::AHashSet<String>, domain: String) -> (fresh: bool)
    ensures
        domain_names(*final(set)) == domain_names(*old(set)).insert(domain@),
        fresh == !domain_names(*old(set)).contains(domain@),
{
    set.insert(domain)
}

/// `HashSet::is_empty`, reached through `AHashSet`'s deref.
#[verifier::external_body]
pub(crate) fn domains_is_empty(set: &ahash::AHashSet<String>) -> (empty: bool)
    ensures
        empty == (domain_names(*set) == Set::<Seq<char>>::empty()),
{
    set.is_empty()
}

} // verus!
