//! Operations on names, addresses and secrets as text.

use vstd::prelude::*;
use vstd::string::*;

verus! {

/// The lower-case form of a text, as Unicode defines it.
pub uninterp spec fn lowercase(s: Seq<char>) -> Seq<char>;

/// A text between double quotes with its special characters escaped, as it
/// is shown inside messages.
pub uninterp spec fn quoted(s: Seq<char>) -> Seq<char>;

/// The decimal digits of a number.
pub uninterp spec fn decimal(n: u64) -> Seq<char>;

/// Whether a character is Unicode white space.
pub uninterp spec fn is_space(c: char) -> bool;

/// What a run of bytes reads as when every ill-formed part of it is replaced
/// by the replacement character.
pub uninterp spec fn lossy_text(bytes: Seq<u8>) -> Seq<char>;

/// `String::from_utf8_lossy`: the text that the bytes read as, which for
/// well-formed bytes is the text that they encode.
#[verifier::external_body]
pub(crate) fn from_utf8_lossy(bytes: &Vec<u8>) -> (r: String)
    ensures
        r@ == lossy_text(bytes@),
        vstd::utf8::valid_utf8(bytes@) ==> r@ == vstd::utf8::decode_utf8(bytes@),
{
    String::from_utf8_lossy(bytes.as_slice()).into_owned()
}

/// `std::str::from_utf8`: the text that the bytes encode, if they are
/// well formed.
#[verifier::external_body]
pub(crate) fn from_utf8(bytes: &Vec<u8>) -> (r: Option<String>)
    ensures
        r is Some == vstd::utf8::valid_utf8(bytes@),
        r matches Some(text) ==> text@ == vstd::utf8::decode_utf8(bytes@),
{
    match std::str::from_utf8(bytes.as_slice()) {
        Ok(text) => Some(text.to_owned()),
        Err(_) => None,
    }
}

/// `str::to_lowercase`: the result is the lower-case form of the argument.
#[verifier::external_body]
pub(crate) fn to_lowercase(s: &str) -> (r: String)
    ensures
        r@ == lowercase(s@),
{
    s.to_lowercase()
}

/// `format!("{:?}", s)` on a string slice: the result is the quoted form of
/// the argument.
#[verifier::external_body]
pub(crate) fn to_quoted(s: &str) -> (r: String)
    ensures
        r@ == quoted(s@),
{
    format!("{:?}", s)
}

/// `u64::to_string`: the result is the decimal form of the argument.
#[verifier::external_body]
pub(crate) fn to_decimal(n: u64) -> (r: String)
    ensures
        r@ == decimal(n),
{
    n.to_string()
}

/// `char::is_whitespace`.
#[verifier::external_body]
pub(crate) fn is_whitespace(c: char) -> (r: bool)
    ensures
        r == is_space(c),
{
    c.is_whitespace()
}

/// `str::starts_with` with a string pattern: whether the pattern is a prefix
/// of the text.
#[verifier::external_body]
pub(crate) fn starts_with(s: &str, prefix: &str) -> (r: bool)
    ensures
        r == prefix@.is_prefix_of(s@),
{
    s.starts_with(prefix)
}

/// Whether `needle` occurs in `s` as a contiguous run of characters.
pub open spec fn occurs_in(needle: Seq<char>, s: Seq<char>) -> bool {
    exists|i: int|
        0 <= i && i + needle.len() <= s.len() && #[trigger] s.subrange(i, i + needle.len())
            == needle
}

/// `str::contains` with a string pattern: whether the pattern occurs
/// somewhere in the text.
#[verifier::external_body]
pub(crate) fn contains(s: &str, needle: &str) -> (r: bool)
    ensures
        r == occurs_in(needle@, s@),
{
    s.contains(needle)
}

/// Whether two texts hold the same characters.
pub fn same_text(a: &str, b: &str) -> (r: bool)
    ensures
        r == (a@ == b@),
{
    let x = a.to_owned();
    let y = b.to_owned();
    x == y
}

/// A copy of a text.
pub fn owned(s: &str) -> (r: String)
    ensures
        r@ == s@,
{
    s.to_owned()
}

/// Index of the first `@` at or after `from`, or the length of the text
/// where there is none.
pub open spec fn at_sign_from(s: Seq<char>, from: int) -> int
    decreases s.len() - from,
{
    if from < 0 || from >= s.len() {
        s.len() as int
    } else if s[from] == '@' {
        from
    } else {
        at_sign_from(s, from + 1)
    }
}

/// The domain of a name or address: what stands between its first `@` and
/// the next one, or the end. A text without `@` has no domain.
pub open spec fn domain_part(s: Seq<char>) -> Option<Seq<char>> {
    let first = at_sign_from(s, 0);
    if first >= s.len() {
        None
    } else {
        Some(s.subrange(first + 1, at_sign_from(s, first + 1)))
    }
}

fn find_at_sign(s: &str, len: usize, from: usize) -> (r: usize)
    requires
        len == s@.len(),
        from <= len,
    ensures
        r == at_sign_from(s@, from as int),
        from <= r <= len,
{
    let mut i: usize = from;
    while i < len
        invariant
            len == s@.len(),
            from <= i <= len,
            at_sign_from(s@, from as int) == at_sign_from(s@, i as int),
        decreases len - i,
    {
        if s.get_char(i) == '@' {
            return i;
        }
        i = i + 1;
    }
    i
}

/// The domain of a name or address.
pub fn domain_of(s: &str) -> (r: Option<String>)
    ensures
        r.is_some() == domain_part(s@).is_some(),
        r matches Some(d) ==> domain_part(s@) == Some(d@),
{
    let len = s.unicode_len();
    let first = find_at_sign(s, len, 0);
    if first >= len {
        None
    } else {
        let next = find_at_sign(s, len, first + 1);
        Some(owned(s.substring_char(first + 1, next)))
    }
}

/// Whether a secret is a one-time-password enrolment address.
pub open spec fn otp_auth(s: Seq<char>) -> bool {
    "otpauth://"@.is_prefix_of(s)
}

/// Whether a secret is an application password.
pub open spec fn app_password(s: Seq<char>) -> bool {
    "$app$"@.is_prefix_of(s)
}

/// Whether a secret is a plain password: neither of the special forms.
pub open spec fn plain_password(s: Seq<char>) -> bool {
    !otp_auth(s) && !app_password(s)
}

/// Whether a secret is a one-time-password enrolment address.
pub fn is_otp_auth(s: &str) -> (r: bool)
    ensures
        r == otp_auth(s@),
{
    starts_with(s, "otpauth://")
}

/// Whether a secret is an application password.
pub fn is_app_password(s: &str) -> (r: bool)
    ensures
        r == app_password(s@),
{
    starts_with(s, "$app$")
}

/// Whether a secret is a plain password.
pub fn is_password(s: &str) -> (r: bool)
    ensures
        r == plain_password(s@),
{
    !is_otp_auth(s) && !is_app_password(s)
}

/// Index of the first white-space character at or after `from`, or the
/// length of the text where there is none.
pub open spec fn word_end(s: Seq<char>, from: int) -> int
    decreases s.len() - from,
{
    if from < 0 || from >= s.len() {
        s.len() as int
    } else if is_space(s[from]) {
        from
    } else {
        word_end(s, from + 1)
    }
}

/// A word ends behind its first character and within the text.
pub proof fn word_end_bounds(s: Seq<char>, from: int)
    requires
        0 <= from <= s.len(),
    ensures
        from <= word_end(s, from) <= s.len(),
        from < s.len() && !is_space(s[from]) ==> from < word_end(s, from),
    decreases s.len() - from,
{
    if from < s.len() && !is_space(s[from]) {
        word_end_bounds(s, from + 1);
    }
}

/// The lower-cased words of a text from position `from` on: its maximal runs
/// of characters that are not white space, in order.
pub open spec fn words_from(s: Seq<char>, from: int) -> Seq<Seq<char>>
    decreases s.len() - from,
{
    if from < 0 || from >= s.len() {
        Seq::empty()
    } else if is_space(s[from]) {
        words_from(s, from + 1)
    } else {
        let end = word_end(s, from);
        if from < end <= s.len() {
            seq![lowercase(s.subrange(from, end))] + words_from(s, end)
        } else {
            Seq::empty()
        }
    }
}

/// The lower-cased words of a text.
pub open spec fn words(s: Seq<char>) -> Seq<Seq<char>> {
    words_from(s, 0)
}

/// Splits a filter into its lower-cased words.
pub fn lowercase_words(s: &str) -> (r: Vec<String>)
    ensures
        r.deep_view() == words(s@),
{
    let len = s.unicode_len();
    let mut out: Vec<String> = Vec::new();
    let mut i: usize = 0;
    while i < len
        invariant
            len == s@.len(),
            i <= len,
            words(s@) == out.deep_view() + words_from(s@, i as int),
        decreases len - i,
    {
        if is_whitespace(s.get_char(i)) {
            i = i + 1;
        } else {
            let start = i;
            let mut end: usize = i + 1;
            while end < len && !is_whitespace(s.get_char(end))
                invariant
                    len == s@.len(),
                    start < end <= len,
                    word_end(s@, start as int) == word_end(s@, end as int),
                decreases len - end,
            {
                end = end + 1;
            }
            proof {
                word_end_bounds(s@, start as int);
                assert(word_end(s@, start as int) == end);
            }
            let word = to_lowercase(s.substring_char(start, end));
            let ghost before = out.deep_view();
            out.push(word);
            proof {
                assert(out.deep_view() == before.push(word@));
                assert(before.push(word@) + words_from(s@, end as int) == before + (seq![word@]
                    + words_from(s@, end as int)));
            }
            i = end;
        }
    }
    assert(out.deep_view() + Seq::<Seq<char>>::empty() == out.deep_view());
    out
}

} // verus!
