//! Network addresses held as their normalized text, and the checks that
//! binding makes on them.

use vstd::prelude::*;

verus! {

/// The normalized text of `s` when the URL parser accepts it.
pub uninterp spec fn parsed_url(s: Seq<char>) -> Option<Seq<char>>;

/// The normalized text of `rel` resolved against the URL whose text is `base`,
/// when both steps succeed.
pub uninterp spec fn joined_url(base: Seq<char>, rel: Seq<char>) -> Option<Seq<char>>;

/// Relies on `url::Url::parse`, read back through `Url::as_str`: the
/// serialization depends on the input text alone.
#[verifier::external_body]
pub(crate) fn parse_address(s: &str) -> (r: Option<String>)
    ensures
        r is Some <==> parsed_url(s@) is Some,
        r is Some ==> r->Some_0@ == parsed_url(s@)->Some_0,
{
    match url::Url::parse(s) {
        Ok(u) => Some(u.as_str().to_string()),
        Err(_) => None,
    }
}

/// Relies on `url::Url::parse` of `base` and `url::Url::join` of `rel` on the
/// result, read back through `Url::as_str`.
#[verifier::external_body]
pub(crate) fn join_address(base: &str, rel: &str) -> (r: Option<String>)
    ensures
        r is Some <==> joined_url(base@, rel@) is Some,
        r is Some ==> r->Some_0@ == joined_url(base@, rel@)->Some_0,
{
    match url::Url::parse(base) {
        Ok(b) => match b.join(rel) {
            Ok(u) => Some(u.as_str().to_string()),
            Err(_) => None,
        },
        Err(_) => None,
    }
}

/// The view of an optional text.
pub open spec fn text_of(o: Option<String>) -> Option<Seq<char>> {
    match o {
        Some(s) => Some(s@),
        None => None,
    }
}

/// Whether `text` begins with `prefix`.
pub open spec fn is_prefix_of(prefix: Seq<char>, text: Seq<char>) -> bool {
    prefix.len() <= text.len() && text.subrange(0, prefix.len() as int) == prefix
}

/// Whether `text` begins with `prefix`, compared character by character.
pub fn starts_with_text(text: &str, prefix: &str) -> (r: bool)
    ensures
        r == is_prefix_of(prefix@, text@),
{
    let n = prefix.unicode_len();
    let m = text.unicode_len();
    if n > m {
        return false;
    }
    let mut i: usize = 0;
    while i < n
        invariant
            n == prefix@.len(),
            m == text@.len(),
            n <= m,
            i <= n,
            forall|k: int| 0 <= k < i ==> text@[k] == prefix@[k],
        decreases n - i,
    {
        if text.get_char(i) != prefix.get_char(i) {
            assert(text@.subrange(0, n as int)[i as int] != prefix@[i as int]);
            return false;
        }
        i = i + 1;
    }
    assert(text@.subrange(0, n as int) =~= prefix@);
    true
}

/// Whether two texts are equal, compared character by character.
pub fn same_text(a: &str, b: &str) -> (r: bool)
    ensures
        r == (a@ == b@),
{
    let n = a.unicode_len();
    if n != b.unicode_len() {
        return false;
    }
    let mut i: usize = 0;
    while i < n
        invariant
            n == a@.len(),
            n == b@.len(),
            i <= n,
            forall|k: int| 0 <= k < i ==> a@[k] == b@[k],
        decreases n - i,
    {
        if a.get_char(i) != b.get_char(i) {
            return false;
        }
        i = i + 1;
    }
    assert(a@ =~= b@);
    true
}

} // verus!
