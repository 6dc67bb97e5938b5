//! Character access to strings, and trusted access to the parts of `str` and
//! `String` that vstd leaves unspecified.
use vstd::prelude::*;
use vstd::string::*;

verus! {

/// The characters of `s`, in order.
pub(crate) fn chars_of(s: &str) -> (r: Vec<char>)
    ensures
        r@ == s@,
{
    let n = s.unicode_len();
    let mut v: Vec<char> = Vec::new();
    let mut i: usize = 0;
    while i < n
        invariant
            i <= n,
            n == s@.len(),
            v@ == s@.take(i as int),
        decreases n - i,
    {
        v.push(s.get_char(i));
        assert(v@ =~= s@.take(i + 1));
        i = i + 1;
    }
    assert(s@.take(n as int) =~= s@);
    v
}

/// Relies on `String::push`: appends one character at the end.
#[verifier::external_body]
pub(crate) fn push_char(s: &mut String, c: char)
    ensures
        final(s)@ == old(s)@.push(c),
{
    s.push(c)
}

/// What `str::replace(s, pat, "")` returns: `s` with every occurrence of `pat`
/// taken out.
pub uninterp spec fn removed_of(s: Seq<char>, pat: Seq<char>) -> Seq<char>;

/// Relies on `str::replace` with an empty replacement.
#[verifier::external_body]
pub(crate) fn remove_all(s: &str, pat: &str) -> (r: String)
    ensures
        r@ == removed_of(s@, pat@),
{
    s.replace(pat, "")
}

/// What `str::trim` returns: `s` without leading and trailing white space.
pub uninterp spec fn trimmed_of(s: Seq<char>) -> Seq<char>;

/// Relies on `str::trim`, which returns a contiguous part of its argument.
#[verifier::external_body]
pub(crate) fn trim_text(s: &str) -> (r: String)
    ensures
        r@ == trimmed_of(s@),
        r@.len() <= s@.len(),
{
    s.trim().to_string()
}

} // verus!
