//! Character-level helpers for the multiaddress and request-field
//! strings that the daemon inspects: blank detection, substring and
//! prefix tests, and the `/p2p/` suffix composition used for derived
//! dial addresses.

use vstd::prelude::*;
use vstd::string::*;

verus! {

/// The blank characters that request fields are trimmed by: the
/// Unicode White_Space set — tab through carriage return, space, next
/// line, no-break space, the Ogham space mark, the en-quad family,
/// line and paragraph separators, the narrow no-break and medium
/// mathematical spaces, and the ideographic space.
pub open spec fn is_blank_char(c: char) -> bool {
    let n = c as u32;
    ||| (0x0009 <= n && n <= 0x000D)
    ||| n == 0x0020
    ||| n == 0x0085
    ||| n == 0x00A0
    ||| n == 0x1680
    ||| (0x2000 <= n && n <= 0x200A)
    ||| n == 0x2028
    ||| n == 0x2029
    ||| n == 0x202F
    ||| n == 0x205F
    ||| n == 0x3000
}

/// Some character of `s` is not blank; equivalently, trimming blanks
/// from `s` leaves a non-empty string.
pub open spec fn has_visible_char(s: Seq<char>) -> bool {
    exists|i: int| 0 <= i < s.len() && !is_blank_char(s[i])
}

/// `pat` occurs contiguously somewhere in `hay`.
pub open spec fn seq_contains_sub(hay: Seq<char>, pat: Seq<char>) -> bool {
    exists|i: int| 0 <= i && i + pat.len() <= hay.len() && #[trigger] hay.subrange(i, i + pat.len())
        == pat
}

/// `s` begins with `pre`.
pub open spec fn seq_starts_with(s: Seq<char>, pre: Seq<char>) -> bool {
    pre.len() <= s.len() && s.subrange(0, pre.len() as int) == pre
}

/// True when `c` is one of the blank characters.
pub fn is_blank(c: char) -> (r: bool)
    ensures
        r == is_blank_char(c),
{
    let n = c as u32;
    (0x0009 <= n && n <= 0x000D) || n == 0x0020 || n == 0x0085 || n == 0x00A0 || n == 0x1680 || (
    0x2000 <= n && n <= 0x200A) || n == 0x2028 || n == 0x2029 || n == 0x202F || n == 0x205F || n
        == 0x3000
}

/// True when at least one character of `s` is not blank.
pub fn str_has_visible_char(s: &str) -> (r: bool)
    ensures
        r == has_visible_char(s@),
{
    let n = s.unicode_len();
    let mut i: usize = 0;
    while i < n
        invariant
            n == s@.len(),
            0 <= i <= n,
            forall|j: int| 0 <= j < i ==> is_blank_char(s@[j]),
        decreases n - i,
    {
        let c = s.get_char(i);
        if !is_blank(c) {
            return true;
        }
        i += 1;
    }
    false
}

/// Whether `pat` matches `hay` exactly at offset `at`.
fn matches_at(hay: &str, pat: &str, at: usize) -> (r: bool)
    requires
        at + pat@.len() <= hay@.len(),
    ensures
        r == (hay@.subrange(at as int, at + pat@.len()) == pat@),
{
    let hn = hay.unicode_len();
    let p = pat.unicode_len();
    let mut j: usize = 0;
    while j < p
        invariant
            hn == hay@.len(),
            p == pat@.len(),
            at + p <= hn,
            0 <= j <= p,
            forall|t: int| 0 <= t < j ==> hay@[at + t] == pat@[t],
        decreases p - j,
    {
        if hay.get_char(at + j) != pat.get_char(j) {
            assert(hay@.subrange(at as int, at + pat@.len())[j as int] != pat@[j as int]);
            return false;
        }
        j += 1;
    }
    assert(hay@.subrange(at as int, at + pat@.len()) =~= pat@);
    true
}

/// True when `pat` occurs contiguously somewhere in `hay`.
pub fn str_contains_sub(hay: &str, pat: &str) -> (r: bool)
    ensures
        r == seq_contains_sub(hay@, pat@),
{
    let h = hay.unicode_len();
    let p = pat.unicode_len();
    if p > h {
        return false;
    }
    if p == 0 {
        proof {
            assert(hay@.subrange(0, 0 + pat@.len() as int) =~= pat@);
        }
        return true;
    }
    let mut i: usize = 0;
    while i <= h - p
        invariant
            h == hay@.len(),
            p == pat@.len(),
            1 <= p <= h,
            0 <= i <= h - p + 1,
            forall|k: int| 0 <= k < i ==> #[trigger] hay@.subrange(k, k + pat@.len()) != pat@,
        decreases h - p - i + 1,
    {
        if matches_at(hay, pat, i) {
            return true;
        }
        i += 1;
    }
    false
}

/// True when `s` begins with `pre`.
pub fn str_starts_with(s: &str, pre: &str) -> (r: bool)
    ensures
        r == seq_starts_with(s@, pre@),
{
    let n = s.unicode_len();
    let p = pre.unicode_len();
    if p > n {
        return false;
    }
    matches_at(s, pre, 0)
}

/// True when the two strings hold the same characters.
pub fn str_eq(a: &str, b: &str) -> (r: bool)
    ensures
        r == (a@ == b@),
{
    let n = a.unicode_len();
    if n != b.unicode_len() {
        return false;
    }
    let r = matches_at(a, b, 0);
    proof {
        assert(a@.subrange(0, b@.len() as int) =~= a@);
    }
    r
}

/// The dial string `<addr>/p2p/<peer>` that the daemon derives for a
/// transport-specific listen address.
pub fn p2p_suffixed(addr: &str, peer: &str) -> (r: String)
    ensures
        r@ == addr@ + "/p2p/"@ + peer@,
{
    let mut out = String::from_str(addr);
    out.append("/p2p/");
    out.append(peer);
    out
}

} // verus!
