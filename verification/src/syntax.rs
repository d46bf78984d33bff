//! What a short token and a target URL must look like.
//!
//! A short token is a non-empty run of letters, digits, `-` and `_`, compared
//! case-sensitively, and must not be a name that the service keeps for its
//! own routes. A target URL is printable ASCII without spaces that starts
//! with a scheme, then `://`, then a host that is not empty.

use crate::text::ascii_bytes;
use vstd::prelude::*;
use vstd::utf8::*;

verus! {

pub open spec fn is_letter(c: char) -> bool {
    ('a' <= c <= 'z') || ('A' <= c <= 'Z')
}

pub open spec fn is_digit(c: char) -> bool {
    '0' <= c <= '9'
}

/// The characters a short token may hold.
pub open spec fn is_token_char(c: char) -> bool {
    is_letter(c) || is_digit(c) || c == '-' || c == '_'
}

/// The names kept for the service's own routes: the prefix of its API.
pub open spec fn is_reserved(s: Seq<char>) -> bool {
    s == seq!['a', 'p', 'i']
}

/// A short token that may be stored: not empty, token characters only, not reserved.
pub open spec fn is_valid_shortlink(s: Seq<char>) -> bool {
    &&& s.len() > 0
    &&& forall|i: int| 0 <= i < s.len() ==> is_token_char(#[trigger] s[i])
    &&& !is_reserved(s)
}

/// The characters a URL scheme may hold after its first letter.
pub open spec fn is_scheme_char(c: char) -> bool {
    is_letter(c) || is_digit(c) || c == '+' || c == '-' || c == '.'
}

/// Printable ASCII, the space left out.
pub open spec fn is_url_char(c: char) -> bool {
    '!' <= c <= '~'
}

/// The characters at which a host ends.
pub open spec fn ends_host(c: char) -> bool {
    c == '/' || c == '?' || c == '#' || c == ':'
}

/// `s` reads as a scheme of `n` characters, then `://`, then a host that
/// holds at least one character.
pub open spec fn splits_at(s: Seq<char>, n: int) -> bool {
    &&& 0 < n
    &&& n + 3 < s.len()
    &&& is_letter(s[0])
    &&& forall|i: int| 0 <= i < n ==> is_scheme_char(#[trigger] s[i])
    &&& s[n] == ':'
    &&& s[n + 1] == '/'
    &&& s[n + 2] == '/'
    &&& !ends_host(s[n + 3])
}

/// A target URL that may be stored.
pub open spec fn is_valid_longlink(s: Seq<char>) -> bool {
    &&& forall|i: int| 0 <= i < s.len() ==> is_url_char(#[trigger] s[i])
    &&& exists|n: int| splits_at(s, n)
}

fn letter(c: char) -> (r: bool)
    ensures
        r == is_letter(c),
{
    ('a' <= c && c <= 'z') || ('A' <= c && c <= 'Z')
}

fn digit(c: char) -> (r: bool)
    ensures
        r == is_digit(c),
{
    '0' <= c && c <= '9'
}

fn token_char(c: char) -> (r: bool)
    ensures
        r == is_token_char(c),
{
    letter(c) || digit(c) || c == '-' || c == '_'
}

fn scheme_char(c: char) -> (r: bool)
    ensures
        r == is_scheme_char(c),
{
    letter(c) || digit(c) || c == '+' || c == '-' || c == '.'
}

/// Decides whether `s` may be stored as a short token.
pub fn validate_shortlink(s: &str) -> (ok: bool)
    ensures
        ok == is_valid_shortlink(s@),
{
    let Some(bytes) = ascii_bytes(s) else {
        return false;
    };
    let n = bytes.len();
    if n == 0 {
        return false;
    }
    let mut i: usize = 0;
    while i < n
        invariant
            n == bytes@.len(),
            n == s@.len(),
            i <= n,
            is_ascii_chars(s@),
            forall|j: int| 0 <= j < n ==> bytes@[j] == s@[j] as u8,
            forall|j: int| 0 <= j < i ==> is_token_char(#[trigger] s@[j]),
        decreases n - i,
    {
        if !token_char(bytes[i] as char) {
            assert(!is_token_char(s@[i as int]));
            return false;
        }
        i += 1;
    }
    if n == 3 && bytes[0] as char == 'a' && bytes[1] as char == 'p' && bytes[2] as char == 'i' {
        assert(s@ =~= seq!['a', 'p', 'i']);
        return false;
    }
    assert(!is_reserved(s@)) by {
        if is_reserved(s@) {
            assert(s@[0] == 'a' && s@[1] == 'p' && s@[2] == 'i');
        }
    }
    true
}

/// Decides whether `s` may be stored as a target URL.
pub fn validate_longlink(s: &str) -> (ok: bool)
    ensures
        ok == is_valid_longlink(s@),
{
    let Some(bytes) = ascii_bytes(s) else {
        return false;
    };
    let n = bytes.len();
    let mut i: usize = 0;
    while i < n
        invariant
            n == bytes@.len(),
            n == s@.len(),
            i <= n,
            is_ascii_chars(s@),
            forall|j: int| 0 <= j < n ==> bytes@[j] == s@[j] as u8,
            forall|j: int| 0 <= j < i ==> is_url_char(#[trigger] s@[j]),
        decreases n - i,
    {
        let c = bytes[i] as char;
        if !('!' <= c && c <= '~') {
            assert(!is_url_char(s@[i as int]));
            return false;
        }
        i += 1;
    }
    if n == 0 || !letter(bytes[0] as char) {
        return false;
    }
    // The scheme ends at the first character that a scheme cannot hold.
    let mut k: usize = 1;
    while k < n && scheme_char(bytes[k] as char)
        invariant
            n == bytes@.len(),
            n == s@.len(),
            1 <= k <= n,
            is_ascii_chars(s@),
            forall|j: int| 0 <= j < n ==> bytes@[j] == s@[j] as u8,
            is_letter(s@[0]),
            forall|j: int| 0 <= j < k ==> is_scheme_char(#[trigger] s@[j]),
        decreases n - k,
    {
        k += 1;
    }
    assert forall|m: int| splits_at(s@, m) implies m == k by {
        if m < k {
            assert(is_scheme_char(s@[m]));
        } else if m > k {
            assert(is_scheme_char(s@[k as int]));
        }
    }
    if n - k <= 3 {
        return false;
    }
    if bytes[k] as char != ':' || bytes[k + 1] as char != '/' || bytes[k + 2] as char != '/' {
        return false;
    }
    let h = bytes[k + 3] as char;
    if h == '/' || h == '?' || h == '#' || h == ':' {
        return false;
    }
    assert(splits_at(s@, k as int));
    true
}

} // verus!
