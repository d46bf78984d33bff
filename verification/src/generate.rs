//! Short tokens for links whose creator chose none.
//!
//! A generated token has a fixed length and is drawn, character by
//! character, from the digits and the lower and upper case letters. The
//! draws come from a random source; everything after the draw is decided
//! here.

use crate::syntax::{is_digit, is_letter, is_valid_shortlink};
use vstd::prelude::*;

verus! {

/// The length of every generated token.
pub const TOKEN_LENGTH: usize = 8;

/// The number of characters a generated token is drawn from.
pub const ALPHABET_SIZE: usize = 62;

/// The alphabet, by index: the digits, then `a` to `z`, then `A` to `Z`.
pub open spec fn symbol(i: int) -> char {
    if i < 10 {
        (48 + i) as u8 as char
    } else if i < 36 {
        (97 + (i - 10)) as u8 as char
    } else {
        (65 + (i - 36)) as u8 as char
    }
}

/// The token that a run of draws spells; each draw counts modulo the size of
/// the alphabet.
pub open spec fn spelled(draws: Seq<usize>) -> Seq<char> {
    Seq::new(draws.len(), |i: int| symbol(draws[i] as int % 62))
}

/// What every generated token looks like.
pub open spec fn is_generated(s: Seq<char>) -> bool {
    &&& s.len() == TOKEN_LENGTH
    &&& forall|i: int| 0 <= i < s.len() ==> is_letter(#[trigger] s[i]) || is_digit(s[i])
}

/// A generated token is always one that may be stored.
pub proof fn lemma_generated_is_valid(s: Seq<char>)
    requires
        is_generated(s),
    ensures
        is_valid_shortlink(s),
{
}

/// Whatever the draws, eight of them spell a generated token.
pub proof fn lemma_spelled_is_generated(draws: Seq<usize>)
    requires
        draws.len() == TOKEN_LENGTH,
    ensures
        is_generated(spelled(draws)),
{
    let s = spelled(draws);
    assert forall|i: int| 0 <= i < s.len() implies is_letter(#[trigger] s[i]) || is_digit(s[i]) by {
        let d = draws[i] as int % 62;
        assert(s[i] == symbol(d));
    }
}

fn symbol_at(i: usize) -> (c: char)
    requires
        i < ALPHABET_SIZE,
    ensures
        c == symbol(i as int),
{
    if i < 10 {
        (48 + i as u8) as char
    } else if i < 36 {
        (97 + (i as u8 - 10)) as char
    } else {
        (65 + (i as u8 - 36)) as char
    }
}

/// The token that `draws` spells.
pub fn token_from_draws(draws: &Vec<usize>) -> (token: String)
    ensures
        token@ == spelled(draws@),
{
    let mut token = String::new();
    let mut i: usize = 0;
    while i < draws.len()
        invariant
            i <= draws@.len(),
            token@ == spelled(draws@).take(i as int),
        decreases draws@.len() - i,
    {
        let c = symbol_at(draws[i] % ALPHABET_SIZE);
        token.push(c);
        assert(token@ =~= spelled(draws@).take(i + 1));
        i += 1;
    }
    assert(spelled(draws@).take(draws@.len() as int) =~= spelled(draws@));
    token
}

/// One draw from the thread's random generator of the `rand` crate:
/// `gen_range` over `0..bound`. The crate documents that the value lies in
/// the range and that an empty range panics, so `bound` must be positive.
/// Which value comes is left open. The generator itself fails only when the
/// operating system cannot seed it.
#[verifier::external_body]
fn random_below(bound: usize) -> (draw: usize)
    requires
        bound > 0,
    ensures
        draw < bound,
{
    rand::Rng::gen_range(&mut rand::thread_rng(), 0..bound)
}

/// A token of [`TOKEN_LENGTH`] random characters of the alphabet.
pub fn random_token() -> (token: String)
    ensures
        is_generated(token@),
{
    let mut draws: Vec<usize> = Vec::new();
    while draws.len() < TOKEN_LENGTH
        invariant
            draws@.len() <= TOKEN_LENGTH,
        decreases TOKEN_LENGTH - draws@.len(),
    {
        draws.push(random_below(ALPHABET_SIZE));
    }
    proof {
        lemma_spelled_is_generated(draws@);
    }
    token_from_draws(&draws)
}

} // verus!
