//! What holds of the table and the engine whatever they are given.
//!
//! Each proof function states one law over the spec functions that the
//! contracts of [`crate::store`] and [`crate::engine`] are written in, so a
//! law about `after_add` is a law about what `add_link` leaves behind.

use crate::engine::{add_refusal, after_add, after_edit, edit_refusal, Error};
use crate::generate::is_generated;
use crate::link::{fresh, LinkView};
use crate::store::{
    bumped, clashes, deleted, distinct, hit, holds, inserted, lemma_slot, lookup, slot, updated,
};
use crate::syntax::{is_valid_longlink, is_valid_shortlink};
use vstd::prelude::*;

verus! {

/// The table after `n` hits on the link under `k`, one after the other.
pub open spec fn hit_times(s: Seq<LinkView>, k: Seq<char>, n: nat) -> Seq<LinkView>
    decreases n,
{
    if n == 0 {
        s
    } else {
        hit(hit_times(s, k, (n - 1) as nat), k)
    }
}

/// Creating a link under a free token keeps the tokens distinct, puts the
/// new link last and leaves every other lookup as it was.
pub proof fn law_insert(s: Seq<LinkView>, k: Seq<char>, target: Seq<char>, other: Seq<char>)
    requires
        distinct(s),
        !holds(s, k),
    ensures
        distinct(inserted(s, k, target)),
        lookup(inserted(s, k, target), k) == Some(fresh(k, target)),
        other != k ==> lookup(inserted(s, k, target), other) == lookup(s, other),
{
    let after = inserted(s, k, target);
    assert forall|i: int, j: int|
        #![trigger after[i], after[j]]
        0 <= i < j < after.len() implies after[i].shortlink != after[j].shortlink by {
        if j == s.len() {
            assert(s[i].shortlink != k);
        } else {
            assert(s[i].shortlink != s[j].shortlink);
        }
    }
    lemma_slot(after, s.len() as int);
    if other != k {
        if holds(s, other) {
            let i = slot(s, other);
            assert(after[i] == s[i]);
            lemma_slot(after, i);
            lemma_slot(s, i);
        } else if holds(after, other) {
            let i = slot(after, other);
            assert(s[i].shortlink == other);
        }
    }
}

/// Deleting keeps the tokens distinct; the deleted token is gone, and every
/// other lookup is as it was.
pub proof fn law_delete(s: Seq<LinkView>, k: Seq<char>, other: Seq<char>)
    requires
        distinct(s),
    ensures
        distinct(deleted(s, k)),
        !holds(deleted(s, k), k),
        lookup(deleted(s, k), k) is None,
        !holds(s, k) ==> deleted(s, k) == s,
        other != k ==> lookup(deleted(s, k), other) == lookup(s, other),
{
    if holds(s, k) {
        let at = slot(s, k);
        let after = deleted(s, k);
        assert forall|i: int, j: int|
            #![trigger after[i], after[j]]
            0 <= i < j < after.len() implies after[i].shortlink != after[j].shortlink by {
            let a = if i < at { i } else { i + 1 };
            let b = if j < at { j } else { j + 1 };
            assert(s[a].shortlink != s[b].shortlink);
        }
        if holds(after, k) {
            let j = slot(after, k);
            let b = if j < at { j } else { j + 1 };
            assert(after[j] == s[b]);
            if b < at {
                assert(s[b].shortlink != s[at].shortlink);
            } else {
                assert(s[at].shortlink != s[b].shortlink);
            }
        }
        if other != k {
            if holds(s, other) {
                let i = slot(s, other);
                let j = if i < at { i } else { i - 1 };
                assert(after[j] == s[i]);
                lemma_slot(after, j);
                lemma_slot(s, i);
            } else if holds(after, other) {
                let j = slot(after, other);
                let b = if j < at { j } else { j + 1 };
                assert(s[b].shortlink == other);
            }
        }
    }
}

/// An update that does not clash keeps the tokens distinct. The link is
/// then found under its new token with the new target and the hits it had,
/// its old token is free unless it was kept, and every other lookup is as
/// it was.
pub proof fn law_update(
    s: Seq<LinkView>,
    k: Seq<char>,
    new_k: Seq<char>,
    target: Seq<char>,
    other: Seq<char>,
)
    requires
        distinct(s),
        holds(s, k),
        !clashes(s, k, new_k),
    ensures
        distinct(updated(s, k, new_k, target)),
        lookup(updated(s, k, new_k, target), new_k) == Some(
            LinkView { shortlink: new_k, longlink: target, hits: lookup(s, k)->0.hits },
        ),
        new_k != k ==> !holds(updated(s, k, new_k, target), k),
        other != k && other != new_k ==> lookup(updated(s, k, new_k, target), other) == lookup(
            s,
            other,
        ),
{
    let at = slot(s, k);
    let after = updated(s, k, new_k, target);
    assert forall|i: int, j: int|
        #![trigger after[i], after[j]]
        0 <= i < j < after.len() implies after[i].shortlink != after[j].shortlink by {
        assert(s[i].shortlink != s[j].shortlink);
        if i == at {
            assert(s[j].shortlink != new_k);
        } else if j == at {
            assert(s[i].shortlink != new_k);
        }
    }
    lemma_slot(after, at);
    if new_k != k && holds(after, k) {
        let j = slot(after, k);
        assert(after[j] == s[j]);
        if j < at {
            assert(s[j].shortlink != s[at].shortlink);
        } else {
            assert(s[at].shortlink != s[j].shortlink);
        }
    }
    if other != k && other != new_k {
        if holds(s, other) {
            let i = slot(s, other);
            assert(after[i] == s[i]);
            lemma_slot(after, i);
            lemma_slot(s, i);
        } else if holds(after, other) {
            let j = slot(after, other);
            assert(s[j].shortlink == other);
        }
    }
}

/// A hit keeps the tokens distinct and changes nothing but the counter of
/// the link that was hit, which never goes down.
pub proof fn law_hit(s: Seq<LinkView>, k: Seq<char>, other: Seq<char>)
    requires
        distinct(s),
    ensures
        distinct(hit(s, k)),
        holds(hit(s, k), other) == holds(s, other),
        holds(s, k) ==> lookup(hit(s, k), k) == Some(
            LinkView { hits: bumped(lookup(s, k)->0.hits), ..lookup(s, k)->0 },
        ),
        holds(s, k) ==> lookup(hit(s, k), k)->0.hits >= lookup(s, k)->0.hits,
        other != k ==> lookup(hit(s, k), other) == lookup(s, other),
{
    if holds(s, k) {
        let at = slot(s, k);
        let after = hit(s, k);
        assert forall|i: int, j: int|
            #![trigger after[i], after[j]]
            0 <= i < j < after.len() implies after[i].shortlink != after[j].shortlink by {
            assert(s[i].shortlink != s[j].shortlink);
        }
        lemma_slot(after, at);
        if holds(s, other) {
            let i = slot(s, other);
            assert(after[i].shortlink == other);
            lemma_slot(after, i);
            lemma_slot(s, i);
        } else if holds(after, other) {
            let j = slot(after, other);
            assert(s[j].shortlink == other);
        }
    }
}

/// A link that was created is found under its token, with the target it
/// was created with and no hits.
pub proof fn law_add_then_get(s: Seq<LinkView>, k: Seq<char>, target: Seq<char>)
    requires
        distinct(s),
        is_valid_shortlink(k),
        is_valid_longlink(target),
        !holds(s, k),
    ensures
        add_refusal(s, k, target) is None,
        lookup(after_add(s, k, target), k) == Some(fresh(k, target)),
{
    law_insert(s, k, target, k);
}

/// Creating a link under a token that is taken is refused as a conflict and
/// changes nothing: after two creations under one token, the token still
/// leads to the first target.
pub proof fn law_second_add_conflicts(
    s: Seq<LinkView>,
    k: Seq<char>,
    first: Seq<char>,
    second: Seq<char>,
)
    requires
        distinct(s),
        is_valid_shortlink(k),
        is_valid_longlink(first),
        is_valid_longlink(second),
        !holds(s, k),
    ensures
        add_refusal(after_add(s, k, first), k, second) == Some(Error::Conflict),
        after_add(after_add(s, k, first), k, second) == after_add(s, k, first),
        lookup(after_add(after_add(s, k, first), k, second), k) == Some(fresh(k, first)),
{
    law_insert(s, k, first, k);
}

/// Whatever the table holds, a creation under a taken token leaves it as it is.
pub proof fn law_conflict_changes_nothing(s: Seq<LinkView>, k: Seq<char>, target: Seq<char>)
    requires
        holds(s, k),
    ensures
        add_refusal(s, k, target) is Some,
        after_add(s, k, target) == s,
{
}

/// After a link was deleted its token resolves to nothing; deleting under
/// a token that is not there changes nothing.
pub proof fn law_delete_then_get(s: Seq<LinkView>, k: Seq<char>)
    requires
        distinct(s),
    ensures
        lookup(deleted(s, k), k) is None,
        !holds(s, k) ==> deleted(s, k) == s,
{
    law_delete(s, k, k);
}

/// An edit that names no new token changes the target and keeps the token
/// and the hits.
pub proof fn law_edit_target_keeps_hits(s: Seq<LinkView>, k: Seq<char>, target: Seq<char>)
    requires
        distinct(s),
        holds(s, k),
        is_valid_longlink(target),
    ensures
        edit_refusal(s, k, None, target) is None,
        lookup(after_edit(s, k, None, target), k) == Some(
            LinkView { shortlink: k, longlink: target, hits: lookup(s, k)->0.hits },
        ),
{
    law_update(s, k, k, target, k);
}

/// An edit that asks for the token of another link is refused and leaves
/// the table, and with it the link that was to be edited, as it was.
pub proof fn law_edit_to_taken_token(
    s: Seq<LinkView>,
    k: Seq<char>,
    taken: Seq<char>,
    target: Seq<char>,
)
    requires
        distinct(s),
        holds(s, k),
        holds(s, taken),
        taken != k,
    ensures
        edit_refusal(s, k, Some(taken), target) is Some,
        is_valid_longlink(target) && is_valid_shortlink(taken) ==> edit_refusal(
            s,
            k,
            Some(taken),
            target,
        ) == Some(Error::Conflict),
        after_edit(s, k, Some(taken), target) == s,
        lookup(after_edit(s, k, Some(taken), target), k) == lookup(s, k),
{
}

/// `n` hits on a link raise its counter by `n`, as long as the counter
/// stays within a `u64`; the link is otherwise unchanged.
pub proof fn law_hits_count(s: Seq<LinkView>, k: Seq<char>, n: nat)
    requires
        distinct(s),
        holds(s, k),
        lookup(s, k)->0.hits + n <= u64::MAX,
    ensures
        distinct(hit_times(s, k, n)),
        lookup(hit_times(s, k, n), k) == Some(
            LinkView { hits: lookup(s, k)->0.hits + n, ..lookup(s, k)->0 },
        ),
    decreases n,
{
    if n > 0 {
        let before = hit_times(s, k, (n - 1) as nat);
        law_hits_count(s, k, (n - 1) as nat);
        law_hit(before, k, k);
    }
}

/// A link that was just created and then hit `n` times has exactly `n` hits.
pub proof fn law_hits_of_new_link(s: Seq<LinkView>, k: Seq<char>, target: Seq<char>, n: nat)
    requires
        distinct(s),
        !holds(s, k),
        n <= u64::MAX,
    ensures
        lookup(hit_times(inserted(s, k, target), k, n), k) == Some(
            LinkView { shortlink: k, longlink: target, hits: n },
        ),
{
    law_insert(s, k, target, k);
    law_hits_count(inserted(s, k, target), k, n);
}

/// A generated token that is free can be stored: the creation is refused
/// only for its target.
pub proof fn law_generated_token_is_accepted(s: Seq<LinkView>, token: Seq<char>, target: Seq<char>)
    requires
        is_generated(token),
        !holds(s, token),
        is_valid_longlink(target),
    ensures
        is_valid_shortlink(token),
        add_refusal(s, token, target) is None,
{
}

/// Two creations in a row under generated tokens never get the same token:
/// the second token was free after the first creation, so it is another one.
pub proof fn law_generated_tokens_differ(
    s: Seq<LinkView>,
    first: Seq<char>,
    target: Seq<char>,
    second: Seq<char>,
)
    requires
        !holds(inserted(s, first, target), second),
    ensures
        first != second,
{
    let after = inserted(s, first, target);
    assert(after[s.len() as int].shortlink == first);
}

} // verus!
