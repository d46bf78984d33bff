//! The rules for creating, editing, deleting, resolving and listing links.
//!
//! Every function here works on a [`Store`] and says in its contract what
//! the store holds afterwards. Input is checked before the store is touched;
//! a request that is refused leaves the store as it was.

use crate::generate::{is_generated, lemma_generated_is_valid, random_token};
use crate::link::LinkView;
use crate::store::{clashes, deleted, holds, inserted, lookup, updated, Store};
use crate::syntax::{is_valid_longlink, is_valid_shortlink, validate_longlink, validate_shortlink};
use crate::text::{decimal, push_decimal};
use vstd::prelude::*;
use vstd::string::StringExecFns;

verus! {

/// How often a token is generated anew for one creation before giving up.
pub const MAX_ATTEMPTS: usize = 10;

/// Why a creation or an edit was refused.
#[derive(Clone, Copy, Debug, PartialEq, Eq, Structural)]
pub enum Error {
    /// The target is not a well-formed URL.
    InvalidLonglink,
    /// The short token is empty, holds a character it may not hold, or is reserved.
    InvalidShortlink,
    /// The short token is taken.
    Conflict,
    /// No generated token was free within [`MAX_ATTEMPTS`] attempts.
    GenerationExhausted,
}

impl Error {
    /// The reason in words.
    pub open spec fn text(self) -> Seq<char> {
        match self {
            Error::InvalidLonglink => "The long URL is not a valid URL."@,
            Error::InvalidShortlink => "The short URL is empty, reserved or holds a character that is not allowed."@,
            Error::Conflict => "The short URL is already in use."@,
            Error::GenerationExhausted => "No free short URL could be generated."@,
        }
    }

    /// The reason in words, for the person who made the request.
    pub fn message(&self) -> (words: String)
        ensures
            words@ == self.text(),
    {
        match self {
            Error::InvalidLonglink => String::from_str("The long URL is not a valid URL."),
            Error::InvalidShortlink => String::from_str(
                "The short URL is empty, reserved or holds a character that is not allowed.",
            ),
            Error::Conflict => String::from_str("The short URL is already in use."),
            Error::GenerationExhausted => String::from_str("No free short URL could be generated."),
        }
    }
}

/// What a creation or an edit asks for: a target, and a token if the caller chose one.
#[derive(Debug, PartialEq, Eq)]
pub struct LinkRequest {
    pub shortlink: Option<String>,
    pub longlink: String,
}

impl LinkRequest {
    /// The token that the caller chose, if any.
    pub open spec fn chosen(&self) -> Option<Seq<char>> {
        match self.shortlink {
            Some(k) => Some(k@),
            None => None,
        }
    }
}

/// Why a link under `k` with target `target` cannot be created in `s`, if it cannot.
pub open spec fn add_refusal(s: Seq<LinkView>, k: Seq<char>, target: Seq<char>) -> Option<Error> {
    if !is_valid_longlink(target) {
        Some(Error::InvalidLonglink)
    } else if !is_valid_shortlink(k) {
        Some(Error::InvalidShortlink)
    } else if holds(s, k) {
        Some(Error::Conflict)
    } else {
        None
    }
}

/// `s` after the attempt to create a link under `k` with target `target`.
pub open spec fn after_add(s: Seq<LinkView>, k: Seq<char>, target: Seq<char>) -> Seq<LinkView> {
    if add_refusal(s, k, target) is None {
        inserted(s, k, target)
    } else {
        s
    }
}

/// The token that the link under `k` has after an edit: the chosen one, or `k` again.
pub open spec fn edit_token(k: Seq<char>, chosen: Option<Seq<char>>) -> Seq<char> {
    match chosen {
        Some(new_k) => new_k,
        None => k,
    }
}

/// Why the link under `k` cannot be edited as asked, if it cannot. That no
/// link stands under `k` is no refusal: the edit then reports `false`.
pub open spec fn edit_refusal(
    s: Seq<LinkView>,
    k: Seq<char>,
    chosen: Option<Seq<char>>,
    target: Seq<char>,
) -> Option<Error> {
    if !is_valid_longlink(target) {
        Some(Error::InvalidLonglink)
    } else if chosen is Some && !is_valid_shortlink(chosen->0) {
        Some(Error::InvalidShortlink)
    } else if clashes(s, k, edit_token(k, chosen)) {
        Some(Error::Conflict)
    } else {
        None
    }
}

/// `s` after the attempt to edit the link under `k`.
pub open spec fn after_edit(
    s: Seq<LinkView>,
    k: Seq<char>,
    chosen: Option<Seq<char>>,
    target: Seq<char>,
) -> Seq<LinkView> {
    if edit_refusal(s, k, chosen, target) is None {
        updated(s, k, edit_token(k, chosen), target)
    } else {
        s
    }
}

/// No token that generation can produce is taken in `s`.
pub open spec fn generation_is_free(s: Seq<LinkView>) -> bool {
    forall|t: Seq<char>| is_generated(t) ==> !holds(s, t)
}

/// Creates a link under the token `shortlink`. The target and the token are
/// checked, in this order, then the token must be free. On success the
/// token is handed back.
pub fn add_with_token(store: &mut Store, shortlink: String, longlink: String) -> (done: Result<
    String,
    Error,
>)
    ensures
        final(store)@ == after_add(old(store)@, shortlink@, longlink@),
        match add_refusal(old(store)@, shortlink@, longlink@) {
            Some(e) => done == Err::<String, Error>(e),
            None => done matches Ok(token) && token@ == shortlink@,
        },
{
    if !validate_longlink(longlink.as_str()) {
        return Err(Error::InvalidLonglink);
    }
    if !validate_shortlink(shortlink.as_str()) {
        return Err(Error::InvalidShortlink);
    }
    let token = shortlink.clone();
    match store.insert(shortlink, longlink) {
        Ok(()) => Ok(token),
        Err(_) => Err(Error::Conflict),
    }
}

/// A candidate under which a link can be created in `s`.
pub open spec fn usable(s: Seq<LinkView>, candidate: Seq<char>) -> bool {
    is_valid_shortlink(candidate) && !holds(s, candidate)
}

/// The first of the candidates that is usable in `s`, if one is.
pub open spec fn first_usable(s: Seq<LinkView>, candidates: Seq<Seq<char>>) -> Option<Seq<char>>
    decreases candidates.len(),
{
    if candidates.len() == 0 {
        None
    } else if usable(s, candidates[0]) {
        Some(candidates[0])
    } else {
        first_usable(s, candidates.drop_first())
    }
}

/// The candidates as sequences of characters.
pub open spec fn texts(candidates: Seq<String>) -> Seq<Seq<char>> {
    Seq::new(candidates.len(), |i: int| candidates[i]@)
}

/// The first usable candidate is one of the candidates, and usable.
pub proof fn lemma_first_usable(s: Seq<LinkView>, candidates: Seq<Seq<char>>)
    ensures
        match first_usable(s, candidates) {
            Some(token) => usable(s, token) && candidates.contains(token),
            None => forall|i: int| 0 <= i < candidates.len() ==> !usable(s, #[trigger] candidates[i]),
        },
    decreases candidates.len(),
{
    if candidates.len() > 0 {
        let rest = candidates.drop_first();
        lemma_first_usable(s, rest);
        if usable(s, candidates[0]) {
            assert(candidates[0] == candidates[0]);
        } else {
            match first_usable(s, rest) {
                Some(token) => {
                    let i = choose|i: int| 0 <= i < rest.len() && rest[i] == token;
                    assert(candidates[i + 1] == token);
                },
                None => {
                    assert forall|i: int| 0 <= i < candidates.len() implies !usable(
                        s,
                        #[trigger] candidates[i],
                    ) by {
                        if i > 0 {
                            assert(rest[i - 1] == candidates[i]);
                        }
                    }
                },
            }
        }
    }
}

/// Creates a link under the first of the candidates that is a valid token
/// and free. With a target that is not valid nothing is tried; with no
/// usable candidate the creation gives up.
pub fn add_first_free(store: &mut Store, candidates: &Vec<String>, longlink: String) -> (done: Result<
    String,
    Error,
>)
    ensures
        if !is_valid_longlink(longlink@) {
            done == Err::<String, Error>(Error::InvalidLonglink) && final(store)@ == old(store)@
        } else {
            match first_usable(old(store)@, texts(candidates@)) {
                Some(token) => {
                    &&& done matches Ok(t) && t@ == token
                    &&& final(store)@ == inserted(old(store)@, token, longlink@)
                },
                None => {
                    &&& done == Err::<String, Error>(Error::GenerationExhausted)
                    &&& final(store)@ == old(store)@
                },
            }
        },
{
    if !validate_longlink(longlink.as_str()) {
        return Err(Error::InvalidLonglink);
    }
    let ghost all = texts(candidates@);
    assert(all.skip(0) =~= all);
    let mut i: usize = 0;
    while i < candidates.len()
        invariant
            i <= candidates@.len(),
            store@ == old(store)@,
            all == texts(candidates@),
            is_valid_longlink(longlink@),
            first_usable(store@, all) == first_usable(store@, all.skip(i as int)),
        decreases candidates@.len() - i,
    {
        let ghost rest = all.skip(i as int);
        assert(rest[0] == candidates@[i as int]@);
        assert(rest.drop_first() =~= all.skip(i + 1));
        if validate_shortlink(candidates[i].as_str()) && !store.contains(candidates[i].as_str()) {
            return add_with_token(store, candidates[i].clone(), longlink);
        }
        i += 1;
    }
    assert(all.skip(i as int).len() == 0);
    Err(Error::GenerationExhausted)
}

/// Creates a link under a generated token. [`MAX_ATTEMPTS`] tokens are
/// drawn, and the first of them that is free is taken. Which tokens come
/// is up to the random source; the one taken is always a fresh and valid
/// one, and when no generated token is taken yet the creation succeeds.
pub fn add_generated(store: &mut Store, longlink: String) -> (done: Result<String, Error>)
    ensures
        match done {
            Ok(token) => {
                &&& is_valid_longlink(longlink@)
                &&& is_generated(token@)
                &&& is_valid_shortlink(token@)
                &&& !holds(old(store)@, token@)
                &&& final(store)@ == inserted(old(store)@, token@, longlink@)
            },
            Err(e) => {
                &&& final(store)@ == old(store)@
                &&& e == if is_valid_longlink(longlink@) {
                    Error::GenerationExhausted
                } else {
                    Error::InvalidLonglink
                }
            },
        },
        is_valid_longlink(longlink@) && generation_is_free(old(store)@) ==> done is Ok,
{
    let mut candidates: Vec<String> = Vec::new();
    while candidates.len() < MAX_ATTEMPTS
        invariant
            candidates@.len() <= MAX_ATTEMPTS,
            forall|i: int| 0 <= i < candidates@.len() ==> is_generated(#[trigger] candidates@[i]@),
        decreases MAX_ATTEMPTS - candidates@.len(),
    {
        candidates.push(random_token());
    }
    proof {
        let all = texts(candidates@);
        lemma_first_usable(store@, all);
        assert forall|i: int| 0 <= i < all.len() implies is_generated(#[trigger] all[i]) by {
            assert(all[i] == candidates@[i]@);
        }
        assert(is_generated(all[0]));
        lemma_generated_is_valid(all[0]);
        match first_usable(store@, all) {
            Some(token) => {
                let i = choose|i: int| 0 <= i < all.len() && all[i] == token;
                assert(is_generated(all[i]));
            },
            None => {
                assert(!usable(store@, all[0]));
            },
        }
    }
    add_first_free(store, &candidates, longlink)
}

/// Creates a link: under the token that the request names, or under a
/// generated one when it names none.
pub fn add_link(store: &mut Store, wanted: LinkRequest) -> (done: Result<String, Error>)
    ensures
        match wanted.chosen() {
            Some(k) => {
                &&& final(store)@ == after_add(old(store)@, k, wanted.longlink@)
                &&& match add_refusal(old(store)@, k, wanted.longlink@) {
                    Some(e) => done == Err::<String, Error>(e),
                    None => done matches Ok(token) && token@ == k,
                }
            },
            None => match done {
                Ok(token) => {
                    &&& is_valid_longlink(wanted.longlink@)
                    &&& is_generated(token@)
                    &&& is_valid_shortlink(token@)
                    &&& !holds(old(store)@, token@)
                    &&& final(store)@ == inserted(old(store)@, token@, wanted.longlink@)
                },
                Err(e) => {
                    &&& final(store)@ == old(store)@
                    &&& e == if is_valid_longlink(wanted.longlink@) {
                        Error::GenerationExhausted
                    } else {
                        Error::InvalidLonglink
                    }
                },
            },
        },
        wanted.chosen() is None && is_valid_longlink(wanted.longlink@) && generation_is_free(
            old(store)@,
        ) ==> done is Ok,
{
    let LinkRequest { shortlink, longlink } = wanted;
    match shortlink {
        Some(k) => add_with_token(store, k, longlink),
        None => add_generated(store, longlink),
    }
}

/// The target of the link under `shortlink`, if there is one. Looking a
/// link up does not count as a hit.
pub fn get_longurl(store: &Store, shortlink: &str) -> (target: Option<String>)
    ensures
        target is Some <==> holds(store@, shortlink@),
        target matches Some(url) ==> lookup(store@, shortlink@) matches Some(link) && link.longlink
            == url@,
{
    match store.find(shortlink) {
        Some(link) => Some(link.longlink),
        None => None,
    }
}

/// Deletes the link under `shortlink` and says whether there was one.
pub fn delete_link(store: &mut Store, shortlink: &str) -> (removed: bool)
    ensures
        removed == holds(old(store)@, shortlink@),
        final(store)@ == deleted(old(store)@, shortlink@),
{
    store.delete(shortlink)
}

/// Edits the link under `shortlink`: it gets the target of `wanted` and, if
/// `wanted` names a token, that token. The new values are checked as for a
/// creation. `Ok(false)` says that no link stands under `shortlink`.
pub fn edit_link(store: &mut Store, shortlink: &str, wanted: LinkRequest) -> (done: Result<bool, Error>)
    ensures
        final(store)@ == after_edit(old(store)@, shortlink@, wanted.chosen(), wanted.longlink@),
        match edit_refusal(old(store)@, shortlink@, wanted.chosen(), wanted.longlink@) {
            Some(e) => done == Err::<bool, Error>(e),
            None => done == Ok::<bool, Error>(holds(old(store)@, shortlink@)),
        },
{
    let LinkRequest { shortlink: chosen, longlink } = wanted;
    if !validate_longlink(longlink.as_str()) {
        return Err(Error::InvalidLonglink);
    }
    let token = match chosen {
        Some(k) => {
            if !validate_shortlink(k.as_str()) {
                return Err(Error::InvalidShortlink);
            }
            k
        },
        None => shortlink.to_owned(),
    };
    match store.update(shortlink, token, longlink) {
        Ok(changed) => Ok(changed),
        Err(_) => Err(Error::Conflict),
    }
}

/// One line of a listing: token, target and hits, separated by commas.
pub open spec fn line(link: LinkView) -> Seq<char> {
    link.shortlink + seq![','] + link.longlink + seq![','] + decimal(link.hits)
}

/// The listing of `s`: one line per link, in order, with a line feed
/// between two lines.
pub open spec fn listing(s: Seq<LinkView>) -> Seq<char>
    decreases s.len(),
{
    if s.len() == 0 {
        Seq::empty()
    } else if s.len() == 1 {
        line(s[0])
    } else {
        listing(s.drop_last()) + seq!['\n'] + line(s.last())
    }
}

/// All links as text, in creation order. Nothing is asked of the caller
/// here; who may see the listing is decided before this is called.
pub fn getall(store: &Store) -> (text: String)
    ensures
        text@ == listing(store@),
{
    let links = store.list_all();
    let ghost all = store@;
    let mut text = String::new();
    let mut i: usize = 0;
    while i < links.len()
        invariant
            i <= links@.len(),
            all.len() == links@.len(),
            forall|j: int| 0 <= j < links@.len() ==> links@[j]@ == all[j],
            text@ == listing(all.take(i as int)),
        decreases links@.len() - i,
    {
        let ghost before = text@;
        if i > 0 {
            text.push('\n');
        }
        text.append(links[i].shortlink.as_str());
        text.push(',');
        text.append(links[i].longlink.as_str());
        text.push(',');
        push_decimal(&mut text, links[i].hits);
        proof {
            let next = all.take(i + 1);
            assert(next.drop_last() =~= all.take(i as int));
            assert(next.last() == all[i as int]);
            if i > 0 {
                assert(text@ =~= before + seq!['\n'] + line(all[i as int]));
            } else {
                assert(text@ =~= line(all[i as int]));
            }
        }
        i += 1;
    }
    assert(all.take(links@.len() as int) =~= all);
    text
}

} // verus!
