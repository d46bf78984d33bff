//! The table of links.
//!
//! A [`Store`] keeps its links in the order in which they were created and
//! never holds two links under one short token. Its view is that sequence;
//! the spec functions of this module say what each operation does to it.

use crate::link::{fresh, views, Link, LinkView};
use crate::text::same_text;
use vstd::prelude::*;

verus! {

/// No two links of `s` share a short token.
pub open spec fn distinct(s: Seq<LinkView>) -> bool {
    forall|i: int, j: int|
        #![trigger s[i], s[j]]
        0 <= i < j < s.len() ==> s[i].shortlink != s[j].shortlink
}

/// `s` has a link under the token `k`.
pub open spec fn holds(s: Seq<LinkView>, k: Seq<char>) -> bool {
    exists|i: int| 0 <= i < s.len() && (#[trigger] s[i]).shortlink == k
}

/// Where the link under `k` stands in `s`, if `s` holds one.
pub open spec fn slot(s: Seq<LinkView>, k: Seq<char>) -> int {
    choose|i: int| 0 <= i < s.len() && (#[trigger] s[i]).shortlink == k
}

/// The link under `k`, if `s` holds one.
pub open spec fn lookup(s: Seq<LinkView>, k: Seq<char>) -> Option<LinkView> {
    if holds(s, k) {
        Some(s[slot(s, k)])
    } else {
        None
    }
}

/// `s` after a new link was created under `k`.
pub open spec fn inserted(s: Seq<LinkView>, k: Seq<char>, target: Seq<char>) -> Seq<LinkView> {
    s.push(fresh(k, target))
}

/// `s` without the link under `k`.
pub open spec fn deleted(s: Seq<LinkView>, k: Seq<char>) -> Seq<LinkView> {
    if holds(s, k) {
        s.remove(slot(s, k))
    } else {
        s
    }
}

/// Renaming the link under `k` to `new_k` would take a token that another link has.
pub open spec fn clashes(s: Seq<LinkView>, k: Seq<char>, new_k: Seq<char>) -> bool {
    holds(s, k) && new_k != k && holds(s, new_k)
}

/// `s` after the link under `k` got the token `new_k` and the target
/// `new_target`; it keeps its place and its hits.
pub open spec fn updated(
    s: Seq<LinkView>,
    k: Seq<char>,
    new_k: Seq<char>,
    new_target: Seq<char>,
) -> Seq<LinkView> {
    if holds(s, k) {
        s.update(
            slot(s, k),
            LinkView { shortlink: new_k, longlink: new_target, hits: s[slot(s, k)].hits },
        )
    } else {
        s
    }
}

/// A hit counter after one more hit. The counter stops at the largest `u64`.
pub open spec fn bumped(hits: nat) -> nat {
    if hits < u64::MAX {
        hits + 1
    } else {
        hits
    }
}

/// `s` after one more hit on the link under `k`.
pub open spec fn hit(s: Seq<LinkView>, k: Seq<char>) -> Seq<LinkView> {
    if holds(s, k) {
        s.update(slot(s, k), LinkView { hits: bumped(s[slot(s, k)].hits), ..s[slot(s, k)] })
    } else {
        s
    }
}

/// In a sequence without repeated tokens, the place of a token is the only
/// place where it occurs.
pub proof fn lemma_slot(s: Seq<LinkView>, i: int)
    requires
        distinct(s),
        0 <= i < s.len(),
    ensures
        holds(s, s[i].shortlink),
        slot(s, s[i].shortlink) == i,
        lookup(s, s[i].shortlink) == Some(s[i]),
{
    let k = s[i].shortlink;
    let j = slot(s, k);
    assert(s[i].shortlink == k);
    if j < i {
        assert(s[j].shortlink != s[i].shortlink);
    } else if i < j {
        assert(s[i].shortlink != s[j].shortlink);
    }
}

/// The reason a store refuses an insert or a rename: the token is taken.
#[derive(Clone, Copy, Debug, PartialEq, Eq)]
pub struct Conflict;

/// The table of links, in creation order, one link per short token.
pub struct Store {
    links: Vec<Link>,
}

impl View for Store {
    type V = Seq<LinkView>;

    closed spec fn view(&self) -> Seq<LinkView> {
        views(self.links@)
    }
}

impl Store {
    #[verifier::type_invariant]
    spec fn well_formed(&self) -> bool {
        distinct(views(self.links@))
    }

    /// A store without links.
    pub fn new() -> (store: Store)
        ensures
            store@ == Seq::<LinkView>::empty(),
            distinct(store@),
    {
        let store = Store { links: Vec::new() };
        assert(store@ =~= Seq::<LinkView>::empty());
        store
    }

    /// The number of links.
    pub fn len(&self) -> (n: usize)
        ensures
            n == self@.len(),
    {
        self.links.len()
    }

    /// Where the link under `shortlink` stands.
    fn position(&self, shortlink: &str) -> (at: Option<usize>)
        ensures
            at is Some <==> holds(self@, shortlink@),
            at matches Some(i) ==> i < self@.len() && i == slot(self@, shortlink@)
                && self@[i as int].shortlink == shortlink@ && self@[i as int] == self.links@[i as int]@,
    {
        proof {
            use_type_invariant(self);
        }
        let n = self.links.len();
        let mut i: usize = 0;
        while i < n
            invariant
                n == self.links@.len(),
                i <= n,
                distinct(self@),
                self@ == views(self.links@),
                forall|j: int| 0 <= j < i ==> (#[trigger] self@[j]).shortlink != shortlink@,
            decreases n - i,
        {
            if same_text(self.links[i].shortlink.as_str(), shortlink) {
                proof {
                    lemma_slot(self@, i as int);
                }
                return Some(i);
            }
            i += 1;
        }
        None
    }

    /// Whether a link stands under `shortlink`.
    pub fn contains(&self, shortlink: &str) -> (found: bool)
        ensures
            found == holds(self@, shortlink@),
            distinct(self@),
    {
        proof {
            use_type_invariant(self);
        }
        self.position(shortlink).is_some()
    }

    /// Hands out the links and leaves the table empty for a moment, so that
    /// they can be changed and put back.
    fn take(&mut self) -> (links: Vec<Link>)
        ensures
            links@ == old(self).links@,
            distinct(views(links@)),
    {
        proof {
            use_type_invariant(&*self);
        }
        let mut links: Vec<Link> = Vec::new();
        assert(distinct(views(links@)));
        core::mem::swap(&mut self.links, &mut links);
        links
    }

    /// Puts changed links back.
    fn put(&mut self, links: Vec<Link>)
        requires
            distinct(views(links@)),
        ensures
            final(self).links@ == links@,
    {
        let mut links = links;
        core::mem::swap(&mut self.links, &mut links);
    }

    /// A store of the given links, in their order, provided no two of them
    /// share a short token.
    pub fn from_links(links: Vec<Link>) -> (store: Option<Store>)
        ensures
            store is Some <==> distinct(views(links@)),
            store matches Some(s) ==> s@ == views(links@),
    {
        let ghost all = views(links@);
        let n = links.len();
        let mut i: usize = 0;
        while i < n
            invariant
                n == links@.len(),
                i <= n,
                all == views(links@),
                distinct(all.take(i as int)),
            decreases n - i,
        {
            let mut j: usize = 0;
            while j < i
                invariant
                    n == links@.len(),
                    i < n,
                    j <= i,
                    all == views(links@),
                    forall|m: int| 0 <= m < j ==> (#[trigger] all[m]).shortlink != all[i as int].shortlink,
                decreases i - j,
            {
                if same_text(links[j].shortlink.as_str(), links[i].shortlink.as_str()) {
                    assert(all[j as int].shortlink == all[i as int].shortlink);
                    return None;
                }
                j += 1;
            }
            assert(distinct(all.take(i + 1))) by {
                let shorter = all.take(i as int);
                let longer = all.take(i + 1);
                assert forall|a: int, b: int|
                    #![trigger longer[a], longer[b]]
                    0 <= a < b < longer.len() implies longer[a].shortlink != longer[b].shortlink by {
                    if b < i {
                        assert(shorter[a].shortlink != shorter[b].shortlink);
                    } else {
                        assert(all[a].shortlink != all[i as int].shortlink);
                    }
                }
            }
            i += 1;
        }
        assert(all.take(n as int) =~= all);
        Some(Store { links })
    }

    /// Creates a link under `shortlink`, never followed yet, at the end of
    /// the table; refuses when the token is taken and then changes nothing.
    pub fn insert(&mut self, shortlink: String, longlink: String) -> (done: Result<(), Conflict>)
        ensures
            done is Err <==> holds(old(self)@, shortlink@),
            done is Err ==> final(self)@ == old(self)@,
            done is Ok ==> final(self)@ == inserted(old(self)@, shortlink@, longlink@),
            distinct(final(self)@),
    {
        proof {
            use_type_invariant(&*self);
        }
        if self.position(shortlink.as_str()).is_some() {
            return Err(Conflict);
        }
        let ghost before = self@;
        let ghost added = fresh(shortlink@, longlink@);
        let mut links = self.take();
        links.push(Link::new(shortlink, longlink));
        assert(views(links@) =~= before.push(added));
        assert(distinct(before.push(added))) by {
            let after = before.push(added);
            assert forall|i: int, j: int|
                #![trigger after[i], after[j]]
                0 <= i < j < after.len() implies after[i].shortlink != after[j].shortlink by {
                if j == before.len() {
                    assert(before[i].shortlink != added.shortlink);
                } else {
                    assert(before[i].shortlink != before[j].shortlink);
                }
            }
        }
        self.put(links);
        Ok(())
    }

    /// All links, in the order in which they were created.
    pub fn list_all(&self) -> (all: Vec<Link>)
        ensures
            views(all@) == self@,
            distinct(self@),
    {
        proof {
            use_type_invariant(self);
        }
        let n = self.links.len();
        let mut all: Vec<Link> = Vec::new();
        let mut i: usize = 0;
        while i < n
            invariant
                n == self.links@.len(),
                i <= n,
                all@.len() == i,
                forall|j: int| 0 <= j < i ==> all@[j]@ == self.links@[j]@,
            decreases n - i,
        {
            all.push(self.links[i].clone());
            i += 1;
        }
        assert(views(all@) =~= self@);
        all
    }

    /// The link under `shortlink`, if there is one.
    pub fn find(&self, shortlink: &str) -> (found: Option<Link>)
        ensures
            found is Some <==> holds(self@, shortlink@),
            found matches Some(link) ==> lookup(self@, shortlink@) == Some(link@),
            distinct(self@),
    {
        proof {
            use_type_invariant(self);
        }
        match self.position(shortlink) {
            Some(i) => Some(self.links[i].clone()),
            None => None,
        }
    }

    /// Removes the link under `shortlink` and says whether there was one.
    pub fn delete(&mut self, shortlink: &str) -> (removed: bool)
        ensures
            removed == holds(old(self)@, shortlink@),
            final(self)@ == deleted(old(self)@, shortlink@),
            distinct(final(self)@),
    {
        proof {
            use_type_invariant(&*self);
        }
        match self.position(shortlink) {
            Some(i) => {
                let ghost before = self@;
                let mut links = self.take();
                links.remove(i);
                assert(views(links@) =~= before.remove(i as int));
                self.put(links);
                true
            },
            None => false,
        }
    }

    /// Gives the link under `old_shortlink` a new token and a new target,
    /// keeping its place and its hits. `Ok(false)` when there is no such
    /// link; refused when another link has the new token. Nothing changes
    /// unless the answer is `Ok(true)`.
    pub fn update(&mut self, old_shortlink: &str, new_shortlink: String, new_longlink: String) -> (done:
        Result<bool, Conflict>)
        ensures
            done is Err <==> clashes(old(self)@, old_shortlink@, new_shortlink@),
            done matches Ok(changed) ==> changed == holds(old(self)@, old_shortlink@),
            done == Ok::<bool, Conflict>(true) ==> final(self)@ == updated(
                old(self)@,
                old_shortlink@,
                new_shortlink@,
                new_longlink@,
            ),
            done != Ok::<bool, Conflict>(true) ==> final(self)@ == old(self)@,
            distinct(final(self)@),
    {
        proof {
            use_type_invariant(&*self);
        }
        let Some(i) = self.position(old_shortlink) else {
            return Ok(false);
        };
        if !same_text(old_shortlink, new_shortlink.as_str()) && self.position(
            new_shortlink.as_str(),
        ).is_some() {
            return Err(Conflict);
        }
        let ghost before = self@;
        let ghost changed = LinkView {
            shortlink: new_shortlink@,
            longlink: new_longlink@,
            hits: before[i as int].hits,
        };
        let mut links = self.take();
        let hits = links[i].hits;
        links.set(i, Link { shortlink: new_shortlink, longlink: new_longlink, hits });
        assert(views(links@) =~= before.update(i as int, changed));
        assert(distinct(before.update(i as int, changed))) by {
            let after = before.update(i as int, changed);
            assert forall|a: int, b: int|
                #![trigger after[a], after[b]]
                0 <= a < b < after.len() implies after[a].shortlink != after[b].shortlink by {
                assert(before[a].shortlink != before[b].shortlink);
                if a == i {
                    assert(before[b].shortlink != new_shortlink@);
                } else if b == i {
                    assert(before[a].shortlink != new_shortlink@);
                }
            }
        }
        self.put(links);
        Ok(true)
    }

    /// Counts one more hit on the link under `shortlink`; does nothing when
    /// there is no such link.
    pub fn record_hit(&mut self, shortlink: &str)
        ensures
            final(self)@ == hit(old(self)@, shortlink@),
            distinct(final(self)@),
    {
        proof {
            use_type_invariant(&*self);
        }
        if let Some(i) = self.position(shortlink) {
            let ghost before = self@;
            let mut links = self.take();
            let hits = links[i].hits;
            if hits < u64::MAX {
                links[i].hits = hits + 1;
            }
            assert(views(links@) =~= hit(before, shortlink@));
            assert(distinct(hit(before, shortlink@))) by {
                let after = hit(before, shortlink@);
                assert forall|a: int, b: int|
                    #![trigger after[a], after[b]]
                    0 <= a < b < after.len() implies after[a].shortlink != after[b].shortlink by {
                    assert(before[a].shortlink != before[b].shortlink);
                }
            }
            self.put(links);
        }
    }
}

} // verus!
