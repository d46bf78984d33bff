//! One stored link: a short token, the URL it stands for, and how often it
//! was followed.

use vstd::prelude::*;

verus! {

/// A link as it is stored and listed.
#[derive(Debug, PartialEq, Eq)]
pub struct Link {
    /// The short token, the key of the link.
    pub shortlink: String,
    /// The URL that the token redirects to.
    pub longlink: String,
    /// How many times the token was resolved for a visitor.
    pub hits: u64,
}

/// The mathematical value of a [`Link`]: what contracts say of it.
pub struct LinkView {
    pub shortlink: Seq<char>,
    pub longlink: Seq<char>,
    pub hits: nat,
}

impl View for Link {
    type V = LinkView;

    open spec fn view(&self) -> LinkView {
        LinkView { shortlink: self.shortlink@, longlink: self.longlink@, hits: self.hits as nat }
    }
}

/// The link that a creation stores: the given token and URL, never followed yet.
pub open spec fn fresh(shortlink: Seq<char>, longlink: Seq<char>) -> LinkView {
    LinkView { shortlink, longlink, hits: 0 }
}

/// The views of a run of links, in the same order.
pub open spec fn views(links: Seq<Link>) -> Seq<LinkView> {
    Seq::new(links.len(), |i: int| links[i]@)
}

impl Link {
    /// A link that was never followed.
    pub fn new(shortlink: String, longlink: String) -> (link: Link)
        ensures
            link@ == fresh(shortlink@, longlink@),
    {
        Link { shortlink, longlink, hits: 0 }
    }
}

impl Clone for Link {
    fn clone(&self) -> (copy: Link)
        ensures
            copy@ == self@,
    {
        Link { shortlink: self.shortlink.clone(), longlink: self.longlink.clone(), hits: self.hits }
    }
}

} // verus!
