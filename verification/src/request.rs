//! What each endpoint of the service answers.
//!
//! The functions here take what a request carried, already read from the
//! wire, and say what is to be sent back: a status and a body, or where to
//! redirect. They ask who is calling first, then let the engine work on the store.

use crate::auth::{authenticated, may_create, validate, Config, Session};
use crate::engine::{
    add_refusal, after_add, after_edit, edit_refusal, generation_is_free, listing, Error, LinkRequest,
};
use crate::generate::is_generated;
use crate::store::{deleted, hit, holds, inserted, lookup, Store};
use crate::syntax::is_valid_longlink;
use vstd::prelude::*;
use vstd::string::StrSliceExecFns;
use vstd::string::StringExecFns;

verus! {

/// The outcome of a request, as the status of the answer.
#[derive(Clone, Copy, Debug, PartialEq, Eq, Structural)]
pub enum Status {
    Success,
    Created,
    Unauthorized,
    NotFound,
    Conflict,
}

impl Status {
    /// The HTTP status code.
    pub open spec fn number(self) -> u16 {
        match self {
            Status::Success => 200,
            Status::Created => 201,
            Status::Unauthorized => 401,
            Status::NotFound => 404,
            Status::Conflict => 409,
        }
    }

    /// The HTTP status code.
    pub fn code(&self) -> (code: u16)
        ensures
            code == self.number(),
    {
        match self {
            Status::Success => 200,
            Status::Created => 201,
            Status::Unauthorized => 401,
            Status::NotFound => 404,
            Status::Conflict => 409,
        }
    }
}

/// An answer: a status and a body of text.
#[derive(Debug, PartialEq, Eq)]
pub struct Response {
    pub status: Status,
    pub body: String,
}

impl Response {
    /// The answer is `status` with the body `body`.
    pub open spec fn says(&self, status: Status, body: Seq<char>) -> bool {
        self.status == status && self.body@ == body
    }
}

/// What a visitor who follows a short link gets.
#[derive(Debug, PartialEq, Eq)]
pub enum Resolution {
    /// A redirect to `location`, permanent or temporary.
    Redirect { location: String, permanent: bool },
    /// No link stands under the token.
    NotFound,
}

/// Where the target ends in the body of a creation or an edit: at its
/// first `;`, or at its end when it holds none.
pub open spec fn target_ends_at(body: Seq<char>, at: int) -> bool {
    &&& 0 <= at <= body.len()
    &&& forall|j: int| 0 <= j < at ==> body[j] != ';'
    &&& at < body.len() ==> body[at] == ';'
}

/// Reads the body of a creation or an edit: the target, then, if the
/// caller chose a token, a `;` and the token. A body without `;`, or with
/// nothing after its first `;`, names no token.
pub fn read_request(body: &str) -> (wanted: LinkRequest)
    ensures
        target_ends_at(body@, wanted.longlink@.len() as int),
        wanted.longlink@ == body@.take(wanted.longlink@.len() as int),
        wanted.chosen() == if wanted.longlink@.len() + 1 < body@.len() {
            Some(body@.skip(wanted.longlink@.len() as int + 1))
        } else {
            None
        },
{
    let n = body.unicode_len();
    let mut i: usize = 0;
    let mut found: Option<usize> = None;
    for c in it: body.chars()
        invariant
            n == body@.len(),
            i == it.index(),
            it.seq() == body@,
            match found {
                Some(at) => at < i && target_ends_at(body@, at as int),
                None => forall|j: int| 0 <= j < i ==> body@[j] != ';',
            },
    {
        if found.is_none() && c == ';' {
            found = Some(i);
        }
        i += 1;
    }
    let at = match found {
        Some(at) => at,
        None => n,
    };
    let longlink = String::from_str(body.substring_char(0, at));
    assert(body@.subrange(0, at as int) =~= body@.take(at as int));
    let shortlink = if at < n && at + 1 < n {
        assert(body@.subrange(at + 1, n as int) =~= body@.skip(at + 1));
        Some(String::from_str(body.substring_char(at + 1, n)))
    } else {
        None
    };
    LinkRequest { shortlink, longlink }
}

fn answer(status: Status, body: &str) -> (response: Response)
    ensures
        response.says(status, body@),
{
    Response { status, body: String::from_str(body) }
}

fn not_logged_in() -> (response: Response)
    ensures
        response.says(Status::Unauthorized, "Not logged in!"@),
{
    answer(Status::Unauthorized, "Not logged in!")
}

/// The answer to a creation that the engine has worked on: the new token
/// on success, the reason on refusal.
pub fn creation_answer(done: Result<String, Error>) -> (response: Response)
    ensures
        match done {
            Ok(token) => response.says(Status::Created, token@),
            Err(e) => response.says(Status::Conflict, e.text()),
        },
{
    match done {
        Ok(token) => Response { status: Status::Created, body: token },
        Err(e) => Response { status: Status::Conflict, body: e.message() },
    }
}

/// Creates a link for a caller who may create links: anyone in public
/// mode, else only a session that is logged in.
pub fn add_link(config: &Config, session: &Session, store: &mut Store, wanted: LinkRequest) -> (response:
    Response)
    ensures
        !(config.public_mode || authenticated(config, session)) ==> {
            &&& response.says(Status::Unauthorized, "Not logged in!"@)
            &&& final(store)@ == old(store)@
        },
        (config.public_mode || authenticated(config, session)) ==> match wanted.chosen() {
            Some(k) => {
                &&& final(store)@ == after_add(old(store)@, k, wanted.longlink@)
                &&& match add_refusal(old(store)@, k, wanted.longlink@) {
                    Some(e) => response.says(Status::Conflict, e.text()),
                    None => response.says(Status::Created, k),
                }
            },
            None => {
                &&& response.status == Status::Created || response.status == Status::Conflict
                &&& response.status == Status::Created ==> {
                    &&& is_valid_longlink(wanted.longlink@)
                    &&& is_generated(response.body@)
                    &&& !holds(old(store)@, response.body@)
                    &&& final(store)@ == inserted(old(store)@, response.body@, wanted.longlink@)
                }
                &&& response.status == Status::Conflict ==> {
                    &&& final(store)@ == old(store)@
                    &&& response.body@ == if is_valid_longlink(wanted.longlink@) {
                        Error::GenerationExhausted.text()
                    } else {
                        Error::InvalidLonglink.text()
                    }
                }
                &&& is_valid_longlink(wanted.longlink@) && generation_is_free(old(store)@)
                    ==> response.status == Status::Created
            },
        },
{
    if may_create(config, session) {
        creation_answer(crate::engine::add_link(store, wanted))
    } else {
        not_logged_in()
    }
}

/// Lists all links for a session that is logged in. Public mode opens
/// creation only, never the listing; the refusal says which of the two
/// modes the server runs in.
pub fn getall(config: &Config, session: &Session, store: &Store) -> (response: Response)
    ensures
        if authenticated(config, session) {
            response.says(Status::Success, listing(store@))
        } else if config.public_mode {
            response.says(Status::Unauthorized, "Using public mode."@)
        } else {
            response.says(Status::Unauthorized, "Not logged in!"@)
        },
{
    if validate(config, session) {
        Response { status: Status::Success, body: crate::engine::getall(store) }
    } else if config.public_mode {
        answer(Status::Unauthorized, "Using public mode.")
    } else {
        not_logged_in()
    }
}

/// Resolves a short link for a visitor. When a link stands under the
/// token, one hit is counted and the visitor is sent to its target, by the
/// kind of redirect that the configuration names.
pub fn link_handler(config: &Config, store: &mut Store, shortlink: &str) -> (resolution: Resolution)
    ensures
        final(store)@ == hit(old(store)@, shortlink@),
        match lookup(old(store)@, shortlink@) {
            Some(link) => resolution matches Resolution::Redirect { location, permanent }
                && location@ == link.longlink && permanent == config.permanent_redirect,
            None => resolution == Resolution::NotFound,
        },
{
    match crate::engine::get_longurl(store, shortlink) {
        Some(location) => {
            store.record_hit(shortlink);
            Resolution::Redirect { location, permanent: config.permanent_redirect }
        },
        None => Resolution::NotFound,
    }
}

/// Logs a caller in.
pub fn login(config: &Config, session: &mut Session, password: &str) -> (response: Response)
    ensures
        if config.admits(password@) {
            &&& response.says(Status::Success, "Correct password!"@)
            &&& authenticated(config, final(session))
        } else {
            &&& response.says(Status::Unauthorized, "Wrong password!"@)
            &&& *final(session) == *old(session)
        },
{
    if crate::auth::login(config, session, password) {
        answer(Status::Success, "Correct password!")
    } else {
        answer(Status::Unauthorized, "Wrong password!")
    }
}

/// Logs a caller out.
pub fn logout(session: &mut Session) -> (response: Response)
    ensures
        final(session).carried() is None,
        if old(session).carried() is Some {
            response.says(Status::Success, "Logged out!"@)
        } else {
            response.says(Status::Unauthorized, "You don't seem to be logged in."@)
        },
{
    if crate::auth::logout(session) {
        answer(Status::Success, "Logged out!")
    } else {
        answer(Status::Unauthorized, "You don't seem to be logged in.")
    }
}

/// Deletes a link for a session that is logged in.
pub fn delete_link(config: &Config, session: &Session, store: &mut Store, shortlink: &str) -> (response:
    Response)
    ensures
        if !authenticated(config, session) {
            &&& response.says(Status::Unauthorized, "Not logged in!"@)
            &&& final(store)@ == old(store)@
        } else if holds(old(store)@, shortlink@) {
            &&& response.says(Status::Success, "Deleted "@ + shortlink@)
            &&& final(store)@ == deleted(old(store)@, shortlink@)
        } else {
            &&& response.says(Status::NotFound, "Not found!"@)
            &&& final(store)@ == old(store)@
        },
{
    if !validate(config, session) {
        return not_logged_in();
    }
    if crate::engine::delete_link(store, shortlink) {
        let mut body = String::from_str("Deleted ");
        body.append(shortlink);
        Response { status: Status::Success, body }
    } else {
        answer(Status::NotFound, "Not found!")
    }
}

/// The answer to an edit that the engine has worked on.
pub fn edit_answer(shortlink: &str, done: Result<bool, Error>) -> (response: Response)
    ensures
        match done {
            Ok(true) => response.says(Status::Success, "Edited "@ + shortlink@),
            Ok(false) => response.says(Status::NotFound, "Not found!"@),
            Err(e) => response.says(Status::Conflict, e.text()),
        },
{
    match done {
        Ok(true) => {
            let mut body = String::from_str("Edited ");
            body.append(shortlink);
            Response { status: Status::Success, body }
        },
        Ok(false) => answer(Status::NotFound, "Not found!"),
        Err(e) => Response { status: Status::Conflict, body: e.message() },
    }
}

/// Edits a link for a session that is logged in.
pub fn edit_link(
    config: &Config,
    session: &Session,
    store: &mut Store,
    shortlink: &str,
    wanted: LinkRequest,
) -> (response: Response)
    ensures
        if !authenticated(config, session) {
            &&& response.says(Status::Unauthorized, "Not logged in!"@)
            &&& final(store)@ == old(store)@
        } else {
            &&& final(store)@ == after_edit(old(store)@, shortlink@, wanted.chosen(), wanted.longlink@)
            &&& match edit_refusal(old(store)@, shortlink@, wanted.chosen(), wanted.longlink@) {
                Some(e) => response.says(Status::Conflict, e.text()),
                None => if holds(old(store)@, shortlink@) {
                    response.says(Status::Success, "Edited "@ + shortlink@)
                } else {
                    response.says(Status::NotFound, "Not found!"@)
                },
            }
        },
{
    if !validate(config, session) {
        return not_logged_in();
    }
    edit_answer(shortlink, crate::engine::edit_link(store, shortlink, wanted))
}

} // verus!
