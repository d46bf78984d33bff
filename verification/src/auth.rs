//! Who may change or list links.
//!
//! The server holds one secret for as long as the process lives. Logging in
//! hands the caller a token bound to that secret; a session is let through
//! when the token it carries is the one the server would issue now. A new
//! process has a new secret, so every older token stops matching. Sealing
//! the token on its way to the caller and back is the transport's business.

use crate::text::same_text;
use vstd::prelude::*;

verus! {

/// What the process is configured with at startup and never changes.
#[derive(Debug)]
pub struct Config {
    /// The secret that tokens are bound to.
    pub secret: String,
    /// The password asked for at login; without one, every login succeeds.
    pub password: Option<String>,
    /// Whether links may be created without logging in.
    pub public_mode: bool,
    /// Whether visitors are redirected permanently rather than temporarily.
    pub permanent_redirect: bool,
}

/// The value that switches public mode on.
pub open spec fn public_mode_word() -> Seq<char> {
    "Enable"@
}

/// The value that makes redirects temporary.
pub open spec fn temporary_word() -> Seq<char> {
    "TEMPORARY"@
}

impl Config {
    /// The configuration that the given settings mean. Public mode is on
    /// only for the exact value `Enable`; redirects are permanent unless
    /// the method is exactly `TEMPORARY`.
    pub fn from_settings(
        secret: String,
        password: Option<String>,
        public_mode: Option<&str>,
        redirect_method: Option<&str>,
    ) -> (config: Config)
        ensures
            config.secret == secret,
            config.password == password,
            config.public_mode == (public_mode matches Some(word) && word@ == public_mode_word()),
            config.permanent_redirect == !(redirect_method matches Some(word) && word@
                == temporary_word()),
    {
        let public = match public_mode {
            Some(word) => same_text(word, "Enable"),
            None => false,
        };
        let temporary = match redirect_method {
            Some(word) => same_text(word, "TEMPORARY"),
            None => false,
        };
        Config { secret, password, public_mode: public, permanent_redirect: !temporary }
    }

    /// The token that the server issues: the one bound to its secret.
    pub open spec fn issued(&self) -> Seq<char> {
        self.secret@
    }

    /// Whether `password` opens a login: always when none is configured,
    /// else only when it is the configured one.
    pub open spec fn admits(&self, password: Seq<char>) -> bool {
        match self.password {
            Some(expected) => expected@ == password,
            None => true,
        }
    }
}

/// What a caller carries between requests: a token, or nothing.
#[derive(Debug, PartialEq, Eq)]
pub struct Session {
    pub token: Option<String>,
}

impl Session {
    /// The token that the session carries, if any.
    pub open spec fn carried(&self) -> Option<Seq<char>> {
        match self.token {
            Some(t) => Some(t@),
            None => None,
        }
    }

    /// The session of a caller who has not logged in.
    pub fn new() -> (session: Session)
        ensures
            session.carried() is None,
    {
        Session { token: None }
    }

    /// The session that carries `token`, as it comes back from a caller.
    pub fn with_token(token: String) -> (session: Session)
        ensures
            session.carried() == Some(token@),
    {
        Session { token: Some(token) }
    }
}

/// The session carries the token that the server issues now.
pub open spec fn authenticated(config: &Config, session: &Session) -> bool {
    session.carried() == Some(config.issued())
}

/// A fresh token bound to the server's secret.
pub fn gen_token(config: &Config) -> (token: String)
    ensures
        token@ == config.issued(),
{
    config.secret.clone()
}

/// Whether the session is let through.
pub fn validate(config: &Config, session: &Session) -> (ok: bool)
    ensures
        ok == authenticated(config, session),
{
    match &session.token {
        Some(token) => same_text(token.as_str(), config.secret.as_str()),
        None => false,
    }
}

/// Whether the session may create links: always in public mode, else only
/// when it is let through.
pub fn may_create(config: &Config, session: &Session) -> (ok: bool)
    ensures
        ok == (config.public_mode || authenticated(config, session)),
{
    config.public_mode || validate(config, session)
}

/// Logs the caller in when the password opens a login: the session then
/// carries a fresh token. A wrong password leaves the session as it was.
pub fn login(config: &Config, session: &mut Session, password: &str) -> (ok: bool)
    ensures
        ok == config.admits(password@),
        ok ==> authenticated(config, final(session)),
        !ok ==> *final(session) == *old(session),
{
    let admitted = match &config.password {
        Some(expected) => same_text(expected.as_str(), password),
        None => true,
    };
    if admitted {
        session.token = Some(gen_token(config));
    }
    admitted
}

/// Logs the caller out: the session carries no token afterwards. Says
/// whether it carried one.
pub fn logout(session: &mut Session) -> (was_logged_in: bool)
    ensures
        was_logged_in == (old(session).carried() is Some),
        final(session).carried() is None,
{
    let had = session.token.is_some();
    session.token = None;
    had
}

/// A session that carries no token is never let through.
pub proof fn law_anonymous_is_refused(config: &Config, session: &Session)
    requires
        session.carried() is None,
    ensures
        !authenticated(config, session),
{
}

/// A token stops matching when the secret changes: a session that was let
/// through before a restart is refused after it.
pub proof fn law_restart_invalidates(before: &Config, after: &Config, session: &Session)
    requires
        authenticated(before, session),
        after.issued() != before.issued(),
    ensures
        !authenticated(after, session),
{
}

} // verus!
