use vstd::prelude::*;
use crate::document::{has_class_spec, HtmlDocument};
use crate::errors::ScraperError;
use crate::ids::HammerfestSessionKey;
use crate::model::{HammerfestCredentials, HammerfestSession, Instant, ShortHammerfestUser};
use crate::pattern::session_key_text;
use crate::scrape::{
    is_login_page_error, scrape_user_base, shows_no_viewer, shows_viewer, viewer_readable,
    LOGIN_ERROR_CLASS,
};
use crate::server::HammerfestServer;
use crate::text::starts_with;

verus! {

/// Name of the cookie that carries the session token.
pub const SESSION_COOKIE_PREFIX: &'static str = "SID=";

/// What the status of the answer to a login form means.
#[derive(Copy, Clone, Debug, PartialEq, Eq, Structural)]
pub enum LoginAnswer {
    /// `302 Found`: the login succeeded and the answer sets the session cookie.
    Redirect,
    /// Another success status: the login page came back, to be read.
    Page,
    /// A client or server error status.
    Failure,
}

pub fn classify_login_status(status: u16) -> (r: LoginAnswer)
    ensures
        r == LoginAnswer::Redirect <==> status == 302,
        r == LoginAnswer::Failure <==> 400 <= status <= 599,
        r == LoginAnswer::Page <==> status != 302 && !(400 <= status <= 599),
{
    if status == 302 {
        LoginAnswer::Redirect
    } else if 400 <= status && status <= 599 {
        LoginAnswer::Failure
    } else {
        LoginAnswer::Page
    }
}

pub open spec fn page_shows_login_error(doc: HtmlDocument) -> bool {
    exists|j: int|
        0 <= j < doc.elements@.len() && has_class_spec(#[trigger] doc.elements@[j], LOGIN_ERROR_CLASS@)
}

/// The error that a login answered by a page, not by a redirect, ends with:
/// the page shows a login error, so the credentials are wrong; or it does not,
/// and the answer was not what a login gives.
pub fn login_page_error(credentials: &HammerfestCredentials, login_url: &str, doc: &HtmlDocument) -> (r:
    ScraperError)
    ensures
        page_shows_login_error(*doc) ==> r == ScraperError::InvalidCredentials(
            credentials.server,
            credentials.username,
        ),
        !page_shows_login_error(*doc) ==> (r matches ScraperError::UnexpectedResponse(u) && u@
            == login_url@),
{
    if is_login_page_error(doc) {
        ScraperError::InvalidCredentials(credentials.server, credentials.username.clone())
    } else {
        ScraperError::UnexpectedResponse(String::from_str(login_url))
    }
}

/// Index of the first `;` in `s` at or after `from`, or the length of `s`.
pub open spec fn first_semicolon(s: Seq<char>, from: int) -> int
    decreases s.len() - from,
{
    if from < 0 || from >= s.len() {
        s.len() as int
    } else if s[from] == ';' {
        from
    } else {
        first_semicolon(s, from + 1)
    }
}

proof fn lemma_first_semicolon_bounds(s: Seq<char>, from: int)
    requires
        0 <= from,
    ensures
        from <= first_semicolon(s, from) <= s.len() || (from > s.len() && first_semicolon(s, from) == s.len()),
    decreases s.len() - from,
{
    if from < s.len() && s[from] != ';' {
        lemma_first_semicolon_bounds(s, from + 1);
    }
}

/// The session token that one `Set-Cookie` header sets, if it sets `SID`.
pub open spec fn sid_of_header(h: Seq<char>) -> Option<Seq<char>> {
    let p = SESSION_COOKIE_PREFIX@;
    if p.len() <= h.len() && h.subrange(0, p.len() as int) == p {
        Some(h.subrange(p.len() as int, first_semicolon(h, p.len() as int)))
    } else {
        None
    }
}

/// The token of the first of `headers` that sets `SID`.
pub open spec fn first_sid(headers: Seq<String>) -> Option<Seq<char>>
    decreases headers.len(),
{
    if headers.len() == 0 {
        None
    } else {
        match sid_of_header(headers[0]@) {
            Some(v) => Some(v),
            None => first_sid(headers.drop_first()),
        }
    }
}

fn sid_value(h: &str) -> (r: Option<&str>)
    ensures
        r matches Some(v) ==> sid_of_header(h@) == Some(v@),
        r is None ==> sid_of_header(h@) is None,
{
    if !starts_with(h, SESSION_COOKIE_PREFIX) {
        return None;
    }
    let n = h.unicode_len();
    let start = SESSION_COOKIE_PREFIX.unicode_len();
    let mut i = start;
    proof {
        lemma_first_semicolon_bounds(h@, start as int);
    }
    while i < n
        invariant
            start <= i <= n,
            n == h@.len(),
            start == SESSION_COOKIE_PREFIX@.len(),
            h@.subrange(0, start as int) == SESSION_COOKIE_PREFIX@,
            first_semicolon(h@, start as int) == first_semicolon(h@, i as int),
        decreases n - i,
    {
        if h.get_char(i) == ';' {
            assert(first_semicolon(h@, i as int) == i as int);
            return Some(h.substring_char(start, i));
        }
        i = i + 1;
    }
    assert(first_semicolon(h@, n as int) == n as int);
    Some(h.substring_char(start, n))
}

/// Reads the session token from the `Set-Cookie` headers of a login answer.
pub fn session_key_from_cookies(headers: &Vec<String>) -> (r: Result<HammerfestSessionKey, ScraperError>)
    ensures
        r matches Err(ScraperError::MissingSessionCookie) <==> first_sid(headers@) is None,
        r matches Err(ScraperError::InvalidSessionCookie) <==> (first_sid(headers@) matches Some(v)
            && !session_key_text(v)),
        r matches Ok(k) ==> first_sid(headers@) == Some(k@),
        r is Ok <==> (first_sid(headers@) matches Some(v) && session_key_text(v)),
{
    let mut k: usize = 0;
    assert(headers@.subrange(0, headers@.len() as int) == headers@);
    while k < headers.len()
        invariant
            k <= headers@.len(),
            first_sid(headers@) == first_sid(headers@.subrange(k as int, headers@.len() as int)),
        decreases headers@.len() - k,
    {
        let ghost rest = headers@.subrange(k as int, headers@.len() as int);
        assert(rest.drop_first() == headers@.subrange(k + 1, headers@.len() as int));
        match sid_value(headers[k].as_str()) {
            Some(v) => {
                return match HammerfestSessionKey::try_from_string(String::from_str(v)) {
                    Ok(key) => Ok(key),
                    Err(_) => Err(ScraperError::InvalidSessionCookie),
                };
            },
            None => {},
        }
        k = k + 1;
    }
    assert(headers@.subrange(k as int, headers@.len() as int).len() == 0);
    Err(ScraperError::MissingSessionCookie)
}

/// The value of the `Cookie` header that presents a session token.
pub fn session_cookie(key: &HammerfestSessionKey) -> (r: String)
    ensures
        r@ == SESSION_COOKIE_PREFIX@ + key@,
{
    String::from_str(SESSION_COOKIE_PREFIX).concat(key.as_str())
}

/// Ends a login once the root page has been fetched with the new token: the
/// page must show the logged-in player, else the session was revoked at once.
pub fn finish_login(server: HammerfestServer, key: HammerfestSessionKey, now: Instant, doc: &HtmlDocument) -> (r:
    Result<HammerfestSession, ScraperError>)
    requires
        doc.wf(),
    ensures
        r matches Err(ScraperError::LoginSessionRevoked) <==> shows_no_viewer(*doc),
        r is Ok <==> viewer_readable(*doc) && !shows_no_viewer(*doc),
        r matches Ok(s) ==> s.key == key && s.ctime == now && s.atime == now && shows_viewer(
            *doc,
            server,
            s.user,
        ),
{
    let base = scrape_user_base(server, doc);
    match base {
        Ok(Some(user)) => Ok(HammerfestSession { ctime: now, atime: now, key, user }),
        Ok(None) => Err(ScraperError::LoginSessionRevoked),
        Err(e) => {
            assert(!(e is LoginSessionRevoked));
            Err(e)
        },
    }
}

/// Checks a session token against the root page fetched with it: `None` when
/// the page shows nobody logged in, else a session under the same token.
pub fn session_from_root(server: HammerfestServer, key: &HammerfestSessionKey, now: Instant, doc: &HtmlDocument) -> (r:
    Result<Option<HammerfestSession>, ScraperError>)
    requires
        doc.wf(),
    ensures
        r is Ok <==> viewer_readable(*doc),
        r matches Ok(None) <==> shows_no_viewer(*doc),
        r matches Ok(Some(s)) ==> s.key == *key && s.ctime == now && s.atime == now && shows_viewer(
            *doc,
            server,
            s.user,
        ),
{
    match scrape_user_base(server, doc) {
        Ok(Some(user)) => Ok(Some(HammerfestSession { ctime: now, atime: now, key: key.clone(), user })),
        Ok(None) => Ok(None),
        Err(e) => Err(e),
    }
}

/// Where a session token stands, as its holder sees it.
#[derive(Debug, PartialEq, Eq)]
pub enum SessionState {
    Unauthenticated,
    Authenticated(HammerfestSession),
    /// The mirror no longer shows a player for the token; only a new login
    /// leaves this state.
    Revoked,
}

/// The state after a login attempt: a session on success; on failure, the
/// state as it was.
pub fn after_login(state: SessionState, outcome: Result<HammerfestSession, ScraperError>) -> (r: SessionState)
    ensures
        outcome matches Ok(s) ==> r == SessionState::Authenticated(s),
        outcome is Err ==> r == state,
{
    match outcome {
        Ok(s) => SessionState::Authenticated(s),
        Err(_) => state,
    }
}

/// The state after checking the token of an authenticated session: the
/// refreshed session, which keeps the token and the player's id, or revoked.
pub fn after_test(state: SessionState, outcome: Option<HammerfestSession>) -> (r: SessionState)
    requires
        state is Authenticated,
    ensures
        outcome is None ==> r == SessionState::Revoked,
        outcome matches Some(t) ==> (r matches SessionState::Authenticated(s) && s.key == state->Authenticated_0.key
            && s.user.id == state->Authenticated_0.user.id && s.ctime == state->Authenticated_0.ctime
            && s.user.server == state->Authenticated_0.user.server && s.atime == t.atime && s.user.username == t.user.username),
{
    match state {
        SessionState::Authenticated(old_session) => match outcome {
            None => SessionState::Revoked,
            Some(t) => SessionState::Authenticated(
                HammerfestSession { ctime: old_session.ctime, atime: t.atime, key: old_session.key, user: ShortHammerfestUser {
                    server: old_session.user.server,
                    id: old_session.user.id,
                    username: t.user.username,
                } },
            ),
        },
        other => other,
    }
}

} // verus!
