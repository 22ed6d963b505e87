use vstd::prelude::*;
use crate::ids::HammerfestUsername;
use crate::server::HammerfestServer;

verus! {

/// Why a page, or the answer to a login, could not be read. The text each
/// variant carries is the raw value or the anchor that failed.
#[derive(Clone, Debug, PartialEq, Eq)]
pub enum ScraperError {
    /// The mirror answered with its generic error page.
    Evni,
    InvalidCredentials(HammerfestServer, HammerfestUsername),
    MissingSessionCookie,
    InvalidSessionCookie,
    /// The session minted by a login was already gone when first used.
    LoginSessionRevoked,
    /// The login answer was neither a redirect nor a login page with an error.
    UnexpectedResponse(String),
    /// No element matches the anchor.
    HtmlFragmentNotFound(String),
    /// Two or more elements match the anchor.
    TooManyHtmlFragments(String),
    MissingAttribute(String),
    InvalidInteger(String),
    InvalidUserId(String),
    InvalidUsername(String),
    InvalidItemId(String),
    InvalidLink(String),
    /// The page numbers are not `1 <= current <= count`.
    InvalidPagination,
    InvalidDate(String),
    InvalidPostId(String),
    /// A post author is marked both moderator and administrator.
    UnknownUserRole,
}

impl ScraperError {
    /// Validation failures: a captured value does not have its type's shape.
    pub open spec fn is_validation(&self) -> bool {
        ||| self is InvalidInteger
        ||| self is InvalidUserId
        ||| self is InvalidUsername
        ||| self is InvalidItemId
        ||| self is InvalidLink
        ||| self is InvalidDate
        ||| self is InvalidPostId
    }

    /// Structural failures: the page does not have the expected shape.
    pub open spec fn is_structural(&self) -> bool {
        ||| self is Evni
        ||| self is HtmlFragmentNotFound
        ||| self is TooManyHtmlFragments
        ||| self is MissingAttribute
        ||| self is UnexpectedResponse
        ||| self is InvalidPagination
        ||| self is UnknownUserRole
    }

    /// Authentication failures: bad credentials, or a session that is not valid.
    pub open spec fn is_authentication(&self) -> bool {
        ||| self is InvalidCredentials
        ||| self is MissingSessionCookie
        ||| self is InvalidSessionCookie
        ||| self is LoginSessionRevoked
    }
}

} // verus!
