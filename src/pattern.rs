use vstd::prelude::*;

verus! {

pub const USERNAME_PATTERN: &'static str = "^[0-9A-Za-z]{1,12}$";

pub const USER_ID_PATTERN: &'static str = "^[1-9][0-9]{0,8}$";

pub const SESSION_KEY_PATTERN: &'static str = "^[0-9a-z]{26}$";

pub const ITEM_ID_PATTERN: &'static str = "^(?:0|[1-9][0-9]{0,3})$";

pub const FORUM_THEME_ID_PATTERN: &'static str = "^[0-9]{1,2}$";

/// Shared by quest, forum thread and forum post ids.
pub const NUMERIC_ID_PATTERN: &'static str = "^[0-9]{1,9}$";

pub open spec fn is_digit(c: char) -> bool {
    '0' <= c <= '9'
}

pub open spec fn is_nonzero_digit(c: char) -> bool {
    '1' <= c <= '9'
}

pub open spec fn is_lower_alnum(c: char) -> bool {
    is_digit(c) || ('a' <= c <= 'z')
}

pub open spec fn is_alnum(c: char) -> bool {
    is_lower_alnum(c) || ('A' <= c <= 'Z')
}

pub open spec fn all_digits(s: Seq<char>) -> bool {
    forall|i: int| 0 <= i < s.len() ==> is_digit(#[trigger] s[i])
}

/// `[0-9A-Za-z]{1,12}`
pub open spec fn username_text(s: Seq<char>) -> bool {
    1 <= s.len() <= 12 && forall|i: int| 0 <= i < s.len() ==> is_alnum(#[trigger] s[i])
}

/// `[1-9][0-9]{0,8}`
pub open spec fn user_id_text(s: Seq<char>) -> bool {
    1 <= s.len() <= 9 && is_nonzero_digit(s[0]) && all_digits(s)
}

/// `[0-9a-z]{26}`
pub open spec fn session_key_text(s: Seq<char>) -> bool {
    s.len() == 26 && forall|i: int| 0 <= i < s.len() ==> is_lower_alnum(#[trigger] s[i])
}

/// `0|[1-9][0-9]{0,3}`
pub open spec fn item_id_text(s: Seq<char>) -> bool {
    s == seq!['0'] || (1 <= s.len() <= 4 && is_nonzero_digit(s[0]) && all_digits(s))
}

/// `[0-9]{1,2}`
pub open spec fn forum_theme_id_text(s: Seq<char>) -> bool {
    1 <= s.len() <= 2 && all_digits(s)
}

/// `[0-9]{1,9}`
pub open spec fn numeric_id_text(s: Seq<char>) -> bool {
    1 <= s.len() <= 9 && all_digits(s)
}

pub open spec fn is_known_pattern(p: Seq<char>) -> bool {
    ||| p == USERNAME_PATTERN@
    ||| p == USER_ID_PATTERN@
    ||| p == SESSION_KEY_PATTERN@
    ||| p == ITEM_ID_PATTERN@
    ||| p == FORUM_THEME_ID_PATTERN@
    ||| p == NUMERIC_ID_PATTERN@
}

/// Relies on `regex::Regex::new` and `regex::Regex::is_match`: each of the
/// identifier patterns above compiles, and, anchored by `^` at the start and by
/// `$` at the end of the haystack, matches exactly the texts that its
/// predicate describes.
#[verifier::external_body]
fn regex_is_match(pattern: &str, text: &str) -> (r: bool)
    requires
        is_known_pattern(pattern@),
    ensures
        pattern@ == USERNAME_PATTERN@ ==> r == username_text(text@),
        pattern@ == USER_ID_PATTERN@ ==> r == user_id_text(text@),
        pattern@ == SESSION_KEY_PATTERN@ ==> r == session_key_text(text@),
        pattern@ == ITEM_ID_PATTERN@ ==> r == item_id_text(text@),
        pattern@ == FORUM_THEME_ID_PATTERN@ ==> r == forum_theme_id_text(text@),
        pattern@ == NUMERIC_ID_PATTERN@ ==> r == numeric_id_text(text@),
{
    match regex::Regex::new(pattern) {
        Ok(re) => re.is_match(text),
        Err(_) => false,
    }
}

pub fn matches_username(text: &str) -> (r: bool)
    ensures
        r == username_text(text@),
{
    regex_is_match(USERNAME_PATTERN, text)
}

pub fn matches_user_id(text: &str) -> (r: bool)
    ensures
        r == user_id_text(text@),
{
    regex_is_match(USER_ID_PATTERN, text)
}

pub fn matches_session_key(text: &str) -> (r: bool)
    ensures
        r == session_key_text(text@),
{
    regex_is_match(SESSION_KEY_PATTERN, text)
}

pub fn matches_item_id(text: &str) -> (r: bool)
    ensures
        r == item_id_text(text@),
{
    regex_is_match(ITEM_ID_PATTERN, text)
}

pub fn matches_forum_theme_id(text: &str) -> (r: bool)
    ensures
        r == forum_theme_id_text(text@),
{
    regex_is_match(FORUM_THEME_ID_PATTERN, text)
}

pub fn matches_numeric_id(text: &str) -> (r: bool)
    ensures
        r == numeric_id_text(text@),
{
    regex_is_match(NUMERIC_ID_PATTERN, text)
}

} // verus!
