use vstd::prelude::*;
use crate::document::{attr, attr_spec, selects, HtmlDocument, HtmlElement, Selector};
use crate::errors::ScraperError;
use crate::ids::{HammerfestForumPostId, HammerfestForumThemeId, HammerfestForumThreadId};
use crate::model::{
    HammerfestForumPost, HammerfestForumPostAuthor, HammerfestForumPostListing, HammerfestForumRole,
    HammerfestForumThreadPage, HammerfestForumDate, HammerfestForumTheme, HammerfestForumThemePage, HammerfestForumThread,
    HammerfestForumThreadListing, ShortHammerfestForumTheme, ShortHammerfestForumThread,
    ShortHammerfestUser,
};
use crate::pattern::{forum_theme_id_text, is_digit, numeric_id_text};
use crate::scrape::{
    absent, lemma_number_at_unique, lemma_unique_excludes, lemma_unique_is_unique, number_readable, repeated,
    is_user_link, lists_all, names_user, number_at, player_link, read_flag,
    read_u32, read_user_link, unique_at,
};
use crate::server::HammerfestServer;
use crate::text::{digit_value, strip_prefix};

verus! {

pub const THEME_PATH: &'static str = "/forum.html/theme/";

pub const THREAD_PATH: &'static str = "/forum.html/thread/";

/// What follows `prefix` in `href`, when `href` begins with it.
pub open spec fn href_suffix(href: Seq<char>, prefix: Seq<char>) -> Option<Seq<char>> {
    if prefix.len() <= href.len() && href.subrange(0, prefix.len() as int) == prefix {
        Some(href.subrange(prefix.len() as int, href.len() as int))
    } else {
        None
    }
}

pub open spec fn two_digits(s: Seq<char>, i: int) -> int {
    10 * digit_value(s[i]) + digit_value(s[i + 1])
}

/// A forum date is written `W DD/MM HH:MM`: the weekday (1 to 7), the day of
/// the month, the month, the hour and the minute.
pub open spec fn forum_date_spec(s: Seq<char>) -> Option<HammerfestForumDate> {
    if s.len() == 13 && is_digit(s[0]) && s[1] == ' ' && is_digit(s[2]) && is_digit(s[3]) && s[4]
        == '/' && is_digit(s[5]) && is_digit(s[6]) && s[7] == ' ' && is_digit(s[8]) && is_digit(s[9])
        && s[10] == ':' && is_digit(s[11]) && is_digit(s[12]) {
        let d = HammerfestForumDate {
            month: two_digits(s, 5) as u8,
            day: two_digits(s, 2) as u8,
            weekday: digit_value(s[0]) as u8,
            hour: two_digits(s, 8) as u8,
            minute: two_digits(s, 11) as u8,
        };
        if 1 <= two_digits(s, 5) <= 12 && 1 <= two_digits(s, 2) <= 31 && 1 <= digit_value(s[0]) <= 7
            && two_digits(s, 8) <= 23 && two_digits(s, 11) <= 59 {
            Some(d)
        } else {
            None
        }
    } else {
        None
    }
}

fn digit_at(s: &str, i: usize) -> (r: Option<u8>)
    requires
        i < s@.len(),
    ensures
        r is Some <==> is_digit(s@[i as int]),
        r matches Some(d) ==> d as int == digit_value(s@[i as int]),
{
    let c = s.get_char(i);
    if '0' <= c && c <= '9' {
        Some((c as u32 - '0' as u32) as u8)
    } else {
        None
    }
}

pub fn parse_forum_date(s: &str) -> (r: Option<HammerfestForumDate>)
    ensures
        r == forum_date_spec(s@),
        r matches Some(d) ==> d.wf(),
{
    if s.unicode_len() != 13 {
        return None;
    }
    if s.get_char(1) != ' ' || s.get_char(4) != '/' || s.get_char(7) != ' ' || s.get_char(10) != ':' {
        return None;
    }
    let w = match digit_at(s, 0) { Some(d) => d, None => { return None; } };
    let d1 = match digit_at(s, 2) { Some(d) => d, None => { return None; } };
    let d2 = match digit_at(s, 3) { Some(d) => d, None => { return None; } };
    let m1 = match digit_at(s, 5) { Some(d) => d, None => { return None; } };
    let m2 = match digit_at(s, 6) { Some(d) => d, None => { return None; } };
    let h1 = match digit_at(s, 8) { Some(d) => d, None => { return None; } };
    let h2 = match digit_at(s, 9) { Some(d) => d, None => { return None; } };
    let n1 = match digit_at(s, 11) { Some(d) => d, None => { return None; } };
    let n2 = match digit_at(s, 12) { Some(d) => d, None => { return None; } };
    let day = d1 * 10 + d2;
    let month = m1 * 10 + m2;
    let hour = h1 * 10 + h2;
    let minute = n1 * 10 + n2;
    if 1 <= month && month <= 12 && 1 <= day && day <= 31 && 1 <= w && w <= 7 && hour <= 23 && minute
        <= 59 {
        Some(HammerfestForumDate { month, day, weekday: w, hour, minute })
    } else {
        None
    }
}

/// A link to a forum theme whose `href` ends with a valid theme id.
pub open spec fn theme_link_ok(e: HtmlElement) -> bool {
    attr_spec(e.attrs@, "href"@) matches Some(h) && href_suffix(h, THEME_PATH@) matches Some(id)
        && forum_theme_id_text(id)
}

/// A link to a forum thread whose `href` ends with a valid thread id.
pub open spec fn thread_link_ok(e: HtmlElement) -> bool {
    attr_spec(e.attrs@, "href"@) matches Some(h) && href_suffix(h, THREAD_PATH@) matches Some(id)
        && numeric_id_text(id)
}

/// A link to a forum theme names `t`.
pub open spec fn names_theme(e: HtmlElement, server: HammerfestServer, t: ShortHammerfestForumTheme) -> bool {
    &&& t.server == server
    &&& attr_spec(e.attrs@, "href"@) matches Some(h) && href_suffix(h, THEME_PATH@) == Some(t.id@)
    &&& t.name@ == e.text@
}

/// A link to a forum thread names `t`.
pub open spec fn names_thread(e: HtmlElement, server: HammerfestServer, t: ShortHammerfestForumThread) -> bool {
    &&& t.server == server
    &&& attr_spec(e.attrs@, "href"@) matches Some(h) && href_suffix(h, THREAD_PATH@) == Some(t.id@)
    &&& t.name@ == e.text@
}

fn read_href<'a>(e: &'a HtmlElement, prefix: &str) -> (r: Result<&'a str, ScraperError>)
    ensures
        r matches Ok(v) ==> attr_spec(e.attrs@, "href"@) matches Some(h) && href_suffix(h, prefix@) == Some(v@),
        r is Ok <==> (attr_spec(e.attrs@, "href"@) matches Some(h) && href_suffix(h, prefix@) is Some),
        r matches Err(err) ==> err is MissingAttribute || err is InvalidLink,
{
    let href = match attr(e, "href") {
        Some(h) => h,
        None => {
            return Err(ScraperError::MissingAttribute(String::from_str("href")));
        },
    };
    match strip_prefix(href, prefix) {
        Some(rest) => Ok(rest),
        None => Err(ScraperError::InvalidLink(String::from_str(href))),
    }
}

pub fn read_theme_link(doc: &HtmlDocument, i: usize, server: HammerfestServer) -> (r: Result<
    ShortHammerfestForumTheme,
    ScraperError,
>)
    requires
        i < doc.elements@.len(),
    ensures
        r matches Ok(t) ==> names_theme(doc.elements@[i as int], server, t) && forum_theme_id_text(t.id@),
        r is Ok <==> theme_link_ok(doc.elements@[i as int]),
        r matches Err(err) ==> err is MissingAttribute || err is InvalidLink,
{
    let e = &doc.elements[i];
    let raw = match read_href(e, THEME_PATH) {
        Ok(v) => v,
        Err(err) => {
            return Err(err);
        },
    };
    match HammerfestForumThemeId::try_from_string(String::from_str(raw)) {
        Ok(id) => Ok(ShortHammerfestForumTheme { server, id, name: e.text.clone() }),
        Err(_) => Err(ScraperError::InvalidLink(String::from_str(raw))),
    }
}

pub fn read_thread_link(doc: &HtmlDocument, i: usize, server: HammerfestServer) -> (r: Result<
    ShortHammerfestForumThread,
    ScraperError,
>)
    requires
        i < doc.elements@.len(),
    ensures
        r matches Ok(t) ==> names_thread(doc.elements@[i as int], server, t) && numeric_id_text(t.id@),
        r is Ok <==> thread_link_ok(doc.elements@[i as int]),
        r matches Err(err) ==> err is MissingAttribute || err is InvalidLink,
{
    let e = &doc.elements[i];
    let raw = match read_href(e, THREAD_PATH) {
        Ok(v) => v,
        Err(err) => {
            return Err(err);
        },
    };
    match HammerfestForumThreadId::try_from_string(String::from_str(raw)) {
        Ok(id) => Ok(ShortHammerfestForumThread { server, id, name: e.text.clone() }),
        Err(_) => Err(ScraperError::InvalidLink(String::from_str(raw))),
    }
}

pub open spec fn themes_table() -> (Seq<char>, Seq<char>) {
    ("table"@, "themes"@)
}

pub open spec fn theme_row() -> (Seq<char>, Seq<char>) {
    ("tr"@, "theme"@)
}

pub open spec fn theme_link() -> (Seq<char>, Seq<char>) {
    ("a"@, "theme"@)
}

pub open spec fn theme_description() -> (Seq<char>, Seq<char>) {
    ("td"@, "description"@)
}

/// Row `row` of the forum home shows theme `t`.
pub open spec fn shows_theme(doc: HtmlDocument, row: usize, server: HammerfestServer, t: HammerfestForumTheme) -> bool {
    &&& exists|i: int| #[trigger] unique_at(doc, Some(row), theme_link(), i) && names_theme(doc.elements@[i], server, t.short)
    &&& exists|i: int| #[trigger] unique_at(doc, Some(row), theme_description(), i) && doc.elements@[i].text@ == t.description@
}

/// Row `row` of the forum home holds one valid theme link and one description.
pub open spec fn theme_row_readable(doc: HtmlDocument, row: usize) -> bool {
    &&& exists|i: int| #[trigger] unique_at(doc, Some(row), theme_link(), i) && theme_link_ok(doc.elements@[i])
    &&& exists|i: int| #[trigger] unique_at(doc, Some(row), theme_description(), i)
}

fn read_theme_row(doc: &HtmlDocument, row: usize, server: HammerfestServer) -> (r: Result<
    HammerfestForumTheme,
    ScraperError,
>)
    requires
        doc.wf(),
    ensures
        r matches Ok(t) ==> shows_theme(*doc, row, server, t),
        theme_row_readable(*doc, row) ==> r is Ok,
{
    let i = match doc.select_unique(Some(row), &Selector::new("a", "theme")) {
        Ok(i) => i,
        Err(e) => {
            proof {
                lemma_unique_excludes(*doc, Some(row), theme_link());
            }
            return Err(e);
        },
    };
    proof {
        lemma_unique_is_unique(*doc, Some(row), theme_link(), i as int);
    }
    let short = match read_theme_link(doc, i, server) {
        Ok(t) => t,
        Err(e) => {
            return Err(e);
        },
    };
    let d = match doc.select_unique(Some(row), &Selector::new("td", "description")) {
        Ok(d) => d,
        Err(e) => {
            proof {
                lemma_unique_excludes(*doc, Some(row), theme_description());
            }
            return Err(e);
        },
    };
    let t = HammerfestForumTheme { short, description: doc.elements[d].text.clone() };
    assert(unique_at(*doc, Some(row), theme_link(), i as int));
    assert(unique_at(*doc, Some(row), theme_description(), d as int));
    Ok(t)
}

/// Reads the list of forum themes, in page order.
pub fn scrape_forum_home(server: HammerfestServer, doc: &HtmlDocument) -> (r: Result<
    Vec<HammerfestForumTheme>,
    ScraperError,
>)
    requires
        doc.wf(),
    ensures
        (exists|t: usize|
            #[trigger] unique_at(*doc, None, themes_table(), t as int) && forall|row: usize|
                #[trigger] selects(*doc, Some(t), theme_row(), row as int) ==> theme_row_readable(*doc, row))
            ==> r is Ok,
        r matches Err(ScraperError::HtmlFragmentNotFound(_)) <== absent(*doc, None, themes_table()),
        r matches Err(ScraperError::TooManyHtmlFragments(_)) <== repeated(*doc, None, themes_table()),
        r matches Ok(v) ==> exists|t: usize, rows: Seq<usize>|
            #![trigger lists_all(*doc, Some(t), theme_row(), rows)]
            unique_at(*doc, None, themes_table(), t as int) && lists_all(*doc, Some(t), theme_row(), rows)
                && rows.len() == v@.len() && forall|k: int|
                0 <= k < rows.len() ==> shows_theme(*doc, rows[k], server, #[trigger] v@[k]),
{
    let t = match doc.select_unique(None, &Selector::new("table", "themes")) {
        Ok(t) => t,
        Err(e) => {
            proof {
                lemma_unique_excludes(*doc, None, themes_table());
            }
            return Err(e);
        },
    };
    proof {
        lemma_unique_is_unique(*doc, None, themes_table(), t as int);
    }
    let ghost all_readable = forall|row: usize|
        #[trigger] selects(*doc, Some(t), theme_row(), row as int) ==> theme_row_readable(*doc, row);
    let rows = doc.select_all(Some(t), &Selector::new("tr", "theme"));
    let mut out: Vec<HammerfestForumTheme> = Vec::new();
    let mut k: usize = 0;
    while k < rows.len()
        invariant
            doc.wf(),
            k <= rows@.len(),
            out@.len() == k,
            lists_all(*doc, Some(t), theme_row(), rows@),
            unique_at(*doc, None, themes_table(), t as int),
            all_readable == forall|row: usize|
                #[trigger] selects(*doc, Some(t), theme_row(), row as int) ==> theme_row_readable(*doc, row),
            (exists|t2: usize|
                #[trigger] unique_at(*doc, None, themes_table(), t2 as int) && forall|row: usize|
                    #[trigger] selects(*doc, Some(t2), theme_row(), row as int) ==> theme_row_readable(*doc, row))
                ==> all_readable,
            forall|m: int| 0 <= m < k ==> shows_theme(*doc, rows@[m], server, #[trigger] out@[m]),
        decreases rows@.len() - k,
    {
        assert(selects(*doc, Some(t), theme_row(), rows@[k as int] as int));
        match read_theme_row(doc, rows[k], server) {
            Ok(theme) => {
                out.push(theme);
            },
            Err(e) => {
                return Err(e);
            },
        }
        k = k + 1;
    }
    Ok(out)
}

pub open spec fn current_theme() -> (Seq<char>, Seq<char>) {
    ("a"@, "currentTheme"@)
}

pub open spec fn current_page() -> (Seq<char>, Seq<char>) {
    ("span"@, "currentPage"@)
}

pub open spec fn page_count() -> (Seq<char>, Seq<char>) {
    ("span"@, "pageCount"@)
}

pub open spec fn threads_table() -> (Seq<char>, Seq<char>) {
    ("table"@, "threads"@)
}

pub open spec fn sticky_thread_row() -> (Seq<char>, Seq<char>) {
    ("tr"@, "stickyThread"@)
}

pub open spec fn thread_row() -> (Seq<char>, Seq<char>) {
    ("tr"@, "thread"@)
}

pub open spec fn thread_link() -> (Seq<char>, Seq<char>) {
    ("a"@, "thread"@)
}

pub open spec fn thread_replies() -> (Seq<char>, Seq<char>) {
    ("td"@, "replies"@)
}

pub open spec fn thread_last_message() -> (Seq<char>, Seq<char>) {
    ("td"@, "lastMessage"@)
}

pub open spec fn thread_closed() -> (Seq<char>, Seq<char>) {
    ("img"@, "closed"@)
}

/// The page shows page `page1` of `pages`, both read from their unique
/// anchors, with `1 <= page1 <= pages`.
pub open spec fn shows_pagination(doc: HtmlDocument, page1: u32, pages: u32) -> bool {
    &&& number_at(doc, None, current_page(), page1 as int)
    &&& number_at(doc, None, page_count(), pages as int)
    &&& 1 <= page1 <= pages
}

/// Both page numbers can be read and `1 <= current <= count`.
pub open spec fn pagination_readable(doc: HtmlDocument) -> bool {
    exists|a: u32, b: u32|
        #[trigger] number_at(doc, None, current_page(), a as int) && #[trigger] number_at(doc, None, page_count(), b as int)
            && 1 <= a <= b
}

/// Reads the pagination envelope: the current page and the page count.
pub fn read_pagination(doc: &HtmlDocument) -> (r: Result<(u32, u32), ScraperError>)
    requires
        doc.wf(),
    ensures
        pagination_readable(*doc) ==> r is Ok,
        r is Ok ==> !absent(*doc, None, current_page()) && !repeated(*doc, None, current_page()),
        r matches Err(ScraperError::HtmlFragmentNotFound(_)) <== absent(*doc, None, current_page()),
        r matches Err(ScraperError::TooManyHtmlFragments(_)) <== repeated(*doc, None, current_page()),
        r matches Ok((page1, pages)) ==> shows_pagination(*doc, page1, pages),
        r matches Err(ScraperError::InvalidPagination) ==> exists|a: u32, b: u32|
            number_at(*doc, None, current_page(), a as int) && number_at(*doc, None, page_count(), b as int)
                && !(1 <= a <= b),
{
    let ghost readable = pagination_readable(*doc);
    let page1 = match read_u32(doc, None, &Selector::new("span", "currentPage")) {
        Ok(v) => v,
        Err(e) => {
            proof {
                if readable {
                    let (a, b) = choose|a: u32, b: u32|
                        #[trigger] number_at(*doc, None, current_page(), a as int) && #[trigger] number_at(*doc, None, page_count(), b as int)
                            && 1 <= a <= b;
                    assert(number_readable(*doc, None, current_page()));
                }
            }
            return Err(e);
        },
    };
    let pages = match read_u32(doc, None, &Selector::new("span", "pageCount")) {
        Ok(v) => v,
        Err(e) => {
            proof {
                if readable {
                    let (a, b) = choose|a: u32, b: u32|
                        #[trigger] number_at(*doc, None, current_page(), a as int) && #[trigger] number_at(*doc, None, page_count(), b as int)
                            && 1 <= a <= b;
                    assert(number_readable(*doc, None, page_count()));
                }
            }
            return Err(e);
        },
    };
    assert(number_at(*doc, None, current_page(), page1 as int));
    assert(number_at(*doc, None, page_count(), pages as int));
    if 1 <= page1 && page1 <= pages {
        Ok((page1, pages))
    } else {
        proof {
            if readable {
                let (a, b) = choose|a: u32, b: u32|
                    #[trigger] number_at(*doc, None, current_page(), a as int) && #[trigger] number_at(*doc, None, page_count(), b as int)
                        && 1 <= a <= b;
                lemma_number_at_unique(*doc, None, current_page(), a as int, page1 as int);
                lemma_number_at_unique(*doc, None, page_count(), b as int, pages as int);
            }
        }
        Err(ScraperError::InvalidPagination)
    }
}

/// Row `row` shows thread `t`.
pub open spec fn shows_thread(doc: HtmlDocument, row: usize, server: HammerfestServer, sticky: bool, t: HammerfestForumThread) -> bool {
    &&& exists|i: int| #[trigger] unique_at(doc, Some(row), thread_link(), i) && names_thread(doc.elements@[i], server, t.short)
    &&& exists|i: int| #[trigger] unique_at(doc, Some(row), player_link(), i) && names_user(doc.elements@[i], server, t.author)
    &&& number_at(doc, Some(row), thread_replies(), t.reply_count as int)
    &&& exists|i: int| #[trigger] unique_at(doc, Some(row), thread_last_message(), i) && forum_date_spec(doc.elements@[i].text@) == Some(t.last_message_date)
    &&& (t.is_closed <==> !absent(doc, Some(row), thread_closed()))
    &&& t.is_sticky == sticky
}

/// Row `row` of a thread list can be read: one valid thread link, one valid
/// author link, one reply count, one valid date, at most one closed marker.
pub open spec fn thread_row_readable(doc: HtmlDocument, row: usize) -> bool {
    &&& exists|i: int| #[trigger] unique_at(doc, Some(row), thread_link(), i) && thread_link_ok(doc.elements@[i])
    &&& exists|i: int| #[trigger] unique_at(doc, Some(row), player_link(), i) && is_user_link(doc.elements@[i])
    &&& number_readable(doc, Some(row), thread_replies())
    &&& exists|i: int| #[trigger] unique_at(doc, Some(row), thread_last_message(), i) && forum_date_spec(doc.elements@[i].text@) is Some
    &&& !repeated(doc, Some(row), thread_closed())
}

/// Reads one row of a thread list. Each of its anchors follows the strict
/// rule: the thread link and the author link, absent or repeated, give the
/// matching error.
pub fn read_thread_row(doc: &HtmlDocument, row: usize, server: HammerfestServer, sticky: bool) -> (r: Result<
    HammerfestForumThread,
    ScraperError,
>)
    requires
        doc.wf(),
    ensures
        r matches Ok(t) ==> shows_thread(*doc, row, server, sticky, t),
        thread_row_readable(*doc, row) ==> r is Ok,
        absent(*doc, Some(row), thread_link()) ==> r matches Err(ScraperError::HtmlFragmentNotFound(_)),
        repeated(*doc, Some(row), thread_link()) ==> r matches Err(ScraperError::TooManyHtmlFragments(_)),
        (exists|i: int| #[trigger] unique_at(*doc, Some(row), thread_link(), i) && thread_link_ok(doc.elements@[i]))
            && absent(*doc, Some(row), player_link()) ==> r matches Err(ScraperError::HtmlFragmentNotFound(_)),
        (exists|i: int| #[trigger] unique_at(*doc, Some(row), thread_link(), i) && thread_link_ok(doc.elements@[i]))
            && repeated(*doc, Some(row), player_link()) ==> r matches Err(ScraperError::TooManyHtmlFragments(_)),
{
    let i = match doc.select_unique(Some(row), &Selector::new("a", "thread")) {
        Ok(i) => i,
        Err(e) => {
            proof {
                lemma_unique_excludes(*doc, Some(row), thread_link());
            }
            return Err(e);
        },
    };
    proof {
        lemma_unique_is_unique(*doc, Some(row), thread_link(), i as int);
    }
    let short = match read_thread_link(doc, i, server) {
        Ok(t) => t,
        Err(e) => {
            return Err(e);
        },
    };
    let a = match doc.select_unique(Some(row), &Selector::new("a", "player")) {
        Ok(a) => a,
        Err(e) => {
            proof {
                lemma_unique_excludes(*doc, Some(row), player_link());
            }
            return Err(e);
        },
    };
    proof {
        lemma_unique_is_unique(*doc, Some(row), player_link(), a as int);
    }
    let author = match read_user_link(doc, a, server) {
        Ok(u) => u,
        Err(e) => {
            return Err(e);
        },
    };
    let reply_count = match read_u32(doc, Some(row), &Selector::new("td", "replies")) {
        Ok(v) => v,
        Err(e) => {
            return Err(e);
        },
    };
    let m = match doc.select_unique(Some(row), &Selector::new("td", "lastMessage")) {
        Ok(m) => m,
        Err(e) => {
            proof {
                lemma_unique_excludes(*doc, Some(row), thread_last_message());
            }
            return Err(e);
        },
    };
    proof {
        lemma_unique_is_unique(*doc, Some(row), thread_last_message(), m as int);
    }
    let last_message_date = match parse_forum_date(doc.elements[m].text.as_str()) {
        Some(d) => d,
        None => {
            return Err(ScraperError::InvalidDate(doc.elements[m].text.clone()));
        },
    };
    let is_closed = match read_flag(doc, Some(row), &Selector::new("img", "closed")) {
        Ok(b) => b,
        Err(e) => {
            return Err(e);
        },
    };
    assert(unique_at(*doc, Some(row), thread_link(), i as int));
    assert(unique_at(*doc, Some(row), player_link(), a as int));
    assert(unique_at(*doc, Some(row), thread_last_message(), m as int));
    Ok(HammerfestForumThread { short, author, last_message_date, reply_count, is_sticky: sticky, is_closed })
}

/// Reads the rows that `sel` selects in the threads table at `t`, in page order.
fn read_thread_rows(doc: &HtmlDocument, t: usize, sel: &Selector, server: HammerfestServer, sticky: bool) -> (r: Result<
    Vec<HammerfestForumThread>,
    ScraperError,
>)
    requires
        doc.wf(),
    ensures
        r matches Ok(v) ==> exists|rows: Seq<usize>|
            #[trigger] lists_all(*doc, Some(t), sel@, rows) && rows.len() == v@.len() && forall|k: int|
                0 <= k < rows.len() ==> shows_thread(*doc, rows[k], server, sticky, #[trigger] v@[k]),
        (forall|row: usize| #[trigger] selects(*doc, Some(t), sel@, row as int) ==> thread_row_readable(*doc, row))
            ==> r is Ok,
{
    let ghost all_readable = forall|row: usize|
        #[trigger] selects(*doc, Some(t), sel@, row as int) ==> thread_row_readable(*doc, row);
    let rows = doc.select_all(Some(t), sel);
    let mut out: Vec<HammerfestForumThread> = Vec::new();
    let mut k: usize = 0;
    while k < rows.len()
        invariant
            doc.wf(),
            k <= rows@.len(),
            out@.len() == k,
            lists_all(*doc, Some(t), sel@, rows@),
            all_readable == forall|row: usize|
                #[trigger] selects(*doc, Some(t), sel@, row as int) ==> thread_row_readable(*doc, row),
            forall|m: int| 0 <= m < k ==> shows_thread(*doc, rows@[m], server, sticky, #[trigger] out@[m]),
        decreases rows@.len() - k,
    {
        assert(selects(*doc, Some(t), sel@, rows@[k as int] as int));
        match read_thread_row(doc, rows[k], server, sticky) {
            Ok(th) => {
                out.push(th);
            },
            Err(e) => {
                return Err(e);
            },
        }
        k = k + 1;
    }
    Ok(out)
}

/// A theme page can be read: one valid current theme link, readable
/// pagination, one threads table whose sticky and other rows are readable.
pub open spec fn theme_page_readable(doc: HtmlDocument) -> bool {
    &&& exists|i: int| #[trigger] unique_at(doc, None, current_theme(), i) && theme_link_ok(doc.elements@[i])
    &&& pagination_readable(doc)
    &&& exists|t: usize|
        #[trigger] unique_at(doc, None, threads_table(), t as int) && (forall|row: usize|
            #[trigger] selects(doc, Some(t), sticky_thread_row(), row as int) ==> thread_row_readable(doc, row))
            && (forall|row: usize|
            #[trigger] selects(doc, Some(t), thread_row(), row as int) ==> thread_row_readable(doc, row))
}

/// Reads one page of a forum theme: the theme, its sticky threads, and the
/// page's threads with the pagination envelope.
pub fn scrape_forum_theme(server: HammerfestServer, doc: &HtmlDocument) -> (r: Result<
    HammerfestForumThemePage,
    ScraperError,
>)
    requires
        doc.wf(),
    ensures
        theme_page_readable(*doc) ==> r is Ok,
        r matches Err(ScraperError::HtmlFragmentNotFound(_)) <== absent(*doc, None, current_theme()),
        r matches Err(ScraperError::TooManyHtmlFragments(_)) <== repeated(*doc, None, current_theme()),
        (exists|i: int| #[trigger] unique_at(*doc, None, current_theme(), i) && theme_link_ok(doc.elements@[i]))
            && absent(*doc, None, current_page()) ==> r matches Err(ScraperError::HtmlFragmentNotFound(_)),
        (exists|i: int| #[trigger] unique_at(*doc, None, current_theme(), i) && theme_link_ok(doc.elements@[i]))
            && repeated(*doc, None, current_page()) ==> r matches Err(ScraperError::TooManyHtmlFragments(_)),
        r matches Ok(p) ==> {
            &&& exists|i: int| #[trigger] unique_at(*doc, None, current_theme(), i) && names_theme(doc.elements@[i], server, p.theme)
            &&& shows_pagination(*doc, p.threads.page1, p.threads.pages)
            &&& exists|t: usize| #[trigger] unique_at(*doc, None, threads_table(), t as int) && (exists|rows: Seq<usize>|
                #[trigger] lists_all(*doc, Some(t), sticky_thread_row(), rows) && rows.len() == p.sticky@.len() && forall|k: int|
                    0 <= k < rows.len() ==> shows_thread(*doc, rows[k], server, true, #[trigger] p.sticky@[k])) && (exists|rows: Seq<usize>|
                #[trigger] lists_all(*doc, Some(t), thread_row(), rows) && rows.len() == p.threads.items@.len() && forall|k: int|
                    0 <= k < rows.len() ==> shows_thread(*doc, rows[k], server, false, #[trigger] p.threads.items@[k]))
        },
{
    let c = match doc.select_unique(None, &Selector::new("a", "currentTheme")) {
        Ok(c) => c,
        Err(e) => {
            proof {
                lemma_unique_excludes(*doc, None, current_theme());
            }
            return Err(e);
        },
    };
    proof {
        lemma_unique_is_unique(*doc, None, current_theme(), c as int);
    }
    let theme = match read_theme_link(doc, c, server) {
        Ok(th) => th,
        Err(e) => {
            return Err(e);
        },
    };
    let (page1, pages) = match read_pagination(doc) {
        Ok(p) => p,
        Err(e) => {
            return Err(e);
        },
    };
    let t = match doc.select_unique(None, &Selector::new("table", "threads")) {
        Ok(t) => t,
        Err(e) => {
            proof {
                lemma_unique_excludes(*doc, None, threads_table());
            }
            return Err(e);
        },
    };
    proof {
        lemma_unique_is_unique(*doc, None, threads_table(), t as int);
    }
    let sticky_sel = Selector::new("tr", "stickyThread");
    let thread_sel = Selector::new("tr", "thread");
    assert(sticky_sel@ == sticky_thread_row());
    assert(thread_sel@ == thread_row());
    let sticky = match read_thread_rows(doc, t, &sticky_sel, server, true) {
        Ok(v) => v,
        Err(e) => {
            return Err(e);
        },
    };
    let items = match read_thread_rows(doc, t, &thread_sel, server, false) {
        Ok(v) => v,
        Err(e) => {
            return Err(e);
        },
    };
    assert(unique_at(*doc, None, current_theme(), c as int));
    assert(unique_at(*doc, None, threads_table(), t as int));
    Ok(HammerfestForumThemePage { theme, sticky, threads: HammerfestForumThreadListing { page1, pages, items } })
}

pub open spec fn current_thread() -> (Seq<char>, Seq<char>) {
    ("span"@, "currentThread"@)
}

pub open spec fn posts_table() -> (Seq<char>, Seq<char>) {
    ("div"@, "posts"@)
}

pub open spec fn post_row() -> (Seq<char>, Seq<char>) {
    ("div"@, "post"@)
}

pub open spec fn post_rank() -> (Seq<char>, Seq<char>) {
    ("span"@, "rank"@)
}

pub open spec fn post_carrot() -> (Seq<char>, Seq<char>) {
    ("img"@, "carrot"@)
}

pub open spec fn post_moderator() -> (Seq<char>, Seq<char>) {
    ("span"@, "moderator"@)
}

pub open spec fn post_administrator() -> (Seq<char>, Seq<char>) {
    ("span"@, "administrator"@)
}

pub open spec fn post_date() -> (Seq<char>, Seq<char>) {
    ("span"@, "date"@)
}

pub open spec fn post_content() -> (Seq<char>, Seq<char>) {
    ("div"@, "content"@)
}

/// The role that the markers of a post row give its author.
pub open spec fn role_spec(moderator: bool, administrator: bool) -> HammerfestForumRole {
    if administrator {
        HammerfestForumRole::Administrator
    } else if moderator {
        HammerfestForumRole::Moderator
    } else {
        HammerfestForumRole::Player
    }
}

/// Row `row` shows post `p`: its id is the row's `data-id` attribute, when
/// it has one.
pub open spec fn shows_post(doc: HtmlDocument, row: usize, server: HammerfestServer, p: HammerfestForumPost) -> bool {
    &&& match p.id {
        Some(id) => attr_spec(doc.elements@[row as int].attrs@, "data-id"@) == Some(id@),
        None => attr_spec(doc.elements@[row as int].attrs@, "data-id"@) is None,
    }
    &&& exists|i: int| #[trigger] unique_at(doc, Some(row), player_link(), i) && names_user(doc.elements@[i], server, p.author.user)
    &&& (p.author.has_carrot <==> !absent(doc, Some(row), post_carrot()))
    &&& number_at(doc, Some(row), post_rank(), p.author.rank as int)
    &&& p.author.rank <= 4
    &&& p.author.role == role_spec(!absent(doc, Some(row), post_moderator()), !absent(doc, Some(row), post_administrator()))
    &&& exists|i: int| #[trigger] unique_at(doc, Some(row), post_date(), i) && forum_date_spec(doc.elements@[i].text@) == Some(p.ctime)
    &&& exists|i: int| #[trigger] unique_at(doc, Some(row), post_content(), i) && doc.elements@[i].text@ == p.content@
}

/// Post row `row` can be read: a valid id or none, one valid author link, at
/// most one of each marker and not both role markers, one rank of at most 4,
/// one valid date, one content block.
pub open spec fn post_row_readable(doc: HtmlDocument, row: usize) -> bool {
    &&& match attr_spec(doc.elements@[row as int].attrs@, "data-id"@) {
        Some(v) => numeric_id_text(v),
        None => true,
    }
    &&& exists|i: int| #[trigger] unique_at(doc, Some(row), player_link(), i) && is_user_link(doc.elements@[i])
    &&& !repeated(doc, Some(row), post_carrot())
    &&& exists|v: u32| #[trigger] number_at(doc, Some(row), post_rank(), v as int) && v <= 4
    &&& !repeated(doc, Some(row), post_moderator())
    &&& !repeated(doc, Some(row), post_administrator())
    &&& (absent(doc, Some(row), post_moderator()) || absent(doc, Some(row), post_administrator()))
    &&& exists|i: int| #[trigger] unique_at(doc, Some(row), post_date(), i) && forum_date_spec(doc.elements@[i].text@) is Some
    &&& exists|i: int| #[trigger] unique_at(doc, Some(row), post_content(), i)
}

fn read_post_row(doc: &HtmlDocument, row: usize, server: HammerfestServer) -> (r: Result<
    HammerfestForumPost,
    ScraperError,
>)
    requires
        doc.wf(),
        row < doc.elements@.len(),
    ensures
        r matches Ok(p) ==> shows_post(*doc, row, server, p),
        post_row_readable(*doc, row) ==> r is Ok,
{
    let ghost readable = post_row_readable(*doc, row);
    let id = match attr(&doc.elements[row], "data-id") {
        None => None,
        Some(raw) => match HammerfestForumPostId::try_from_string(String::from_str(raw)) {
            Ok(id) => Some(id),
            Err(_) => {
                return Err(ScraperError::InvalidPostId(String::from_str(raw)));
            },
        },
    };
    let a = match doc.select_unique(Some(row), &Selector::new("a", "player")) {
        Ok(a) => a,
        Err(e) => {
            proof {
                lemma_unique_excludes(*doc, Some(row), player_link());
            }
            return Err(e);
        },
    };
    proof {
        lemma_unique_is_unique(*doc, Some(row), player_link(), a as int);
    }
    let user = match read_user_link(doc, a, server) {
        Ok(u) => u,
        Err(e) => {
            return Err(e);
        },
    };
    let has_carrot = match read_flag(doc, Some(row), &Selector::new("img", "carrot")) {
        Ok(b) => b,
        Err(e) => {
            return Err(e);
        },
    };
    let rank = match read_u32(doc, Some(row), &Selector::new("span", "rank")) {
        Ok(v) => v,
        Err(e) => {
            proof {
                if readable {
                    let v = choose|v: u32| #[trigger] number_at(*doc, Some(row), post_rank(), v as int) && v <= 4;
                    assert(number_readable(*doc, Some(row), post_rank()));
                }
            }
            return Err(e);
        },
    };
    if rank > 4 {
        proof {
            if readable {
                let v = choose|v: u32| #[trigger] number_at(*doc, Some(row), post_rank(), v as int) && v <= 4;
                lemma_number_at_unique(*doc, Some(row), post_rank(), v as int, rank as int);
            }
        }
        return match doc.select_unique(Some(row), &Selector::new("span", "rank")) {
            Ok(i) => Err(ScraperError::InvalidInteger(doc.elements[i].text.clone())),
            Err(e) => Err(e),
        };
    }
    let moderator = match read_flag(doc, Some(row), &Selector::new("span", "moderator")) {
        Ok(b) => b,
        Err(e) => {
            return Err(e);
        },
    };
    let administrator = match read_flag(doc, Some(row), &Selector::new("span", "administrator")) {
        Ok(b) => b,
        Err(e) => {
            return Err(e);
        },
    };
    if moderator && administrator {
        return Err(ScraperError::UnknownUserRole);
    }
    let role = if administrator {
        HammerfestForumRole::Administrator
    } else if moderator {
        HammerfestForumRole::Moderator
    } else {
        HammerfestForumRole::Player
    };
    let d = match doc.select_unique(Some(row), &Selector::new("span", "date")) {
        Ok(d) => d,
        Err(e) => {
            proof {
                lemma_unique_excludes(*doc, Some(row), post_date());
            }
            return Err(e);
        },
    };
    proof {
        lemma_unique_is_unique(*doc, Some(row), post_date(), d as int);
    }
    let ctime = match parse_forum_date(doc.elements[d].text.as_str()) {
        Some(t) => t,
        None => {
            return Err(ScraperError::InvalidDate(doc.elements[d].text.clone()));
        },
    };
    let c = match doc.select_unique(Some(row), &Selector::new("div", "content")) {
        Ok(c) => c,
        Err(e) => {
            proof {
                lemma_unique_excludes(*doc, Some(row), post_content());
            }
            return Err(e);
        },
    };
    proof {
        lemma_unique_is_unique(*doc, Some(row), post_content(), c as int);
    }
    assert(unique_at(*doc, Some(row), player_link(), a as int));
    assert(unique_at(*doc, Some(row), post_date(), d as int));
    assert(unique_at(*doc, Some(row), post_content(), c as int));
    Ok(
        HammerfestForumPost {
            id,
            author: HammerfestForumPostAuthor { user, has_carrot, rank: rank as u8, role },
            ctime,
            content: doc.elements[c].text.clone(),
        },
    )
}

/// A thread page can be read: one valid current theme link, one title,
/// readable pagination, one posts block whose post rows are readable.
pub open spec fn thread_page_readable(doc: HtmlDocument) -> bool {
    &&& exists|i: int| #[trigger] unique_at(doc, None, current_theme(), i) && theme_link_ok(doc.elements@[i])
    &&& exists|i: int| #[trigger] unique_at(doc, None, current_thread(), i)
    &&& pagination_readable(doc)
    &&& exists|t: usize|
        #[trigger] unique_at(doc, None, posts_table(), t as int) && forall|row: usize|
            #[trigger] selects(doc, Some(t), post_row(), row as int) ==> post_row_readable(doc, row)
}

/// Reads one page of forum thread `thread_id`: its theme, its title, and the
/// page's posts with the pagination envelope.
pub fn scrape_forum_thread(server: HammerfestServer, thread_id: &HammerfestForumThreadId, doc: &HtmlDocument) -> (r:
    Result<HammerfestForumThreadPage, ScraperError>)
    requires
        doc.wf(),
    ensures
        thread_page_readable(*doc) ==> r is Ok,
        r matches Err(ScraperError::HtmlFragmentNotFound(_)) <== absent(*doc, None, current_theme()),
        r matches Err(ScraperError::TooManyHtmlFragments(_)) <== repeated(*doc, None, current_theme()),
        r matches Err(ScraperError::HtmlFragmentNotFound(_)) <== (exists|i: int|
            #[trigger] unique_at(*doc, None, current_theme(), i) && theme_link_ok(doc.elements@[i])) && absent(
            *doc,
            None,
            current_thread(),
        ),
        r matches Err(ScraperError::TooManyHtmlFragments(_)) <== (exists|i: int|
            #[trigger] unique_at(*doc, None, current_theme(), i) && theme_link_ok(doc.elements@[i])) && repeated(
            *doc,
            None,
            current_thread(),
        ),
        (exists|i: int| #[trigger] unique_at(*doc, None, current_theme(), i) && theme_link_ok(doc.elements@[i]))
            && (exists|i: int| #[trigger] unique_at(*doc, None, current_thread(), i)) && absent(*doc, None, current_page())
            ==> r matches Err(ScraperError::HtmlFragmentNotFound(_)),
        (exists|i: int| #[trigger] unique_at(*doc, None, current_theme(), i) && theme_link_ok(doc.elements@[i]))
            && (exists|i: int| #[trigger] unique_at(*doc, None, current_thread(), i)) && repeated(*doc, None, current_page())
            ==> r matches Err(ScraperError::TooManyHtmlFragments(_)),
        r matches Ok(p) ==> {
            &&& exists|i: int| #[trigger] unique_at(*doc, None, current_theme(), i) && names_theme(doc.elements@[i], server, p.theme)
            &&& p.thread.server == server && p.thread.id == *thread_id
            &&& exists|i: int| #[trigger] unique_at(*doc, None, current_thread(), i) && doc.elements@[i].text@ == p.thread.name@
            &&& shows_pagination(*doc, p.messages.page1, p.messages.pages)
            &&& exists|t: usize, rows: Seq<usize>|
                #![trigger lists_all(*doc, Some(t), post_row(), rows)]
                unique_at(*doc, None, posts_table(), t as int) && lists_all(*doc, Some(t), post_row(), rows)
                    && rows.len() == p.messages.items@.len() && forall|k: int|
                    0 <= k < rows.len() ==> shows_post(*doc, rows[k], server, #[trigger] p.messages.items@[k])
        },
{
    let c = match doc.select_unique(None, &Selector::new("a", "currentTheme")) {
        Ok(c) => c,
        Err(e) => {
            proof {
                lemma_unique_excludes(*doc, None, current_theme());
            }
            return Err(e);
        },
    };
    proof {
        lemma_unique_is_unique(*doc, None, current_theme(), c as int);
    }
    let theme = match read_theme_link(doc, c, server) {
        Ok(th) => th,
        Err(e) => {
            return Err(e);
        },
    };
    let n = match doc.select_unique(None, &Selector::new("span", "currentThread")) {
        Ok(n) => n,
        Err(e) => {
            proof {
                lemma_unique_excludes(*doc, None, current_thread());
            }
            return Err(e);
        },
    };
    proof {
        lemma_unique_is_unique(*doc, None, current_thread(), n as int);
    }
    let (page1, pages) = match read_pagination(doc) {
        Ok(p) => p,
        Err(e) => {
            return Err(e);
        },
    };
    let t = match doc.select_unique(None, &Selector::new("div", "posts")) {
        Ok(t) => t,
        Err(e) => {
            proof {
                lemma_unique_excludes(*doc, None, posts_table());
            }
            return Err(e);
        },
    };
    proof {
        lemma_unique_is_unique(*doc, None, posts_table(), t as int);
    }
    let ghost all_readable = forall|row: usize|
        #[trigger] selects(*doc, Some(t), post_row(), row as int) ==> post_row_readable(*doc, row);
    proof {
        if thread_page_readable(*doc) {
            let t2 = choose|t2: usize|
                #[trigger] unique_at(*doc, None, posts_table(), t2 as int) && forall|row: usize|
                    #[trigger] selects(*doc, Some(t2), post_row(), row as int) ==> post_row_readable(*doc, row);
            assert(t2 == t);
        }
    }
    let rows = doc.select_all(Some(t), &Selector::new("div", "post"));
    let mut items: Vec<HammerfestForumPost> = Vec::new();
    let mut k: usize = 0;
    while k < rows.len()
        invariant
            doc.wf(),
            k <= rows@.len(),
            items@.len() == k,
            lists_all(*doc, Some(t), post_row(), rows@),
            all_readable == forall|row: usize|
                #[trigger] selects(*doc, Some(t), post_row(), row as int) ==> post_row_readable(*doc, row),
            thread_page_readable(*doc) ==> all_readable,
            !absent(*doc, None, current_theme()) && !repeated(*doc, None, current_theme()),
            !absent(*doc, None, current_thread()) && !repeated(*doc, None, current_thread()),
            !absent(*doc, None, current_page()) && !repeated(*doc, None, current_page()),
            forall|m: int| 0 <= m < k ==> shows_post(*doc, rows@[m], server, #[trigger] items@[m]),
        decreases rows@.len() - k,
    {
        assert(selects(*doc, Some(t), post_row(), rows@[k as int] as int));
        match read_post_row(doc, rows[k], server) {
            Ok(post) => {
                items.push(post);
            },
            Err(e) => {
                return Err(e);
            },
        }
        k = k + 1;
    }
    assert(unique_at(*doc, None, current_theme(), c as int));
    assert(unique_at(*doc, None, current_thread(), n as int));
    assert(unique_at(*doc, None, posts_table(), t as int));
    let thread = ShortHammerfestForumThread { server, id: thread_id.clone(), name: doc.elements[n].text.clone() };
    Ok(
        HammerfestForumThreadPage {
            theme,
            thread,
            messages: HammerfestForumPostListing { page1, pages, items },
        },
    )
}

} // verus!
