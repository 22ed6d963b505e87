use vstd::prelude::*;
use crate::document::{attr, attr_spec, has_class_spec, selects, selector_text, HtmlDocument, HtmlElement, Selector};
use crate::errors::ScraperError;
use crate::ids::{HammerfestItemId, HammerfestUserId, HammerfestUsername};
use crate::model::{HammerfestGodChild, HammerfestProfile, HammerfestShop, ShortHammerfestUser};
use crate::pattern::{item_id_text, user_id_text, username_text};
use crate::server::HammerfestServer;
use crate::text::{decimal_value, is_u32_text, parse_u32, str_eq, strip_prefix};

verus! {

/// Path of a player's profile page; a link to it ends with the player's id.
pub const USER_PATH: &'static str = "/user.html/";

/// Exactly element `i` matches `sel` inside `scope`.
pub open spec fn unique_at(doc: HtmlDocument, scope: Option<usize>, sel: (Seq<char>, Seq<char>), i: int) -> bool {
    &&& selects(doc, scope, sel, i)
    &&& forall|j: int| #![trigger selects(doc, scope, sel, j)] selects(doc, scope, sel, j) ==> j == i
}

pub open spec fn absent(doc: HtmlDocument, scope: Option<usize>, sel: (Seq<char>, Seq<char>)) -> bool {
    forall|j: int| !selects(doc, scope, sel, j)
}

pub open spec fn repeated(doc: HtmlDocument, scope: Option<usize>, sel: (Seq<char>, Seq<char>)) -> bool {
    exists|j: int, k: int| j != k && selects(doc, scope, sel, j) && selects(doc, scope, sel, k)
}

/// The id at the end of a profile link, when `href` is one.
pub open spec fn href_user_id(href: Seq<char>) -> Option<Seq<char>> {
    let p = USER_PATH@;
    if p.len() <= href.len() && href.subrange(0, p.len() as int) == p {
        Some(href.subrange(p.len() as int, href.len() as int))
    } else {
        None
    }
}

/// A link to a player: `href` is the profile path followed by a valid id, and
/// the link text is a valid username.
pub open spec fn is_user_link(e: HtmlElement) -> bool {
    match attr_spec(e.attrs@, "href"@) {
        Some(h) => match href_user_id(h) {
            Some(id) => user_id_text(id) && username_text(e.text@),
            None => false,
        },
        None => false,
    }
}

/// The player that a user link names.
pub open spec fn names_user(e: HtmlElement, server: HammerfestServer, u: ShortHammerfestUser) -> bool {
    &&& u.server == server
    &&& attr_spec(e.attrs@, "href"@) matches Some(h) && href_user_id(h) == Some(u.id@)
    &&& u.username@ == e.text@
}

/// Reads the player named by the link at `i`.
pub fn read_user_link(doc: &HtmlDocument, i: usize, server: HammerfestServer) -> (r: Result<
    ShortHammerfestUser,
    ScraperError,
>)
    requires
        i < doc.elements@.len(),
    ensures
        r is Ok <==> is_user_link(doc.elements@[i as int]),
        r matches Ok(u) ==> names_user(doc.elements@[i as int], server, u),
        r matches Err(ScraperError::MissingAttribute(_)) <==> attr_spec(
            doc.elements@[i as int].attrs@,
            "href"@,
        ) is None,
        r matches Err(ScraperError::InvalidLink(h)) ==> attr_spec(
            doc.elements@[i as int].attrs@,
            "href"@,
        ) == Some(h@) && href_user_id(h@) is None,
        r matches Err(ScraperError::InvalidUserId(s)) ==> !user_id_text(s@),
        r matches Err(ScraperError::InvalidUsername(s)) ==> s@ == doc.elements@[i as int].text@
            && !username_text(s@),
        r is Err ==> (r matches Err(ScraperError::MissingAttribute(_)) || r matches Err(
            ScraperError::InvalidLink(_),
        ) || r matches Err(ScraperError::InvalidUserId(_)) || r matches Err(
            ScraperError::InvalidUsername(_),
        )),
{
    let e = &doc.elements[i];
    let href = match attr(e, "href") {
        Some(h) => h,
        None => {
            return Err(ScraperError::MissingAttribute(String::from_str("href")));
        },
    };
    let raw_id = match strip_prefix(href, USER_PATH) {
        Some(rest) => rest,
        None => {
            return Err(ScraperError::InvalidLink(String::from_str(href)));
        },
    };
    let id = match HammerfestUserId::try_from_string(String::from_str(raw_id)) {
        Ok(id) => id,
        Err(_) => {
            return Err(ScraperError::InvalidUserId(String::from_str(raw_id)));
        },
    };
    let username = match HammerfestUsername::try_from_string(e.text.clone()) {
        Ok(u) => u,
        Err(_) => {
            return Err(ScraperError::InvalidUsername(e.text.clone()));
        },
    };
    Ok(ShortHammerfestUser { server, id, username })
}

/// The one element that `sel` selects inside `scope` writes the number `v`.
pub open spec fn number_at(doc: HtmlDocument, scope: Option<usize>, sel: (Seq<char>, Seq<char>), v: int) -> bool {
    exists|i: int|
        unique_at(doc, scope, sel, i) && is_u32_text(#[trigger] doc.elements@[i].text@)
            && decimal_value(doc.elements@[i].text@) == v
}

/// `sel` selects one element inside `scope`, and it writes a `u32`.
pub open spec fn number_readable(doc: HtmlDocument, scope: Option<usize>, sel: (Seq<char>, Seq<char>)) -> bool {
    exists|i: int| unique_at(doc, scope, sel, i) && is_u32_text(#[trigger] doc.elements@[i].text@)
}

/// The number written by the one element that `sel` selects inside `scope`.
pub fn read_u32(doc: &HtmlDocument, scope: Option<usize>, sel: &Selector) -> (r: Result<
    u32,
    ScraperError,
>)
    requires
        doc.wf(),
    ensures
        r is Ok <==> number_readable(*doc, scope, sel@),
        r matches Ok(v) ==> number_at(*doc, scope, sel@, v as int),
        r matches Err(ScraperError::HtmlFragmentNotFound(_)) <==> absent(*doc, scope, sel@),
        r matches Err(ScraperError::TooManyHtmlFragments(_)) <==> repeated(*doc, scope, sel@),
        r matches Err(ScraperError::HtmlFragmentNotFound(s)) ==> s@ == selector_text(sel@),
        r matches Err(ScraperError::TooManyHtmlFragments(s)) ==> s@ == selector_text(sel@),
        r matches Err(ScraperError::InvalidInteger(s)) ==> exists|i: int|
            unique_at(*doc, scope, sel@, i) && (#[trigger] doc.elements@[i].text@) == s@
                && !is_u32_text(s@),
        r is Err ==> (r matches Err(ScraperError::HtmlFragmentNotFound(_)) || r matches Err(
            ScraperError::TooManyHtmlFragments(_),
        ) || r matches Err(ScraperError::InvalidInteger(_))),
{
    let i = match doc.select_unique(scope, sel) {
        Ok(i) => i,
        Err(e) => {
            return Err(e);
        },
    };
    let text = &doc.elements[i].text;
    proof {
        lemma_unique_is_unique(*doc, scope, sel@, i as int);
    }
    match parse_u32(text.as_str()) {
        Some(v) => Ok(v),
        None => Err(ScraperError::InvalidInteger(text.clone())),
    }
}

/// The page's top bar; every page has exactly one.
pub open spec fn top_bar() -> (Seq<char>, Seq<char>) {
    ("div"@, "topMainBar"@)
}

/// The link to the viewer's own profile, inside the top bar, when logged in.
pub open spec fn viewer_link() -> (Seq<char>, Seq<char>) {
    ("a"@, "userName"@)
}

/// The class of the message that a login page shows after a failed attempt.
pub const LOGIN_ERROR_CLASS: &'static str = "loginError";

/// The top bar is unique and shows no viewer.
pub open spec fn shows_no_viewer(doc: HtmlDocument) -> bool {
    exists|t: usize|
        unique_at(doc, None, top_bar(), t as int) && #[trigger] absent(doc, Some(t), viewer_link())
}

/// The top bar is unique and holds exactly one viewer link, at `i`.
pub open spec fn viewer_link_at(doc: HtmlDocument, i: int) -> bool {
    exists|t: usize|
        unique_at(doc, None, top_bar(), t as int) && #[trigger] unique_at(doc, Some(t), viewer_link(), i)
}

/// The page shows `u` as the logged-in player.
pub open spec fn shows_viewer(doc: HtmlDocument, server: HammerfestServer, u: ShortHammerfestUser) -> bool {
    exists|i: int| #[trigger] viewer_link_at(doc, i) && names_user(doc.elements@[i], server, u)
}

/// The top bar can be read: it is unique, and it shows no viewer or one valid
/// viewer link.
pub open spec fn viewer_readable(doc: HtmlDocument) -> bool {
    ||| shows_no_viewer(doc)
    ||| exists|i: int| #[trigger] viewer_link_at(doc, i) && is_user_link(doc.elements@[i])
}

pub proof fn lemma_unique_is_unique(doc: HtmlDocument, scope: Option<usize>, sel: (Seq<char>, Seq<char>), i: int)
    requires
        unique_at(doc, scope, sel, i),
    ensures
        !repeated(doc, scope, sel),
        !absent(doc, scope, sel),
        forall|j: int| #[trigger] unique_at(doc, scope, sel, j) ==> j == i,
{
    assert(selects(doc, scope, sel, i));
    if repeated(doc, scope, sel) {
        let (j, k) = choose|j: int, k: int|
            j != k && selects(doc, scope, sel, j) && selects(doc, scope, sel, k);
        assert(j == i && k == i);
    }
}

/// The number that a unique anchor writes is one number.
pub proof fn lemma_number_at_unique(doc: HtmlDocument, scope: Option<usize>, sel: (Seq<char>, Seq<char>), a: int, b: int)
    requires
        number_at(doc, scope, sel, a),
        number_at(doc, scope, sel, b),
    ensures
        a == b,
{
    let i = choose|i: int|
        unique_at(doc, scope, sel, i) && is_u32_text(#[trigger] doc.elements@[i].text@)
            && decimal_value(doc.elements@[i].text@) == a;
    let j = choose|j: int|
        unique_at(doc, scope, sel, j) && is_u32_text(#[trigger] doc.elements@[j].text@)
            && decimal_value(doc.elements@[j].text@) == b;
    lemma_unique_is_unique(doc, scope, sel, i);
    assert(selects(doc, scope, sel, j));
}

/// A unique anchor that is absent or repeated somewhere else is impossible.
pub proof fn lemma_unique_excludes(doc: HtmlDocument, scope: Option<usize>, sel: (Seq<char>, Seq<char>))
    ensures
        (exists|i: int| #[trigger] unique_at(doc, scope, sel, i)) ==> !absent(doc, scope, sel) && !repeated(doc, scope, sel),
{
    if exists|i: int| #[trigger] unique_at(doc, scope, sel, i) {
        let i = choose|i: int| #[trigger] unique_at(doc, scope, sel, i);
        lemma_unique_is_unique(doc, scope, sel, i);
    }
}

/// Reads who is logged in from the top bar of any page: `None` when nobody is.
pub fn scrape_user_base(server: HammerfestServer, doc: &HtmlDocument) -> (r: Result<
    Option<ShortHammerfestUser>,
    ScraperError,
>)
    requires
        doc.wf(),
    ensures
        r is Ok <==> viewer_readable(*doc),
        r matches Ok(None) <==> shows_no_viewer(*doc),
        r matches Ok(Some(u)) ==> shows_viewer(*doc, server, u),
        r matches Err(e) ==> e.is_structural() || e.is_validation(),
        r matches Err(ScraperError::HtmlFragmentNotFound(_)) <==> absent(*doc, None, top_bar()),
        r matches Err(ScraperError::TooManyHtmlFragments(_)) <==> (repeated(*doc, None, top_bar())
            || exists|t: usize|
            unique_at(*doc, None, top_bar(), t as int) && #[trigger] repeated(
                *doc,
                Some(t),
                viewer_link(),
            )),
{
    let bar = Selector::new("div", "topMainBar");
    let link = Selector::new("a", "userName");
    let t = match doc.select_unique(None, &bar) {
        Ok(t) => t,
        Err(e) => {
            return Err(e);
        },
    };
    assert(unique_at(*doc, None, top_bar(), t as int));
    proof {
        lemma_unique_is_unique(*doc, None, top_bar(), t as int);
    }
    match doc.select_optional(Some(t), &link) {
        Ok(None) => {
            assert(absent(*doc, Some(t), viewer_link()));
            proof {
                assert forall|t2: usize|
                    unique_at(*doc, None, top_bar(), t2 as int) implies !#[trigger] repeated(
                    *doc,
                    Some(t2),
                    viewer_link(),
                ) by {
                    assert(t2 == t);
                }
            }
            Ok(None)
        },
        Ok(Some(i)) => {
            assert(unique_at(*doc, Some(t), viewer_link(), i as int));
            assert(viewer_link_at(*doc, i as int));
            proof {
                lemma_unique_is_unique(*doc, Some(t), viewer_link(), i as int);
                assert forall|t2: usize|
                    unique_at(*doc, None, top_bar(), t2 as int) implies !#[trigger] repeated(
                    *doc,
                    Some(t2),
                    viewer_link(),
                ) by {
                    assert(t2 == t);
                }
                if shows_no_viewer(*doc) {
                    let t2 = choose|t2: usize|
                        unique_at(*doc, None, top_bar(), t2 as int) && #[trigger] absent(
                            *doc,
                            Some(t2),
                            viewer_link(),
                        );
                    assert(selects(*doc, None, top_bar(), t2 as int));
                    assert(t2 == t);
                    assert(selects(*doc, Some(t), viewer_link(), i as int));
                }
                assert forall|j: int| #[trigger] viewer_link_at(*doc, j) implies j == i by {
                    let t2 = choose|t2: usize|
                        unique_at(*doc, None, top_bar(), t2 as int) && #[trigger] unique_at(
                            *doc,
                            Some(t2),
                            viewer_link(),
                            j,
                        );
                    assert(selects(*doc, None, top_bar(), t2 as int));
                    assert(selects(*doc, Some(t), viewer_link(), j));
                }
            }
            match read_user_link(doc, i, server) {
                Ok(u) => Ok(Some(u)),
                Err(e) => Err(e),
            }
        },
        Err(e) => {
            assert(repeated(*doc, Some(t), viewer_link()));
            proof {
                if shows_no_viewer(*doc) {
                    let t2 = choose|t2: usize|
                        unique_at(*doc, None, top_bar(), t2 as int) && #[trigger] absent(
                            *doc,
                            Some(t2),
                            viewer_link(),
                        );
                    assert(selects(*doc, None, top_bar(), t2 as int));
                }
                assert forall|j: int| #[trigger] viewer_link_at(*doc, j) implies false by {
                    let t2 = choose|t2: usize|
                        unique_at(*doc, None, top_bar(), t2 as int) && #[trigger] unique_at(
                            *doc,
                            Some(t2),
                            viewer_link(),
                            j,
                        );
                    assert(selects(*doc, None, top_bar(), t2 as int));
                }
            }
            Err(e)
        },
    }
}

/// Whether a login page shows the message of a failed attempt.
pub fn is_login_page_error(doc: &HtmlDocument) -> (r: bool)
    ensures
        r == exists|j: int|
            0 <= j < doc.elements@.len() && has_class_spec(
                #[trigger] doc.elements@[j],
                LOGIN_ERROR_CLASS@,
            ),
{
    doc.any_with_class(LOGIN_ERROR_CLASS)
}

/// Like `read_u32`, but an anchor that matches nothing gives `None`.
pub fn read_optional_u32(doc: &HtmlDocument, scope: Option<usize>, sel: &Selector) -> (r: Result<
    Option<u32>,
    ScraperError,
>)
    requires
        doc.wf(),
    ensures
        r is Ok <==> (absent(*doc, scope, sel@) || number_readable(*doc, scope, sel@)),
        r matches Ok(None) <==> absent(*doc, scope, sel@),
        r matches Ok(Some(v)) ==> number_at(*doc, scope, sel@, v as int),
{
    match read_u32(doc, scope, sel) {
        Ok(v) => Ok(Some(v)),
        Err(ScraperError::HtmlFragmentNotFound(_)) => Ok(None),
        Err(e) => Err(e),
    }
}

/// Whether `sel` selects an element inside `scope`; two or more are an error.
pub fn read_flag(doc: &HtmlDocument, scope: Option<usize>, sel: &Selector) -> (r: Result<
    bool,
    ScraperError,
>)
    requires
        doc.wf(),
    ensures
        r is Ok <==> !repeated(*doc, scope, sel@),
        r matches Ok(b) ==> (b <==> !absent(*doc, scope, sel@)),
        r matches Err(e) ==> e is TooManyHtmlFragments,
{
    match doc.select_optional(scope, sel) {
        Ok(Some(i)) => {
            assert(selects(*doc, scope, sel@, i as int));
            Ok(true)
        },
        Ok(None) => Ok(false),
        Err(e) => Err(e),
    }
}

pub open spec fn shop_tokens() -> (Seq<char>, Seq<char>) {
    ("span"@, "tokens"@)
}

pub open spec fn shop_weekly_tokens() -> (Seq<char>, Seq<char>) {
    ("span"@, "weeklyTokens"@)
}

pub open spec fn shop_purchased_tokens() -> (Seq<char>, Seq<char>) {
    ("span"@, "purchasedTokens"@)
}

pub open spec fn shop_quest_bonus() -> (Seq<char>, Seq<char>) {
    ("div"@, "questBonus"@)
}

/// The shop page shows `shop`.
pub open spec fn shows_shop(doc: HtmlDocument, shop: HammerfestShop) -> bool {
    &&& number_at(doc, None, shop_tokens(), shop.tokens as int)
    &&& number_at(doc, None, shop_weekly_tokens(), shop.weekly_tokens as int)
    &&& match shop.purchased_tokens {
        Some(v) => number_at(doc, None, shop_purchased_tokens(), v as int),
        None => absent(doc, None, shop_purchased_tokens()),
    }
    &&& (shop.has_quest_bonus <==> !absent(doc, None, shop_quest_bonus()))
}

pub open spec fn shop_readable(doc: HtmlDocument) -> bool {
    &&& number_readable(doc, None, shop_tokens())
    &&& number_readable(doc, None, shop_weekly_tokens())
    &&& (absent(doc, None, shop_purchased_tokens()) || number_readable(
        doc,
        None,
        shop_purchased_tokens(),
    ))
    &&& !repeated(doc, None, shop_quest_bonus())
}

/// Reads the viewer's shop page: `None` when nobody is logged in.
pub fn scrape_user_shop(server: HammerfestServer, doc: &HtmlDocument) -> (r: Result<
    Option<HammerfestShop>,
    ScraperError,
>)
    requires
        doc.wf(),
    ensures
        r is Ok <==> viewer_readable(*doc) && (shows_no_viewer(*doc) || shop_readable(*doc)),
        r matches Ok(None) <==> shows_no_viewer(*doc),
        r matches Ok(Some(shop)) ==> shows_shop(*doc, shop),
{
    match scrape_user_base(server, doc) {
        Ok(None) => {
            return Ok(None);
        },
        Ok(Some(_)) => {},
        Err(e) => {
            return Err(e);
        },
    }
    let tokens = match read_u32(doc, None, &Selector::new("span", "tokens")) {
        Ok(v) => v,
        Err(e) => {
            return Err(e);
        },
    };
    let weekly_tokens = match read_u32(doc, None, &Selector::new("span", "weeklyTokens")) {
        Ok(v) => v,
        Err(e) => {
            return Err(e);
        },
    };
    let purchased_tokens = match read_optional_u32(
        doc,
        None,
        &Selector::new("span", "purchasedTokens"),
    ) {
        Ok(v) => v,
        Err(e) => {
            return Err(e);
        },
    };
    let has_quest_bonus = match read_flag(doc, None, &Selector::new("div", "questBonus")) {
        Ok(b) => b,
        Err(e) => {
            return Err(e);
        },
    };
    Ok(Some(HammerfestShop { tokens, weekly_tokens, purchased_tokens, has_quest_bonus }))
}

pub open spec fn god_children_table() -> (Seq<char>, Seq<char>) {
    ("table"@, "godChildren"@)
}

pub open spec fn god_child_row() -> (Seq<char>, Seq<char>) {
    ("tr"@, "godChild"@)
}

/// A link to a player inside a list row.
pub open spec fn player_link() -> (Seq<char>, Seq<char>) {
    ("a"@, "player"@)
}

pub open spec fn god_child_tokens() -> (Seq<char>, Seq<char>) {
    ("td"@, "tokens"@)
}

/// `rows` lists, in document order, every element that `sel` selects in `scope`.
pub open spec fn lists_all(doc: HtmlDocument, scope: Option<usize>, sel: (Seq<char>, Seq<char>), rows: Seq<usize>) -> bool {
    &&& forall|k: int| 0 <= k < rows.len() ==> selects(doc, scope, sel, #[trigger] rows[k] as int)
    &&& forall|j: int|
        #![trigger selects(doc, scope, sel, j)]
        selects(doc, scope, sel, j) ==> rows.contains(j as usize)
    &&& forall|a: int, b: int| 0 <= a < b < rows.len() ==> rows[a] < rows[b]
}

/// Row `row` shows god child `c`.
pub open spec fn shows_god_child(doc: HtmlDocument, row: usize, server: HammerfestServer, c: HammerfestGodChild) -> bool {
    &&& exists|i: int|
        #[trigger] unique_at(doc, Some(row), player_link(), i) && names_user(doc.elements@[i], server, c.user)
    &&& number_at(doc, Some(row), god_child_tokens(), c.tokens as int)
}

pub open spec fn god_child_readable(doc: HtmlDocument, row: usize) -> bool {
    &&& exists|i: int| #[trigger] unique_at(doc, Some(row), player_link(), i) && is_user_link(doc.elements@[i])
    &&& number_readable(doc, Some(row), god_child_tokens())
}

fn read_god_child(doc: &HtmlDocument, row: usize, server: HammerfestServer) -> (r: Result<
    HammerfestGodChild,
    ScraperError,
>)
    requires
        doc.wf(),
    ensures
        r is Ok <==> god_child_readable(*doc, row),
        r matches Ok(c) ==> shows_god_child(*doc, row, server, c),
{
    let i = match doc.select_unique(Some(row), &Selector::new("a", "player")) {
        Ok(i) => i,
        Err(e) => {
            return Err(e);
        },
    };
    proof {
        lemma_unique_is_unique(*doc, Some(row), player_link(), i as int);
    }
    let user = match read_user_link(doc, i, server) {
        Ok(u) => u,
        Err(e) => {
            return Err(e);
        },
    };
    assert(unique_at(*doc, Some(row), player_link(), i as int));
    let tokens = match read_u32(doc, Some(row), &Selector::new("td", "tokens")) {
        Ok(v) => v,
        Err(e) => {
            return Err(e);
        },
    };
    Ok(HammerfestGodChild { user, tokens })
}

/// Reads the viewer's god children, in page order: `None` when nobody is
/// logged in.
pub fn scrape_user_god_children(server: HammerfestServer, doc: &HtmlDocument) -> (r: Result<
    Option<Vec<HammerfestGodChild>>,
    ScraperError,
>)
    requires
        doc.wf(),
    ensures
        r matches Ok(None) <==> shows_no_viewer(*doc),
        r matches Ok(Some(v)) ==> exists|t: usize, rows: Seq<usize>|
            #![trigger lists_all(*doc, Some(t), god_child_row(), rows)]
            unique_at(*doc, None, god_children_table(), t as int) && lists_all(
                *doc,
                Some(t),
                god_child_row(),
                rows,
            ) && rows.len() == v@.len() && forall|k: int|
                0 <= k < rows.len() ==> shows_god_child(*doc, rows[k], server, #[trigger] v@[k]),
        (viewer_readable(*doc) && (shows_no_viewer(*doc) || exists|t: usize|
            unique_at(*doc, None, god_children_table(), t as int) && forall|row: usize|
                #[trigger] selects(*doc, Some(t), god_child_row(), row as int) ==> god_child_readable(
                    *doc,
                    row,
                ))) ==> r is Ok,
{
    let base = scrape_user_base(server, doc);
    match base {
        Ok(None) => {
            return Ok(None);
        },
        Ok(Some(_)) => {},
        Err(e) => {
            return Err(e);
        },
    }
    assert(!shows_no_viewer(*doc));
    let t = match doc.select_unique(None, &Selector::new("table", "godChildren")) {
        Ok(t) => t,
        Err(e) => {
            proof {
                if exists|t2: usize| unique_at(*doc, None, god_children_table(), t2 as int) {
                    let t2 = choose|t2: usize| unique_at(*doc, None, god_children_table(), t2 as int);
                    lemma_unique_is_unique(*doc, None, god_children_table(), t2 as int);
                    assert(selects(*doc, None, god_children_table(), t2 as int));
                }
            }
            return Err(e);
        },
    };
    proof {
        lemma_unique_is_unique(*doc, None, god_children_table(), t as int);
    }
    let rows = doc.select_all(Some(t), &Selector::new("tr", "godChild"));
    let mut out: Vec<HammerfestGodChild> = Vec::new();
    let mut k: usize = 0;
    proof {
        if exists|t2: usize|
            unique_at(*doc, None, god_children_table(), t2 as int) && forall|row: usize|
                #[trigger] selects(*doc, Some(t2), god_child_row(), row as int) ==> god_child_readable(
                    *doc,
                    row,
                ) {
            let t2 = choose|t2: usize|
                unique_at(*doc, None, god_children_table(), t2 as int) && forall|row: usize|
                    #[trigger] selects(*doc, Some(t2), god_child_row(), row as int) ==> god_child_readable(
                        *doc,
                        row,
                    );
            assert(selects(*doc, None, god_children_table(), t2 as int));
            assert(t2 == t);
            assert forall|m: int| 0 <= m < rows@.len() implies god_child_readable(*doc, #[trigger] rows@[m]) by {
                assert(selects(*doc, Some(t), god_child_row(), rows@[m] as int));
            }
        }
    }
    while k < rows.len()
        invariant
            doc.wf(),
            k <= rows@.len(),
            out@.len() == k,
            lists_all(*doc, Some(t), god_child_row(), rows@),
            unique_at(*doc, None, god_children_table(), t as int),
            !shows_no_viewer(*doc),
            forall|m: int| 0 <= m < k ==> shows_god_child(*doc, rows@[m], server, #[trigger] out@[m]),
            (exists|t2: usize|
                unique_at(*doc, None, god_children_table(), t2 as int) && forall|row: usize|
                    #[trigger] selects(*doc, Some(t2), god_child_row(), row as int) ==> god_child_readable(
                        *doc,
                        row,
                    )) ==> forall|m: int| 0 <= m < rows@.len() ==> god_child_readable(*doc, #[trigger] rows@[m]),
        decreases rows@.len() - k,
    {
        match read_god_child(doc, rows[k], server) {
            Ok(c) => {
                out.push(c);
            },
            Err(e) => {
                assert(!god_child_readable(*doc, rows@[k as int]));
                return Err(e);
            },
        }
        k = k + 1;
    }
    Ok(Some(out))
}

pub open spec fn no_such_user() -> (Seq<char>, Seq<char>) {
    ("div"@, "noSuchUser"@)
}

pub open spec fn profile_block() -> (Seq<char>, Seq<char>) {
    ("div"@, "profile"@)
}

pub open spec fn profile_username() -> (Seq<char>, Seq<char>) {
    ("span"@, "userName"@)
}

pub open spec fn profile_best_score() -> (Seq<char>, Seq<char>) {
    ("td"@, "bestScore"@)
}

pub open spec fn profile_best_level() -> (Seq<char>, Seq<char>) {
    ("td"@, "bestLevel"@)
}

pub open spec fn profile_season_score() -> (Seq<char>, Seq<char>) {
    ("td"@, "seasonScore"@)
}

pub open spec fn profile_rank() -> (Seq<char>, Seq<char>) {
    ("td"@, "rank"@)
}

pub open spec fn profile_carrot() -> (Seq<char>, Seq<char>) {
    ("img"@, "carrot"@)
}

pub open spec fn profile_item() -> (Seq<char>, Seq<char>) {
    ("li"@, "item"@)
}

/// The profile page shows player `id` of `server` with profile `p`, inside the
/// profile block at `b`. The public profile page shows no email address, no
/// hall of fame message and no quest list, so those stay unknown: `email` is
/// `None` (not read, as opposed to `Some(None)`, read and hidden),
/// `hall_of_fame` is `None`, and `quests` is empty.
pub open spec fn shows_profile(doc: HtmlDocument, b: usize, server: HammerfestServer, id: Seq<char>, p: HammerfestProfile) -> bool {
    &&& p.user.server == server
    &&& p.user.id@ == id
    &&& exists|i: int| #[trigger] unique_at(doc, Some(b), profile_username(), i) && doc.elements@[i].text@ == p.user.username@
    &&& number_at(doc, Some(b), profile_best_score(), p.best_score as int)
    &&& number_at(doc, Some(b), profile_best_level(), p.best_level as int)
    &&& number_at(doc, Some(b), profile_season_score(), p.season_score as int)
    &&& number_at(doc, Some(b), profile_rank(), p.rank as int)
    &&& (p.has_carrot <==> !absent(doc, Some(b), profile_carrot()))
    &&& exists|rows: Seq<usize>|
        #[trigger] lists_all(doc, Some(b), profile_item(), rows) && rows.len() == p.items@.len()
            && forall|k: int|
            0 <= k < rows.len() ==> attr_spec(doc.elements@[rows[k] as int].attrs@, "data-item"@) == Some(
                (#[trigger] p.items@[k])@,
            )
    &&& p.email is None
    &&& p.hall_of_fame is None
    &&& p.quests@.len() == 0
}

/// Every item row of the profile block at `b` carries a valid item id, and no
/// two rows carry the same.
pub open spec fn items_readable(doc: HtmlDocument, b: usize) -> bool {
    &&& forall|j: int|
        #[trigger] selects(doc, Some(b), profile_item(), j) ==> (attr_spec(doc.elements@[j].attrs@, "data-item"@) matches Some(v)
            && item_id_text(v))
    &&& forall|j: int, k: int|
        j != k && #[trigger] selects(doc, Some(b), profile_item(), j) && #[trigger] selects(doc, Some(b), profile_item(), k)
            ==> attr_spec(doc.elements@[j].attrs@, "data-item"@) != attr_spec(doc.elements@[k].attrs@, "data-item"@)
}

/// The profile block at `b` can be read: one valid name, one number in each
/// number cell (the rank at most 4), at most one carrot, readable items.
pub open spec fn profile_block_readable(doc: HtmlDocument, b: usize) -> bool {
    &&& exists|i: int| #[trigger] unique_at(doc, Some(b), profile_username(), i) && username_text(doc.elements@[i].text@)
    &&& number_readable(doc, Some(b), profile_best_score())
    &&& number_readable(doc, Some(b), profile_best_level())
    &&& number_readable(doc, Some(b), profile_season_score())
    &&& exists|v: u32| #[trigger] number_at(doc, Some(b), profile_rank(), v as int) && v <= 4
    &&& !repeated(doc, Some(b), profile_carrot())
    &&& items_readable(doc, b)
}

/// The number cells of a profile block, in reading order.
pub open spec fn profile_cell(n: nat) -> (Seq<char>, Seq<char>) {
    if n == 0 {
        profile_best_score()
    } else if n == 1 {
        profile_best_level()
    } else if n == 2 {
        profile_season_score()
    } else {
        profile_rank()
    }
}

/// The name and the first `n` number cells of the block at `b` can be read.
pub open spec fn profile_head_readable(doc: HtmlDocument, b: usize, n: nat) -> bool {
    &&& exists|i: int| #[trigger] unique_at(doc, Some(b), profile_username(), i) && username_text(doc.elements@[i].text@)
    &&& forall|m: nat| m < n ==> number_readable(doc, Some(b), #[trigger] profile_cell(m))
}

/// On a profile page whose block is read up to number cell `n`, that cell is
/// repeated (`repeated_cell`) or absent (otherwise).
pub open spec fn profile_cell_fails(doc: HtmlDocument, n: nat, repeated_cell: bool) -> bool {
    &&& n <= 3
    &&& absent(doc, None, no_such_user())
    &&& exists|b: usize|
        #[trigger] unique_at(doc, None, profile_block(), b as int) && profile_head_readable(doc, b, n) && if repeated_cell {
            repeated(doc, Some(b), profile_cell(n))
        } else {
            absent(doc, Some(b), profile_cell(n))
        }
}

proof fn lemma_readable_excludes(doc: HtmlDocument, scope: Option<usize>, sel: (Seq<char>, Seq<char>))
    requires
        number_readable(doc, scope, sel),
    ensures
        !absent(doc, scope, sel) && !repeated(doc, scope, sel),
{
    let i = choose|i: int| unique_at(doc, scope, sel, i) && is_u32_text(#[trigger] doc.elements@[i].text@);
    lemma_unique_is_unique(doc, scope, sel, i);
}

/// When the read of number cell `j` of the block at `b` fails with `e`, after
/// the cells before it were read, `e` is the error that the cell clauses name.
proof fn lemma_profile_cell_error(doc: HtmlDocument, b: usize, j: nat, e: ScraperError)
    requires
        j <= 3,
        forall|b2: usize| #[trigger] unique_at(doc, None, profile_block(), b2 as int) ==> b2 == b,
        forall|m: nat| m < j ==> number_readable(doc, Some(b), #[trigger] profile_cell(m)),
        !number_readable(doc, Some(b), profile_cell(j)),
        e is HtmlFragmentNotFound <==> absent(doc, Some(b), profile_cell(j)),
        e is TooManyHtmlFragments <==> repeated(doc, Some(b), profile_cell(j)),
    ensures
        forall|n: nat| #[trigger] profile_cell_fails(doc, n, false) ==> e is HtmlFragmentNotFound,
        forall|n: nat| #[trigger] profile_cell_fails(doc, n, true) ==> e is TooManyHtmlFragments,
{
    assert forall|n: nat, flag: bool| #[trigger] profile_cell_fails(doc, n, flag) implies n == j by {
        let b2 = choose|b2: usize|
            #[trigger] unique_at(doc, None, profile_block(), b2 as int) && profile_head_readable(doc, b2, n) && if flag {
                repeated(doc, Some(b2), profile_cell(n))
            } else {
                absent(doc, Some(b2), profile_cell(n))
            };
        assert(b2 == b);
        if n < j {
            assert(number_readable(doc, Some(b), profile_cell(n)));
            lemma_readable_excludes(doc, Some(b), profile_cell(n));
        } else if n > j {
            assert(number_readable(doc, Some(b), profile_cell(j)));
        }
    }
    assert forall|n: nat| #[trigger] profile_cell_fails(doc, n, false) implies e is HtmlFragmentNotFound by {
        let b2 = choose|b2: usize|
            #[trigger] unique_at(doc, None, profile_block(), b2 as int) && profile_head_readable(doc, b2, n)
                && absent(doc, Some(b2), profile_cell(n));
        assert(b2 == b);
    }
    assert forall|n: nat| #[trigger] profile_cell_fails(doc, n, true) implies e is TooManyHtmlFragments by {
        let b2 = choose|b2: usize|
            #[trigger] unique_at(doc, None, profile_block(), b2 as int) && profile_head_readable(doc, b2, n)
                && repeated(doc, Some(b2), profile_cell(n));
        assert(b2 == b);
    }
}

/// Once every number cell of the block at `b` has been read, no cell clause
/// applies.
proof fn lemma_profile_cells_read(doc: HtmlDocument, b: usize)
    requires
        forall|b2: usize| #[trigger] unique_at(doc, None, profile_block(), b2 as int) ==> b2 == b,
        forall|m: nat| m <= 3 ==> number_readable(doc, Some(b), #[trigger] profile_cell(m)),
    ensures
        forall|n: nat, flag: bool| !#[trigger] profile_cell_fails(doc, n, flag),
{
    assert forall|n: nat, flag: bool| !#[trigger] profile_cell_fails(doc, n, flag) by {
        if profile_cell_fails(doc, n, flag) {
            let b2 = choose|b2: usize|
                #[trigger] unique_at(doc, None, profile_block(), b2 as int) && profile_head_readable(doc, b2, n) && if flag {
                    repeated(doc, Some(b2), profile_cell(n))
                } else {
                    absent(doc, Some(b2), profile_cell(n))
                };
            assert(b2 == b);
            assert(number_readable(doc, Some(b), profile_cell(n)));
            lemma_readable_excludes(doc, Some(b), profile_cell(n));
        }
    }
}

/// The page is a readable profile page: no marker of a missing player, and
/// one readable profile block.
pub open spec fn profile_readable(doc: HtmlDocument) -> bool {
    &&& absent(doc, None, no_such_user())
    &&& exists|b: usize| #[trigger] unique_at(doc, None, profile_block(), b as int) && profile_block_readable(doc, b)
}

/// The first position of an item with the view of `id`.
fn find_item(items: &Vec<HammerfestItemId>, id: &HammerfestItemId) -> (r: Option<usize>)
    ensures
        r matches Some(m) ==> m < items@.len() && items@[m as int]@ == id@,
        r is None ==> forall|i: int| 0 <= i < items@.len() ==> (#[trigger] items@[i])@ != id@,
{
    let mut m: usize = 0;
    while m < items.len()
        invariant
            m <= items@.len(),
            forall|i: int| 0 <= i < m ==> (#[trigger] items@[i])@ != id@,
        decreases items@.len() - m,
    {
        if str_eq(items[m].as_str(), id.as_str()) {
            return Some(m);
        }
        m = m + 1;
    }
    None
}

fn read_items(doc: &HtmlDocument, b: usize) -> (r: Result<Vec<HammerfestItemId>, ScraperError>)
    requires
        doc.wf(),
    ensures
        items_readable(*doc, b) ==> r is Ok,
        r matches Ok(items) ==> (exists|rows: Seq<usize>|
            #[trigger] lists_all(*doc, Some(b), profile_item(), rows) && rows.len() == items@.len()
                && forall|k: int|
                0 <= k < rows.len() ==> attr_spec(doc.elements@[rows[k] as int].attrs@, "data-item"@)
                    == Some((#[trigger] items@[k])@)) && forall|i: int, j: int|
            0 <= i < j < items@.len() ==> items@[i]@ != items@[j]@,
        r matches Err(e) ==> e is MissingAttribute || e is InvalidItemId || e is TooManyHtmlFragments,
{
    let rows = doc.select_all(Some(b), &Selector::new("li", "item"));
    let mut items: Vec<HammerfestItemId> = Vec::new();
    let mut k: usize = 0;
    while k < rows.len()
        invariant
            doc.wf(),
            k <= rows@.len(),
            items@.len() == k,
            lists_all(*doc, Some(b), profile_item(), rows@),
            forall|m: int|
                0 <= m < k ==> attr_spec(doc.elements@[rows@[m] as int].attrs@, "data-item"@) == Some(
                    (#[trigger] items@[m])@,
                ),
            forall|i: int, j: int| 0 <= i < j < items@.len() ==> items@[i]@ != items@[j]@,
        decreases rows@.len() - k,
    {
        assert(selects(*doc, Some(b), profile_item(), rows@[k as int] as int));
        let e = &doc.elements[rows[k]];
        let raw = match attr(e, "data-item") {
            Some(v) => v,
            None => {
                return Err(ScraperError::MissingAttribute(String::from_str("data-item")));
            },
        };
        let id = match HammerfestItemId::try_from_string(String::from_str(raw)) {
            Ok(id) => id,
            Err(_) => {
                return Err(ScraperError::InvalidItemId(String::from_str(raw)));
            },
        };
        match find_item(&items, &id) {
            Some(m) => {
                proof {
                    assert(rows@[m as int] < rows@[k as int]);
                    assert(selects(*doc, Some(b), profile_item(), rows@[m as int] as int));
                }
                return Err(ScraperError::TooManyHtmlFragments(String::from_str(raw)));
            },
            None => {},
        }
        items.push(id);
        k = k + 1;
    }
    Ok(items)
}

/// Reads the public profile page of player `id`: `None` when the page says
/// that no such player exists. A readable page always gives a profile.
pub fn scrape_user_profile(server: HammerfestServer, id: &HammerfestUserId, doc: &HtmlDocument) -> (r: Result<
    Option<HammerfestProfile>,
    ScraperError,
>)
    requires
        doc.wf(),
    ensures
        profile_readable(*doc) ==> r is Ok,
        r matches Ok(None) <==> !absent(*doc, None, no_such_user()) && !repeated(*doc, None, no_such_user()),
        r matches Ok(Some(p)) ==> p.wf() && absent(*doc, None, no_such_user()) && exists|b: usize|
            unique_at(*doc, None, profile_block(), b as int) && #[trigger] shows_profile(*doc, b, server, id@, p),
        r matches Err(ScraperError::HtmlFragmentNotFound(_)) <== absent(*doc, None, no_such_user())
            && absent(*doc, None, profile_block()),
        r matches Err(ScraperError::TooManyHtmlFragments(_)) <== repeated(*doc, None, no_such_user())
            || (absent(*doc, None, no_such_user()) && repeated(*doc, None, profile_block())),
        r matches Err(ScraperError::HtmlFragmentNotFound(_)) <== absent(*doc, None, no_such_user())
            && exists|b: usize| #[trigger] unique_at(*doc, None, profile_block(), b as int) && absent(
            *doc,
            Some(b),
            profile_username(),
        ),
        r matches Err(ScraperError::TooManyHtmlFragments(_)) <== absent(*doc, None, no_such_user())
            && exists|b: usize| #[trigger] unique_at(*doc, None, profile_block(), b as int) && repeated(
            *doc,
            Some(b),
            profile_username(),
        ),
        forall|n: nat| #[trigger] profile_cell_fails(*doc, n, false) ==> r matches Err(ScraperError::HtmlFragmentNotFound(_)),
        forall|n: nat| #[trigger] profile_cell_fails(*doc, n, true) ==> r matches Err(ScraperError::TooManyHtmlFragments(_)),
        r matches Err(e) ==> e.is_structural() || e.is_validation(),
{
    match read_flag(doc, None, &Selector::new("div", "noSuchUser")) {
        Ok(true) => {
            return Ok(None);
        },
        Ok(false) => {},
        Err(e) => {
            return Err(e);
        },
    }
    let b = match doc.select_unique(None, &Selector::new("div", "profile")) {
        Ok(b) => b,
        Err(e) => {
            proof {
                lemma_unique_excludes(*doc, None, profile_block());
            }
            return Err(e);
        },
    };
    proof {
        lemma_unique_is_unique(*doc, None, profile_block(), b as int);
        assert(unique_at(*doc, None, profile_block(), b as int));
    }
    let ghost readable = profile_readable(*doc);
    assert(readable ==> profile_block_readable(*doc, b));
    let name_at = match doc.select_unique(Some(b), &Selector::new("span", "userName")) {
        Ok(i) => i,
        Err(e) => {
            proof {
                lemma_unique_excludes(*doc, Some(b), profile_username());
            }
            return Err(e);
        },
    };
    proof {
        lemma_unique_is_unique(*doc, Some(b), profile_username(), name_at as int);
    }
    let name_text = &doc.elements[name_at].text;
    let username = match HammerfestUsername::try_from_string(name_text.clone()) {
        Ok(u) => u,
        Err(_) => {
            return Err(ScraperError::InvalidUsername(name_text.clone()));
        },
    };
    let ghost mut cells: Seq<u32> = Seq::empty();
    let best_score = match read_u32(doc, Some(b), &Selector::new("td", "bestScore")) {
        Ok(v) => v,
        Err(e) => {
            proof {
                assert forall|m: nat| m < 0 implies number_readable(*doc, Some(b), #[trigger] profile_cell(m)) by {
                    assert(number_at(*doc, Some(b), profile_cell(m), cells[m as int] as int));
                }
                lemma_profile_cell_error(*doc, b, 0, e);
            }
            return Err(e);
        },
    };
    proof {
        cells = cells.push(best_score);
        assert(number_at(*doc, Some(b), profile_cell(0), best_score as int));
    }
    let best_level = match read_u32(doc, Some(b), &Selector::new("td", "bestLevel")) {
        Ok(v) => v,
        Err(e) => {
            proof {
                assert forall|m: nat| m < 1 implies number_readable(*doc, Some(b), #[trigger] profile_cell(m)) by {
                    assert(number_at(*doc, Some(b), profile_cell(m), cells[m as int] as int));
                }
                lemma_profile_cell_error(*doc, b, 1, e);
            }
            return Err(e);
        },
    };
    proof {
        cells = cells.push(best_level);
        assert(number_at(*doc, Some(b), profile_cell(1), best_level as int));
    }
    let season_score = match read_u32(doc, Some(b), &Selector::new("td", "seasonScore")) {
        Ok(v) => v,
        Err(e) => {
            proof {
                assert forall|m: nat| m < 2 implies number_readable(*doc, Some(b), #[trigger] profile_cell(m)) by {
                    assert(number_at(*doc, Some(b), profile_cell(m), cells[m as int] as int));
                }
                lemma_profile_cell_error(*doc, b, 2, e);
            }
            return Err(e);
        },
    };
    proof {
        cells = cells.push(season_score);
        assert(number_at(*doc, Some(b), profile_cell(2), season_score as int));
    }
    let rank_sel = Selector::new("td", "rank");
    let rank = match read_u32(doc, Some(b), &rank_sel) {
        Ok(v) => v,
        Err(e) => {
            proof {
                if readable {
                    let v = choose|v: u32| #[trigger] number_at(*doc, Some(b), profile_rank(), v as int) && v <= 4;
                    assert(number_readable(*doc, Some(b), profile_rank()));
                }
                assert forall|m: nat| m < 3 implies number_readable(*doc, Some(b), #[trigger] profile_cell(m)) by {
                    assert(number_at(*doc, Some(b), profile_cell(m), cells[m as int] as int));
                }
                lemma_profile_cell_error(*doc, b, 3, e);
            }
            return Err(e);
        },
    };
    proof {
        cells = cells.push(rank);
        assert(number_at(*doc, Some(b), profile_cell(3), rank as int));
        assert forall|m: nat| m <= 3 implies number_readable(*doc, Some(b), #[trigger] profile_cell(m)) by {
            assert(number_at(*doc, Some(b), profile_cell(m), cells[m as int] as int));
        }
        lemma_profile_cells_read(*doc, b);
    }
    if rank > 4 {
        proof {
            if readable {
                let v = choose|v: u32| #[trigger] number_at(*doc, Some(b), profile_rank(), v as int) && v <= 4;
                lemma_number_at_unique(*doc, Some(b), profile_rank(), v as int, rank as int);
            }
        }
        return match doc.select_unique(Some(b), &rank_sel) {
            Ok(i) => Err(ScraperError::InvalidInteger(doc.elements[i].text.clone())),
            Err(e) => Err(e),
        };
    }
    let has_carrot = match read_flag(doc, Some(b), &Selector::new("img", "carrot")) {
        Ok(f) => f,
        Err(e) => {
            return Err(e);
        },
    };
    let items = match read_items(doc, b) {
        Ok(items) => items,
        Err(e) => {
            return Err(e);
        },
    };
    assert(unique_at(*doc, Some(b), profile_username(), name_at as int));
    let p = HammerfestProfile {
        user: ShortHammerfestUser { server, id: id.clone(), username },
        email: None,
        best_score,
        best_level,
        has_carrot,
        season_score,
        rank: rank as u8,
        hall_of_fame: None,
        items,
        quests: Vec::new(),
    };
    assert(shows_profile(*doc, b, server, id@, p));
    Ok(Some(p))
}

pub open spec fn inventory_table() -> (Seq<char>, Seq<char>) {
    ("table"@, "inventory"@)
}

pub open spec fn inventory_row() -> (Seq<char>, Seq<char>) {
    ("tr"@, "item"@)
}

pub open spec fn inventory_count() -> (Seq<char>, Seq<char>) {
    ("td"@, "count"@)
}

/// Row `row` of the inventory shows `count` of item `id`: the row's
/// `data-item` attribute holds the id, its count cell the number.
pub open spec fn shows_inventory_entry(doc: HtmlDocument, row: usize, entry: (HammerfestItemId, u32)) -> bool {
    &&& attr_spec(doc.elements@[row as int].attrs@, "data-item"@) == Some(entry.0@)
    &&& number_at(doc, Some(row), inventory_count(), entry.1 as int)
}

/// Every item row in the inventory table at `t` carries a valid item id and
/// one readable count, and no two rows carry the same id.
pub open spec fn inventory_rows_readable(doc: HtmlDocument, t: usize) -> bool {
    &&& forall|j: usize|
        #[trigger] selects(doc, Some(t), inventory_row(), j as int) ==> (attr_spec(doc.elements@[j as int].attrs@, "data-item"@) matches Some(v)
            && item_id_text(v)) && number_readable(doc, Some(j), inventory_count())
    &&& forall|j: int, k: int|
        j != k && #[trigger] selects(doc, Some(t), inventory_row(), j) && #[trigger] selects(doc, Some(t), inventory_row(), k)
            ==> attr_spec(doc.elements@[j].attrs@, "data-item"@) != attr_spec(doc.elements@[k].attrs@, "data-item"@)
}

fn find_entry(entries: &Vec<(HammerfestItemId, u32)>, id: &HammerfestItemId) -> (r: Option<usize>)
    ensures
        r matches Some(m) ==> m < entries@.len() && entries@[m as int].0@ == id@,
        r is None ==> forall|i: int| 0 <= i < entries@.len() ==> (#[trigger] entries@[i]).0@ != id@,
{
    let mut m: usize = 0;
    while m < entries.len()
        invariant
            m <= entries@.len(),
            forall|i: int| 0 <= i < m ==> (#[trigger] entries@[i]).0@ != id@,
        decreases entries@.len() - m,
    {
        if str_eq(entries[m].0.as_str(), id.as_str()) {
            return Some(m);
        }
        m = m + 1;
    }
    None
}

/// Reads the viewer's inventory: each item once, with its count, in page
/// order; `None` when nobody is logged in. An item listed twice is an error.
pub fn scrape_user_inventory(server: HammerfestServer, doc: &HtmlDocument) -> (r: Result<
    Option<Vec<(HammerfestItemId, u32)>>,
    ScraperError,
>)
    requires
        doc.wf(),
    ensures
        (viewer_readable(*doc) && (shows_no_viewer(*doc) || exists|t: usize|
            #[trigger] unique_at(*doc, None, inventory_table(), t as int) && inventory_rows_readable(*doc, t)))
            ==> r is Ok,
        r matches Ok(None) <==> shows_no_viewer(*doc),
        r matches Ok(Some(v)) ==> (exists|t: usize, rows: Seq<usize>|
            #![trigger lists_all(*doc, Some(t), inventory_row(), rows)]
            unique_at(*doc, None, inventory_table(), t as int) && lists_all(
                *doc,
                Some(t),
                inventory_row(),
                rows,
            ) && rows.len() == v@.len() && forall|k: int|
                0 <= k < rows.len() ==> shows_inventory_entry(*doc, rows[k], #[trigger] v@[k]))
            && forall|i: int, j: int| 0 <= i < j < v@.len() ==> v@[i].0@ != v@[j].0@,
        viewer_readable(*doc) && !shows_no_viewer(*doc) && absent(*doc, None, inventory_table()) ==> r matches Err(
            ScraperError::HtmlFragmentNotFound(_),
        ),
        viewer_readable(*doc) && !shows_no_viewer(*doc) && repeated(*doc, None, inventory_table()) ==> r matches Err(
            ScraperError::TooManyHtmlFragments(_),
        ),
{
    let base = scrape_user_base(server, doc);
    match base {
        Ok(None) => {
            return Ok(None);
        },
        Ok(Some(_)) => {},
        Err(e) => {
            return Err(e);
        },
    }
    assert(!shows_no_viewer(*doc));
    let t = match doc.select_unique(None, &Selector::new("table", "inventory")) {
        Ok(t) => t,
        Err(e) => {
            proof {
                lemma_unique_excludes(*doc, None, inventory_table());
            }
            return Err(e);
        },
    };
    proof {
        lemma_unique_is_unique(*doc, None, inventory_table(), t as int);
    }
    let ghost readable = inventory_rows_readable(*doc, t);
    proof {
        if exists|t2: usize| #[trigger] unique_at(*doc, None, inventory_table(), t2 as int) && inventory_rows_readable(*doc, t2) {
            let t2 = choose|t2: usize| #[trigger] unique_at(*doc, None, inventory_table(), t2 as int) && inventory_rows_readable(*doc, t2);
            assert(t2 == t);
        }
    }
    let rows = doc.select_all(Some(t), &Selector::new("tr", "item"));
    let mut out: Vec<(HammerfestItemId, u32)> = Vec::new();
    let mut k: usize = 0;
    while k < rows.len()
        invariant
            doc.wf(),
            k <= rows@.len(),
            out@.len() == k,
            lists_all(*doc, Some(t), inventory_row(), rows@),
            unique_at(*doc, None, inventory_table(), t as int),
            !shows_no_viewer(*doc),
            readable == inventory_rows_readable(*doc, t),
            (exists|t2: usize| #[trigger] unique_at(*doc, None, inventory_table(), t2 as int) && inventory_rows_readable(*doc, t2)) ==> readable,
            forall|m: int| 0 <= m < k ==> shows_inventory_entry(*doc, rows@[m], #[trigger] out@[m]),
            forall|i: int, j: int| 0 <= i < j < out@.len() ==> out@[i].0@ != out@[j].0@,
        decreases rows@.len() - k,
    {
        let row = rows[k];
        assert(selects(*doc, Some(t), inventory_row(), row as int));
        let raw = match attr(&doc.elements[row], "data-item") {
            Some(v) => v,
            None => {
                return Err(ScraperError::MissingAttribute(String::from_str("data-item")));
            },
        };
        let id = match HammerfestItemId::try_from_string(String::from_str(raw)) {
            Ok(id) => id,
            Err(_) => {
                return Err(ScraperError::InvalidItemId(String::from_str(raw)));
            },
        };
        let count = match read_u32(doc, Some(row), &Selector::new("td", "count")) {
            Ok(c) => c,
            Err(e) => {
                return Err(e);
            },
        };
        match find_entry(&out, &id) {
            Some(m) => {
                proof {
                    assert(rows@[m as int] < rows@[k as int]);
                    assert(selects(*doc, Some(t), inventory_row(), rows@[m as int] as int));
                }
                return Err(ScraperError::TooManyHtmlFragments(String::from_str(raw)));
            },
            None => {},
        }
        out.push((id, count));
        k = k + 1;
    }
    Ok(Some(out))
}

} // verus!
