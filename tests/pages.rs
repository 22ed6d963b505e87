use etwin_hammerfest::document::{HtmlDocument, HtmlElement};
use etwin_hammerfest::errors::ScraperError;
use etwin_hammerfest::ids::{HammerfestSessionKey, HammerfestUserId, HammerfestUsername};
use etwin_hammerfest::model::{HammerfestCredentials, Instant};
use etwin_hammerfest::scrape::{
    is_login_page_error, scrape_user_base, scrape_user_god_children, scrape_user_profile,
    scrape_user_shop,
};
use etwin_hammerfest::server::HammerfestServer;
use etwin_hammerfest::session::{
    after_login, after_test, SessionState, classify_login_status, finish_login, login_page_error, session_cookie, session_from_root,
    session_key_from_cookies, LoginAnswer,
};
use etwin_hammerfest::urls::{god_children_url, login_url, root_url, shop_url, user_url};

const KEY: &str = "abcdefghijklmnopqrstuvwxyz";

fn el(name: &str, classes: &[&str], attrs: &[(&str, &str)], text: &str, parent: Option<usize>) -> HtmlElement {
    HtmlElement {
        name: String::from(name),
        classes: classes.iter().map(|c| String::from(*c)).collect(),
        attrs: attrs.iter().map(|(k, v)| (String::from(*k), String::from(*v))).collect(),
        text: String::from(text),
        parent,
    }
}

/// A page with one top bar; the viewer link is added when `viewer` is given.
fn page(viewer: Option<(&str, &str)>) -> Vec<HtmlElement> {
    let mut elements = vec![el("html", &[], &[], "", None), el("div", &["topMainBar"], &[], "", Some(0))];
    if let Some((id, name)) = viewer {
        let href = format!("/user.html/{}", id);
        elements.push(el("a", &["userName"], &[("href", href.as_str())], name, Some(1)));
    }
    elements
}

fn doc(elements: Vec<HtmlElement>) -> HtmlDocument {
    HtmlDocument { elements }
}

fn key() -> HammerfestSessionKey {
    HammerfestSessionKey::try_from_string(String::from(KEY)).unwrap()
}

#[test]
fn user_base_without_top_bar_is_not_found() {
    let d = doc(vec![el("html", &[], &[], "", None), el("div", &["content"], &[], "", Some(0))]);
    match scrape_user_base(HammerfestServer::HammerfestFr, &d) {
        Err(ScraperError::HtmlFragmentNotFound(anchor)) => assert_eq!(anchor, "div.topMainBar"),
        other => panic!("unexpected {:?}", other),
    }
}

#[test]
fn user_base_with_two_top_bars_is_too_many() {
    let mut elements = page(Some(("127", "alice")));
    elements.push(el("div", &["topMainBar"], &[], "", Some(0)));
    match scrape_user_base(HammerfestServer::HammerfestFr, &doc(elements)) {
        Err(ScraperError::TooManyHtmlFragments(anchor)) => assert_eq!(anchor, "div.topMainBar"),
        other => panic!("unexpected {:?}", other),
    }
}

#[test]
fn user_base_with_two_viewer_links_is_too_many() {
    let mut elements = page(Some(("127", "alice")));
    elements.push(el("a", &["userName"], &[("href", "/user.html/128")], "bob", Some(1)));
    match scrape_user_base(HammerfestServer::HammerfestFr, &doc(elements)) {
        Err(ScraperError::TooManyHtmlFragments(anchor)) => assert_eq!(anchor, "a.userName"),
        other => panic!("unexpected {:?}", other),
    }
}

#[test]
fn user_base_ignores_links_outside_the_top_bar() {
    let mut elements = page(None);
    elements.push(el("a", &["userName"], &[("href", "/user.html/128")], "bob", Some(0)));
    assert_eq!(scrape_user_base(HammerfestServer::HammerfestFr, &doc(elements)), Ok(None));
}

#[test]
fn user_base_reads_viewer() {
    let u = scrape_user_base(HammerfestServer::HfestNet, &doc(page(Some(("127", "alice"))))).unwrap().unwrap();
    assert_eq!(u.server, HammerfestServer::HfestNet);
    assert_eq!(u.id.as_str(), "127");
    assert_eq!(u.username.as_str(), "alice");
}

#[test]
fn user_base_reports_bad_values() {
    let bad_id = scrape_user_base(HammerfestServer::HammerfestFr, &doc(page(Some(("0127", "alice")))));
    assert_eq!(bad_id, Err(ScraperError::InvalidUserId(String::from("0127"))));
    let bad_name = scrape_user_base(HammerfestServer::HammerfestFr, &doc(page(Some(("127", "a b")))));
    assert_eq!(bad_name, Err(ScraperError::InvalidUsername(String::from("a b"))));
    let mut elements = page(None);
    elements.push(el("a", &["userName"], &[("href", "/forum.html")], "alice", Some(1)));
    assert_eq!(
        scrape_user_base(HammerfestServer::HammerfestFr, &doc(elements)),
        Err(ScraperError::InvalidLink(String::from("/forum.html")))
    );
    let mut elements = page(None);
    elements.push(el("a", &["userName"], &[], "alice", Some(1)));
    assert_eq!(
        scrape_user_base(HammerfestServer::HammerfestFr, &doc(elements)),
        Err(ScraperError::MissingAttribute(String::from("href")))
    );
}

#[test]
fn test_session_on_logged_out_page_is_none() {
    let r = session_from_root(HammerfestServer::HammerfestFr, &key(), Instant { millis: 10 }, &doc(page(None)));
    assert_eq!(r, Ok(None));
}

#[test]
fn test_session_on_logged_in_page_keeps_key() {
    let now = Instant { millis: 1_600_000_000_000 };
    let s = session_from_root(HammerfestServer::HammerfestFr, &key(), now, &doc(page(Some(("127", "alice")))))
        .unwrap()
        .unwrap();
    assert_eq!(s.user.username.as_str(), "alice");
    assert_eq!(s.user.id.as_str(), "127");
    assert_eq!(s.key, key());
    assert_eq!(s.ctime, now);
    assert_eq!(s.atime, now);
}

#[test]
fn login_with_wrong_credentials_is_invalid_credentials() {
    let credentials = HammerfestCredentials {
        server: HammerfestServer::HammerfestFr,
        username: HammerfestUsername::try_from_string(String::from("alice")).unwrap(),
        password: String::from("wrong"),
    };
    let mut elements = page(None);
    elements.push(el("div", &["loginError"], &[], "Mot de passe incorrect", Some(0)));
    let d = doc(elements);
    assert!(is_login_page_error(&d));
    let url = login_url(HammerfestServer::HammerfestFr);
    assert_eq!(
        login_page_error(&credentials, &url, &d),
        ScraperError::InvalidCredentials(HammerfestServer::HammerfestFr, credentials.username.clone())
    );
    assert_eq!(
        login_page_error(&credentials, &url, &doc(page(None))),
        ScraperError::UnexpectedResponse(url.clone())
    );
}

#[test]
fn login_status_classes() {
    assert_eq!(classify_login_status(302), LoginAnswer::Redirect);
    assert_eq!(classify_login_status(200), LoginAnswer::Page);
    assert_eq!(classify_login_status(301), LoginAnswer::Page);
    assert_eq!(classify_login_status(404), LoginAnswer::Failure);
    assert_eq!(classify_login_status(500), LoginAnswer::Failure);
}

#[test]
fn session_cookie_is_read_from_headers() {
    let headers = vec![String::from("lang=fr; path=/"), format!("SID={}; path=/; HttpOnly", KEY)];
    assert_eq!(session_key_from_cookies(&headers), Ok(key()));
    let bare = vec![format!("SID={}", KEY)];
    assert_eq!(session_key_from_cookies(&bare), Ok(key()));
    assert_eq!(session_key_from_cookies(&vec![String::from("lang=fr")]), Err(ScraperError::MissingSessionCookie));
    assert_eq!(session_key_from_cookies(&vec![]), Err(ScraperError::MissingSessionCookie));
    assert_eq!(
        session_key_from_cookies(&vec![String::from("SID=short; path=/")]),
        Err(ScraperError::InvalidSessionCookie)
    );
    assert_eq!(session_cookie(&key()), format!("SID={}", KEY));
}

#[test]
fn finish_login_reads_viewer_or_reports_revocation() {
    let now = Instant { millis: 5 };
    let s = finish_login(HammerfestServer::HammerfestEs, key(), now, &doc(page(Some(("42", "bob"))))).unwrap();
    assert_eq!(s.user.username.as_str(), "bob");
    assert_eq!(s.user.server, HammerfestServer::HammerfestEs);
    assert_eq!(s.key, key());
    assert_eq!(
        finish_login(HammerfestServer::HammerfestEs, key(), now, &doc(page(None))),
        Err(ScraperError::LoginSessionRevoked)
    );
}

#[test]
fn shop_page_is_read() {
    let mut elements = page(Some(("127", "alice")));
    elements.push(el("span", &["tokens"], &[], "12", Some(0)));
    elements.push(el("span", &["weeklyTokens"], &[], "3", Some(0)));
    elements.push(el("div", &["questBonus"], &[], "", Some(0)));
    let shop = scrape_user_shop(HammerfestServer::HammerfestFr, &doc(elements)).unwrap().unwrap();
    assert_eq!(shop.tokens, 12);
    assert_eq!(shop.weekly_tokens, 3);
    assert_eq!(shop.purchased_tokens, None);
    assert!(shop.has_quest_bonus);
}

#[test]
fn shop_page_errors_and_logged_out() {
    assert_eq!(scrape_user_shop(HammerfestServer::HammerfestFr, &doc(page(None))), Ok(None));
    let mut elements = page(Some(("127", "alice")));
    elements.push(el("span", &["tokens"], &[], "douze", Some(0)));
    elements.push(el("span", &["weeklyTokens"], &[], "3", Some(0)));
    assert_eq!(
        scrape_user_shop(HammerfestServer::HammerfestFr, &doc(elements)),
        Err(ScraperError::InvalidInteger(String::from("douze")))
    );
    let mut elements = page(Some(("127", "alice")));
    elements.push(el("span", &["tokens"], &[], "1", Some(0)));
    elements.push(el("span", &["weeklyTokens"], &[], "3", Some(0)));
    elements.push(el("span", &["purchasedTokens"], &[], "7", Some(0)));
    elements.push(el("span", &["purchasedTokens"], &[], "8", Some(0)));
    assert_eq!(
        scrape_user_shop(HammerfestServer::HammerfestFr, &doc(elements)),
        Err(ScraperError::TooManyHtmlFragments(String::from("span.purchasedTokens")))
    );
}

#[test]
fn god_children_rows_are_read_in_order() {
    let mut elements = page(Some(("127", "alice")));
    elements.push(el("table", &["godChildren"], &[], "", Some(0)));
    for (id, name, tokens) in [("5", "bob", "2"), ("6", "carol", "0")] {
        let row = elements.len();
        elements.push(el("tr", &["godChild"], &[], "", Some(3)));
        let href = format!("/user.html/{}", id);
        elements.push(el("a", &["player"], &[("href", href.as_str())], name, Some(row)));
        elements.push(el("td", &["tokens"], &[], tokens, Some(row)));
    }
    let children = scrape_user_god_children(HammerfestServer::HammerfestFr, &doc(elements)).unwrap().unwrap();
    assert_eq!(children.len(), 2);
    assert_eq!(children[0].user.username.as_str(), "bob");
    assert_eq!(children[0].tokens, 2);
    assert_eq!(children[1].user.id.as_str(), "6");
    assert_eq!(children[1].tokens, 0);
}

#[test]
fn god_children_row_without_tokens_is_not_found() {
    let mut elements = page(Some(("127", "alice")));
    elements.push(el("table", &["godChildren"], &[], "", Some(0)));
    elements.push(el("tr", &["godChild"], &[], "", Some(3)));
    elements.push(el("a", &["player"], &[("href", "/user.html/5")], "bob", Some(4)));
    assert_eq!(
        scrape_user_god_children(HammerfestServer::HammerfestFr, &doc(elements)),
        Err(ScraperError::HtmlFragmentNotFound(String::from("td.tokens")))
    );
}

fn profile_page(rank: &str, items: &[&str]) -> Vec<HtmlElement> {
    let mut elements = page(None);
    elements.push(el("div", &["profile"], &[], "", Some(0)));
    let b = elements.len() - 1;
    elements.push(el("span", &["userName"], &[], "alice", Some(b)));
    elements.push(el("td", &["bestScore"], &[], "123456", Some(b)));
    elements.push(el("td", &["bestLevel"], &[], "42", Some(b)));
    elements.push(el("td", &["seasonScore"], &[], "789", Some(b)));
    elements.push(el("td", &["rank"], &[], rank, Some(b)));
    elements.push(el("img", &["carrot"], &[], "", Some(b)));
    for item in items {
        elements.push(el("li", &["item"], &[("data-item", item)], "", Some(b)));
    }
    elements
}

#[test]
fn profile_page_is_read() {
    let id = HammerfestUserId::try_from_string(String::from("127")).unwrap();
    let p = scrape_user_profile(HammerfestServer::HammerfestFr, &id, &doc(profile_page("2", &["1000", "7"])))
        .unwrap()
        .unwrap();
    assert_eq!(p.user.id, id);
    assert_eq!(p.user.username.as_str(), "alice");
    assert_eq!(p.best_score, 123456);
    assert_eq!(p.best_level, 42);
    assert_eq!(p.season_score, 789);
    assert_eq!(p.rank, 2);
    assert!(p.has_carrot);
    let items: Vec<&str> = p.items.iter().map(|i| i.as_str()).collect();
    assert_eq!(items, vec!["1000", "7"]);
}

#[test]
fn profile_page_of_missing_player_is_none() {
    let id = HammerfestUserId::try_from_string(String::from("127")).unwrap();
    let mut elements = page(None);
    elements.push(el("div", &["noSuchUser"], &[], "", Some(0)));
    assert_eq!(scrape_user_profile(HammerfestServer::HammerfestFr, &id, &doc(elements)), Ok(None));
    assert_eq!(
        scrape_user_profile(HammerfestServer::HammerfestFr, &id, &doc(page(None))),
        Err(ScraperError::HtmlFragmentNotFound(String::from("div.profile")))
    );
}

#[test]
fn profile_page_rejects_bad_rank_and_items() {
    let id = HammerfestUserId::try_from_string(String::from("127")).unwrap();
    assert_eq!(
        scrape_user_profile(HammerfestServer::HammerfestFr, &id, &doc(profile_page("5", &[]))),
        Err(ScraperError::InvalidInteger(String::from("5")))
    );
    assert_eq!(
        scrape_user_profile(HammerfestServer::HammerfestFr, &id, &doc(profile_page("1", &["01"]))),
        Err(ScraperError::InvalidItemId(String::from("01")))
    );
    assert_eq!(
        scrape_user_profile(HammerfestServer::HammerfestFr, &id, &doc(profile_page("1", &["7", "7"]))),
        Err(ScraperError::TooManyHtmlFragments(String::from("7")))
    );
}

#[test]
fn urls_are_built_per_mirror() {
    let id = HammerfestUserId::try_from_string(String::from("127")).unwrap();
    assert_eq!(root_url(HammerfestServer::HammerfestFr), "http://www.hammerfest.fr/");
    assert_eq!(login_url(HammerfestServer::HfestNet), "http://www.hfest.net/login.html");
    assert_eq!(user_url(HammerfestServer::HammerfestEs, &id), "http://www.hammerfest.es/user.html/127");
    assert_eq!(shop_url(HammerfestServer::HammerfestFr), "http://www.hammerfest.fr/shop.html");
    assert_eq!(god_children_url(HammerfestServer::HammerfestFr), "http://www.hammerfest.fr/godChildren.html");
}

#[test]
fn session_states_follow_outcomes() {
    let s0 = session_from_root(HammerfestServer::HammerfestFr, &key(), Instant { millis: 1 }, &doc(page(Some(("127", "alice")))))
        .unwrap()
        .unwrap();
    let failed = after_login(SessionState::Unauthenticated, Err(ScraperError::MissingSessionCookie));
    assert_eq!(failed, SessionState::Unauthenticated);
    let state = after_login(SessionState::Unauthenticated, Ok(s0.clone()));
    assert_eq!(state, SessionState::Authenticated(s0.clone()));
    let s1 = session_from_root(HammerfestServer::HammerfestFr, &key(), Instant { millis: 9 }, &doc(page(Some(("127", "alice2")))))
        .unwrap()
        .unwrap();
    match after_test(state, Some(s1)) {
        SessionState::Authenticated(s) => {
            assert_eq!(s.key, key());
            assert_eq!(s.ctime, Instant { millis: 1 });
            assert_eq!(s.atime, Instant { millis: 9 });
            assert_eq!(s.user.username.as_str(), "alice2");
            assert_eq!(s.user.id.as_str(), "127");
        }
        other => panic!("unexpected {:?}", other),
    }
    assert_eq!(after_test(SessionState::Authenticated(s0), None), SessionState::Revoked);
}

#[test]
fn profile_page_anchor_errors() {
    let id = HammerfestUserId::try_from_string(String::from("127")).unwrap();
    let without_score: Vec<HtmlElement> =
        profile_page("2", &[]).into_iter().filter(|e| !e.classes.iter().any(|c| c == "bestScore")).collect();
    assert_eq!(
        scrape_user_profile(HammerfestServer::HammerfestFr, &id, &doc(without_score)),
        Err(ScraperError::HtmlFragmentNotFound(String::from("td.bestScore")))
    );
    let mut two_names = profile_page("2", &[]);
    two_names.push(el("span", &["userName"], &[], "bob", Some(2)));
    assert_eq!(
        scrape_user_profile(HammerfestServer::HammerfestFr, &id, &doc(two_names)),
        Err(ScraperError::TooManyHtmlFragments(String::from("span.userName")))
    );
    let mut two_blocks = profile_page("2", &[]);
    two_blocks.push(el("div", &["profile"], &[], "", Some(0)));
    assert_eq!(
        scrape_user_profile(HammerfestServer::HammerfestFr, &id, &doc(two_blocks)),
        Err(ScraperError::TooManyHtmlFragments(String::from("div.profile")))
    );
}
