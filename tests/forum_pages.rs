use etwin_hammerfest::document::{HtmlDocument, HtmlElement};
use etwin_hammerfest::errors::ScraperError;
use etwin_hammerfest::forum::{parse_forum_date, scrape_forum_home, scrape_forum_theme, scrape_forum_thread};
use etwin_hammerfest::ids::{HammerfestForumThemeId, HammerfestForumThreadId};
use etwin_hammerfest::model::{HammerfestForumDate, HammerfestForumRole};
use etwin_hammerfest::scrape::scrape_user_inventory;
use etwin_hammerfest::server::HammerfestServer;
use etwin_hammerfest::text::u32_to_text;
use etwin_hammerfest::urls::{forum_home_url, forum_theme_url, forum_thread_url, inventory_url};

fn el(name: &str, classes: &[&str], attrs: &[(&str, &str)], text: &str, parent: Option<usize>) -> HtmlElement {
    HtmlElement {
        name: String::from(name),
        classes: classes.iter().map(|c| String::from(*c)).collect(),
        attrs: attrs.iter().map(|(k, v)| (String::from(*k), String::from(*v))).collect(),
        text: String::from(text),
        parent,
    }
}

fn push(elements: &mut Vec<HtmlElement>, e: HtmlElement) -> usize {
    elements.push(e);
    elements.len() - 1
}

#[test]
fn forum_dates_are_read() {
    assert_eq!(
        parse_forum_date("3 14/07 09:05"),
        Some(HammerfestForumDate { month: 7, day: 14, weekday: 3, hour: 9, minute: 5 })
    );
    assert_eq!(parse_forum_date("8 14/07 09:05"), None);
    assert_eq!(parse_forum_date("3 14/13 09:05"), None);
    assert_eq!(parse_forum_date("3 00/07 09:05"), None);
    assert_eq!(parse_forum_date("3 14/07 24:00"), None);
    assert_eq!(parse_forum_date("3 14/07 23:60"), None);
    assert_eq!(parse_forum_date("3 14-07 09:05"), None);
    assert_eq!(parse_forum_date("3 14/07 9:05"), None);
}

#[test]
fn forum_home_lists_themes() {
    let mut e = vec![el("html", &[], &[], "", None)];
    let t = push(&mut e, el("table", &["themes"], &[], "", Some(0)));
    for (id, name, description) in [("2", "Discussions", "Tout"), ("10", "Aide", "Questions")] {
        let row = push(&mut e, el("tr", &["theme"], &[], "", Some(t)));
        let href = format!("/forum.html/theme/{}", id);
        push(&mut e, el("a", &["theme"], &[("href", href.as_str())], name, Some(row)));
        push(&mut e, el("td", &["description"], &[], description, Some(row)));
    }
    let themes = scrape_forum_home(HammerfestServer::HammerfestFr, &HtmlDocument { elements: e }).unwrap();
    assert_eq!(themes.len(), 2);
    assert_eq!(themes[0].short.id.as_str(), "2");
    assert_eq!(themes[0].short.name, "Discussions");
    assert_eq!(themes[1].short.id.as_str(), "10");
    assert_eq!(themes[1].description, "Questions");
}

#[test]
fn forum_home_without_table_is_not_found() {
    let d = HtmlDocument { elements: vec![el("html", &[], &[], "", None)] };
    assert_eq!(
        scrape_forum_home(HammerfestServer::HammerfestFr, &d),
        Err(ScraperError::HtmlFragmentNotFound(String::from("table.themes")))
    );
}

fn theme_page(current: &str, pages: &str) -> Vec<HtmlElement> {
    let mut e = vec![el("html", &[], &[], "", None)];
    push(&mut e, el("a", &["currentTheme"], &[("href", "/forum.html/theme/2")], "Discussions", Some(0)));
    push(&mut e, el("span", &["currentPage"], &[], current, Some(0)));
    push(&mut e, el("span", &["pageCount"], &[], pages, Some(0)));
    let t = push(&mut e, el("table", &["threads"], &[], "", Some(0)));
    for (class, id, closed) in [("stickyThread", "100", false), ("thread", "200", true), ("thread", "201", false)] {
        let row = push(&mut e, el("tr", &[class], &[], "", Some(t)));
        let href = format!("/forum.html/thread/{}", id);
        push(&mut e, el("a", &["thread"], &[("href", href.as_str())], "Sujet", Some(row)));
        push(&mut e, el("a", &["player"], &[("href", "/user.html/5")], "bob", Some(row)));
        push(&mut e, el("td", &["replies"], &[], "4", Some(row)));
        push(&mut e, el("td", &["lastMessage"], &[], "1 02/03 04:05", Some(row)));
        if closed {
            push(&mut e, el("img", &["closed"], &[], "", Some(row)));
        }
    }
    e
}

#[test]
fn forum_theme_page_is_read() {
    let p = scrape_forum_theme(HammerfestServer::HammerfestFr, &HtmlDocument { elements: theme_page("2", "3") }).unwrap();
    assert_eq!(p.theme.id.as_str(), "2");
    assert_eq!(p.threads.page1, 2);
    assert_eq!(p.threads.pages, 3);
    assert_eq!(p.sticky.len(), 1);
    assert!(p.sticky[0].is_sticky);
    assert_eq!(p.sticky[0].short.id.as_str(), "100");
    assert_eq!(p.threads.items.len(), 2);
    assert!(p.threads.items[0].is_closed);
    assert!(!p.threads.items[1].is_closed);
    assert!(!p.threads.items[1].is_sticky);
    assert_eq!(p.threads.items[1].reply_count, 4);
    assert_eq!(p.threads.items[1].author.username.as_str(), "bob");
    assert_eq!(
        p.threads.items[0].last_message_date,
        HammerfestForumDate { month: 3, day: 2, weekday: 1, hour: 4, minute: 5 }
    );
}

#[test]
fn forum_theme_page_rejects_bad_pagination() {
    assert_eq!(
        scrape_forum_theme(HammerfestServer::HammerfestFr, &HtmlDocument { elements: theme_page("4", "3") }),
        Err(ScraperError::InvalidPagination)
    );
    assert_eq!(
        scrape_forum_theme(HammerfestServer::HammerfestFr, &HtmlDocument { elements: theme_page("0", "3") }),
        Err(ScraperError::InvalidPagination)
    );
}

#[test]
fn forum_thread_page_is_read() {
    let mut e = vec![el("html", &[], &[], "", None)];
    push(&mut e, el("a", &["currentTheme"], &[("href", "/forum.html/theme/2")], "Discussions", Some(0)));
    push(&mut e, el("span", &["currentThread"], &[], "Bonjour", Some(0)));
    push(&mut e, el("span", &["currentPage"], &[], "1", Some(0)));
    push(&mut e, el("span", &["pageCount"], &[], "1", Some(0)));
    let posts = push(&mut e, el("div", &["posts"], &[], "", Some(0)));
    let row = push(&mut e, el("div", &["post"], &[("data-id", "77")], "", Some(posts)));
    push(&mut e, el("a", &["player"], &[("href", "/user.html/5")], "bob", Some(row)));
    push(&mut e, el("span", &["rank"], &[], "3", Some(row)));
    push(&mut e, el("span", &["moderator"], &[], "", Some(row)));
    push(&mut e, el("img", &["carrot"], &[], "", Some(row)));
    push(&mut e, el("span", &["date"], &[], "7 31/12 23:59", Some(row)));
    push(&mut e, el("div", &["content"], &[], "Salut !", Some(row)));
    let row = push(&mut e, el("div", &["post"], &[], "", Some(posts)));
    push(&mut e, el("a", &["player"], &[("href", "/user.html/6")], "carol", Some(row)));
    push(&mut e, el("span", &["rank"], &[], "0", Some(row)));
    push(&mut e, el("span", &["date"], &[], "1 01/01 00:00", Some(row)));
    push(&mut e, el("div", &["content"], &[], "Bonne annee", Some(row)));
    let id = HammerfestForumThreadId::try_from_string(String::from("200")).unwrap();
    let p = scrape_forum_thread(HammerfestServer::HammerfestFr, &id, &HtmlDocument { elements: e }).unwrap();
    assert_eq!(p.thread.id, id);
    assert_eq!(p.thread.name, "Bonjour");
    assert_eq!(p.messages.items.len(), 2);
    let first = &p.messages.items[0];
    assert_eq!(first.id.as_ref().map(|i| i.as_str()), Some("77"));
    assert_eq!(first.author.role, HammerfestForumRole::Moderator);
    assert_eq!(first.author.rank, 3);
    assert!(first.author.has_carrot);
    assert_eq!(first.content, "Salut !");
    let second = &p.messages.items[1];
    assert_eq!(second.id, None);
    assert_eq!(second.author.role, HammerfestForumRole::Player);
    assert!(!second.author.has_carrot);
    assert_eq!(second.ctime, HammerfestForumDate { month: 1, day: 1, weekday: 1, hour: 0, minute: 0 });
}

#[test]
fn inventory_is_read_and_duplicates_rejected() {
    let base = |rows: &[(&str, &str)]| {
        let mut e = vec![el("html", &[], &[], "", None)];
        let bar = push(&mut e, el("div", &["topMainBar"], &[], "", Some(0)));
        push(&mut e, el("a", &["userName"], &[("href", "/user.html/127")], "alice", Some(bar)));
        let t = push(&mut e, el("table", &["inventory"], &[], "", Some(0)));
        for (id, count) in rows {
            let row = push(&mut e, el("tr", &["item"], &[("data-item", id)], "", Some(t)));
            push(&mut e, el("td", &["count"], &[], count, Some(row)));
        }
        HtmlDocument { elements: e }
    };
    let items = scrape_user_inventory(HammerfestServer::HammerfestFr, &base(&[("1000", "3"), ("0", "12")]))
        .unwrap()
        .unwrap();
    assert_eq!(items.len(), 2);
    assert_eq!(items[0].0.as_str(), "1000");
    assert_eq!(items[0].1, 3);
    assert_eq!(items[1].1, 12);
    assert_eq!(
        scrape_user_inventory(HammerfestServer::HammerfestFr, &base(&[("7", "1"), ("7", "2")])),
        Err(ScraperError::TooManyHtmlFragments(String::from("7")))
    );
}

#[test]
fn forum_urls_and_numbers() {
    let theme = HammerfestForumThemeId::try_from_string(String::from("2")).unwrap();
    let thread = HammerfestForumThreadId::try_from_string(String::from("474604")).unwrap();
    assert_eq!(forum_home_url(HammerfestServer::HammerfestFr), "http://www.hammerfest.fr/forum.html");
    assert_eq!(
        forum_theme_url(HammerfestServer::HfestNet, &theme, 3),
        "http://www.hfest.net/forum.html/theme/2?page=3"
    );
    assert_eq!(
        forum_thread_url(HammerfestServer::HammerfestEs, &thread, 12),
        "http://www.hammerfest.es/forum.html/thread/474604?page=12"
    );
    assert_eq!(inventory_url(HammerfestServer::HammerfestFr), "http://www.hammerfest.fr/inventory.html");
    assert_eq!(u32_to_text(0), "0");
    assert_eq!(u32_to_text(4294967295), "4294967295");
    assert_eq!(u32_to_text(1000), "1000");
}

#[test]
fn forum_pages_anchor_errors() {
    let mut two_authors = theme_page("1", "1");
    let row = two_authors.iter().position(|e| e.classes.iter().any(|c| c == "stickyThread")).unwrap();
    two_authors.push(el("a", &["player"], &[("href", "/user.html/9")], "eve", Some(row)));
    assert_eq!(
        scrape_forum_theme(HammerfestServer::HammerfestFr, &HtmlDocument { elements: two_authors }),
        Err(ScraperError::TooManyHtmlFragments(String::from("a.player")))
    );
    let mut two_themes = theme_page("1", "1");
    two_themes.push(el("a", &["currentTheme"], &[("href", "/forum.html/theme/3")], "Autre", Some(0)));
    assert_eq!(
        scrape_forum_theme(HammerfestServer::HammerfestFr, &HtmlDocument { elements: two_themes }),
        Err(ScraperError::TooManyHtmlFragments(String::from("a.currentTheme")))
    );
    let mut e = vec![el("html", &[], &[], "", None)];
    push(&mut e, el("a", &["currentTheme"], &[("href", "/forum.html/theme/2")], "Discussions", Some(0)));
    let id = HammerfestForumThreadId::try_from_string(String::from("200")).unwrap();
    assert_eq!(
        scrape_forum_thread(HammerfestServer::HammerfestFr, &id, &HtmlDocument { elements: e }),
        Err(ScraperError::HtmlFragmentNotFound(String::from("span.currentThread")))
    );
}
