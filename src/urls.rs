use vstd::prelude::*;
use crate::forum::{THEME_PATH, THREAD_PATH};
use crate::ids::{HammerfestForumThemeId, HammerfestForumThreadId, HammerfestUserId};
use crate::scrape::USER_PATH;
use crate::server::{server_text, HammerfestServer};
use crate::text::{decimal_text, u32_to_text};

verus! {

pub const ORIGIN_PREFIX: &'static str = "http://www.";

pub const LOGIN_PATH: &'static str = "/login.html";

pub const SHOP_PATH: &'static str = "/shop.html";

pub const GOD_CHILDREN_PATH: &'static str = "/godChildren.html";

pub const INVENTORY_PATH: &'static str = "/inventory.html";

/// `http://www.` followed by the mirror's domain name.
pub open spec fn origin_spec(server: HammerfestServer) -> Seq<char> {
    ORIGIN_PREFIX@ + server_text(server)
}

/// The URL of `path` on the mirror `server`.
pub fn page_url(server: HammerfestServer, path: &str) -> (r: String)
    ensures
        r@ == origin_spec(server) + path@,
{
    String::from_str(ORIGIN_PREFIX).concat(server.as_str()).concat(path)
}

pub fn root_url(server: HammerfestServer) -> (r: String)
    ensures
        r@ == origin_spec(server) + "/"@,
{
    page_url(server, "/")
}

pub fn login_url(server: HammerfestServer) -> (r: String)
    ensures
        r@ == origin_spec(server) + LOGIN_PATH@,
{
    page_url(server, LOGIN_PATH)
}

pub fn shop_url(server: HammerfestServer) -> (r: String)
    ensures
        r@ == origin_spec(server) + SHOP_PATH@,
{
    page_url(server, SHOP_PATH)
}

pub fn god_children_url(server: HammerfestServer) -> (r: String)
    ensures
        r@ == origin_spec(server) + GOD_CHILDREN_PATH@,
{
    page_url(server, GOD_CHILDREN_PATH)
}

pub fn inventory_url(server: HammerfestServer) -> (r: String)
    ensures
        r@ == origin_spec(server) + INVENTORY_PATH@,
{
    page_url(server, INVENTORY_PATH)
}

/// The profile page of player `id`. The id's shape makes escaping needless.
pub fn user_url(server: HammerfestServer, id: &HammerfestUserId) -> (r: String)
    ensures
        r@ == origin_spec(server) + USER_PATH@ + id@,
{
    page_url(server, USER_PATH).concat(id.as_str())
}

pub const FORUM_PATH: &'static str = "/forum.html";

pub const PAGE_QUERY: &'static str = "?page=";

pub fn forum_home_url(server: HammerfestServer) -> (r: String)
    ensures
        r@ == origin_spec(server) + FORUM_PATH@,
{
    page_url(server, FORUM_PATH)
}

/// Page `page1` (counted from one) of forum theme `id`.
pub fn forum_theme_url(server: HammerfestServer, id: &HammerfestForumThemeId, page1: u32) -> (r: String)
    ensures
        r@ == origin_spec(server) + THEME_PATH@ + id@ + PAGE_QUERY@ + decimal_text(page1 as nat),
{
    let page = u32_to_text(page1);
    page_url(server, THEME_PATH).concat(id.as_str()).concat(PAGE_QUERY).concat(page.as_str())
}

/// Page `page1` (counted from one) of forum thread `id`.
pub fn forum_thread_url(server: HammerfestServer, id: &HammerfestForumThreadId, page1: u32) -> (r: String)
    ensures
        r@ == origin_spec(server) + THREAD_PATH@ + id@ + PAGE_QUERY@ + decimal_text(page1 as nat),
{
    let page = u32_to_text(page1);
    page_url(server, THREAD_PATH).concat(id.as_str()).concat(PAGE_QUERY).concat(page.as_str())
}

} // verus!
