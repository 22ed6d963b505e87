use vstd::prelude::*;
use crate::errors::ScraperError;
use crate::ids::{
    HammerfestForumThemeId, HammerfestForumThreadId, HammerfestItemId, HammerfestSessionKey,
    HammerfestUserId, HammerfestUsername,
};
use crate::mem::{find_short_user, is_account};
use crate::model::{
    HammerfestForumTheme, HammerfestForumThemePage, HammerfestForumThreadListing,
    HammerfestForumThreadPage, ShortHammerfestForumTheme, HammerfestCredentials, HammerfestGetProfileByIdOptions, HammerfestGodChild, HammerfestProfile,
    HammerfestSession, HammerfestShop, Instant, ShortHammerfestUser,
};
use crate::pattern::{is_lower_alnum, session_key_text};
use crate::server::HammerfestServer;
use crate::service::{ClientError, HammerfestClient};
use crate::text::str_eq;

verus! {

const KEY_ALPHABET: &'static str = "0123456789abcdefghijklmnopqrstuvwxyz";

/// Twenty-six base-36 digits of `n`, least significant first.
fn key_text(n: u64) -> (r: String)
    ensures
        session_key_text(r@),
{
    proof {
        reveal_strlit("0123456789abcdefghijklmnopqrstuvwxyz");
    }
    assert(KEY_ALPHABET@.len() == 36);
    assert forall|d: int| 0 <= d < 36 implies is_lower_alnum(#[trigger] KEY_ALPHABET@[d]) by {
        reveal_strlit("0123456789abcdefghijklmnopqrstuvwxyz");
    }
    let mut out = String::new();
    let mut rest: u64 = n;
    let mut k: usize = 0;
    while k < 26
        invariant
            k <= 26,
            out@.len() == k,
            KEY_ALPHABET@.len() == 36,
            forall|d: int| 0 <= d < 36 ==> is_lower_alnum(#[trigger] KEY_ALPHABET@[d]),
            forall|i: int| 0 <= i < out@.len() ==> is_lower_alnum(#[trigger] out@[i]),
        decreases 26 - k,
    {
        let d = (rest % 36) as usize;
        rest = rest / 36;
        let digit = KEY_ALPHABET.substring_char(d, d + 1);
        let ghost before = out@;
        out.append(digit);
        assert(out@ == before + digit@);
        assert forall|i: int| 0 <= i < out@.len() implies is_lower_alnum(#[trigger] out@[i]) by {
            if i >= before.len() {
                assert(out@[i] == KEY_ALPHABET@[d as int]);
            } else {
                assert(out@[i] == before[i]);
            }
        }
        k = k + 1;
    }
    out
}

/// A pre-seeded account of the in-memory client.
pub struct MemHammerfestAccount {
    pub user: ShortHammerfestUser,
    pub password: String,
    pub best_score: u32,
    pub best_level: u32,
    pub season_score: u32,
    pub rank: u8,
    pub has_carrot: bool,
    pub shop: HammerfestShop,
    pub god_children: Vec<HammerfestGodChild>,
    pub items: Vec<(HammerfestItemId, u32)>,
}

/// A client over a local table of accounts, for use without a network. Time
/// is whatever `set_time` last set.
pub struct MemHammerfestClient {
    now: Instant,
    accounts: Vec<MemHammerfestAccount>,
    sessions: Vec<HammerfestSession>,
    minted: u64,
    themes: Vec<HammerfestForumTheme>,
    threads: Vec<HammerfestForumThreadPage>,
}

pub open spec fn credentials_match(a: MemHammerfestAccount, c: HammerfestCredentials) -> bool {
    a.user.server == c.server && a.user.username@ == c.username@ && a.password@ == c.password@
}

pub open spec fn session_matches(s: HammerfestSession, server: HammerfestServer, key: Seq<char>) -> bool {
    s.user.server == server && s.key@ == key
}

impl MemHammerfestClient {
    pub fn new(now: Instant) -> (r: Self)
        ensures
            r.time() == now,
            r.accounts().len() == 0,
            r.sessions().len() == 0,
    {
        MemHammerfestClient { now, accounts: Vec::new(), sessions: Vec::new(), minted: 0, themes: Vec::new(), threads: Vec::new() }
    }

    pub closed spec fn time(&self) -> Instant {
        self.now
    }

    pub closed spec fn accounts(&self) -> Seq<MemHammerfestAccount> {
        self.accounts@
    }

    pub closed spec fn sessions(&self) -> Seq<HammerfestSession> {
        self.sessions@
    }

    pub fn set_time(&mut self, now: Instant)
        ensures
            final(self).time() == now,
            final(self).accounts() == old(self).accounts(),
            final(self).sessions() == old(self).sessions(),
    {
        self.now = now;
    }

    /// Adds an account to the table.
    pub fn create_user(&mut self, account: MemHammerfestAccount)
        ensures
            final(self).accounts() == old(self).accounts().push(account),
            final(self).sessions() == old(self).sessions(),
            final(self).time() == old(self).time(),
    {
        self.accounts.push(account);
    }

    /// Adds a forum theme; its pages list no thread.
    pub fn create_forum_theme(&mut self, theme: HammerfestForumTheme)
        ensures
            final(self).accounts() == old(self).accounts(),
            final(self).sessions() == old(self).sessions(),
            final(self).time() == old(self).time(),
    {
        self.themes.push(theme);
    }

    /// Adds a forum thread, served as its only page.
    pub fn create_forum_thread(&mut self, page: HammerfestForumThreadPage)
        ensures
            final(self).accounts() == old(self).accounts(),
            final(self).sessions() == old(self).sessions(),
            final(self).time() == old(self).time(),
    {
        self.threads.push(page);
    }

    fn find_thread(&self, server: HammerfestServer, id: &HammerfestForumThreadId) -> (r: Option<usize>)
        ensures
            r matches Some(i) ==> i < self.threads@.len() && self.threads@[i as int].thread.server == server
                && self.threads@[i as int].thread.id@ == id@,
    {
        let mut k: usize = 0;
        while k < self.threads.len()
            invariant
                k <= self.threads@.len(),
            decreases self.threads@.len() - k,
        {
            if self.threads[k].thread.server == server && str_eq(self.threads[k].thread.id.as_str(), id.as_str()) {
                return Some(k);
            }
            k = k + 1;
        }
        None
    }

    /// The theme with this id on this mirror, if any.
    fn find_theme(&self, server: HammerfestServer, id: &HammerfestForumThemeId) -> (r: Option<usize>)
        ensures
            r matches Some(i) ==> i < self.themes@.len() && self.themes@[i as int].short.server == server
                && self.themes@[i as int].short.id@ == id@,
    {
        let mut k: usize = 0;
        while k < self.themes.len()
            invariant
                k <= self.themes@.len(),
            decreases self.themes@.len() - k,
        {
            if self.themes[k].short.server == server && str_eq(self.themes[k].short.id.as_str(), id.as_str()) {
                return Some(k);
            }
            k = k + 1;
        }
        None
    }

    fn find_by_credentials(&self, c: &HammerfestCredentials) -> (r: Option<usize>)
        ensures
            r matches Some(i) ==> i < self.accounts().len() && credentials_match(self.accounts()[i as int], *c),
            r is None ==> forall|j: int| 0 <= j < self.accounts().len() ==> !credentials_match(#[trigger] self.accounts()[j], *c),
    {
        let mut k: usize = 0;
        while k < self.accounts.len()
            invariant
                k <= self.accounts@.len(),
                forall|j: int| 0 <= j < k ==> !credentials_match(#[trigger] self.accounts@[j], *c),
            decreases self.accounts@.len() - k,
        {
            let a = &self.accounts[k];
            if a.user.server == c.server && str_eq(a.user.username.as_str(), c.username.as_str()) && str_eq(
                a.password.as_str(),
                c.password.as_str(),
            ) {
                return Some(k);
            }
            k = k + 1;
        }
        None
    }

    fn find_account(&self, server: HammerfestServer, id: &HammerfestUserId) -> (r: Option<usize>)
        ensures
            r matches Some(i) ==> i < self.accounts().len() && is_account(self.accounts()[i as int].user, server, id@),
            r is None ==> forall|j: int| 0 <= j < self.accounts().len() ==> !is_account(#[trigger] self.accounts()[j].user, server, id@),
    {
        let mut k: usize = 0;
        while k < self.accounts.len()
            invariant
                k <= self.accounts@.len(),
                forall|j: int| 0 <= j < k ==> !is_account(#[trigger] self.accounts@[j].user, server, id@),
            decreases self.accounts@.len() - k,
        {
            if self.accounts[k].user.server == server && str_eq(self.accounts[k].user.id.as_str(), id.as_str()) {
                return Some(k);
            }
            k = k + 1;
        }
        None
    }

    fn find_session(&self, server: HammerfestServer, key: &HammerfestSessionKey) -> (r: Option<usize>)
        ensures
            r matches Some(i) ==> i < self.sessions().len() && session_matches(self.sessions()[i as int], server, key@),
            r is None ==> forall|j: int| 0 <= j < self.sessions().len() ==> !session_matches(#[trigger] self.sessions()[j], server, key@),
    {
        let mut k: usize = 0;
        while k < self.sessions.len()
            invariant
                k <= self.sessions@.len(),
                forall|j: int| 0 <= j < k ==> !session_matches(#[trigger] self.sessions@[j], server, key@),
            decreases self.sessions@.len() - k,
        {
            if self.sessions[k].user.server == server && str_eq(self.sessions[k].key.as_str(), key.as_str()) {
                return Some(k);
            }
            k = k + 1;
        }
        None
    }

    /// Logs in: with the credentials of an account of the table, a new session
    /// for it; with any others, the invalid-credentials error.
    pub fn login(&mut self, c: &HammerfestCredentials) -> (r: Result<HammerfestSession, ScraperError>)
        ensures
            final(self).accounts() == old(self).accounts(),
            r matches Ok(s) ==> exists|i: int|
                0 <= i < old(self).accounts().len() && credentials_match(#[trigger] old(self).accounts()[i], *c)
                    && s.user == old(self).accounts()[i].user,
            r matches Ok(s) ==> s.ctime == old(self).time() && s.atime == old(self).time()
                && final(self).sessions() == old(self).sessions().push(s),
            r is Err ==> r == Err::<HammerfestSession, ScraperError>(ScraperError::InvalidCredentials(c.server, c.username))
                && final(self).sessions() == old(self).sessions(),
            r is Err <==> forall|i: int| 0 <= i < old(self).accounts().len() ==> !credentials_match(#[trigger] old(self).accounts()[i], *c),
    {
        match self.find_by_credentials(c) {
            None => Err(ScraperError::InvalidCredentials(c.server, c.username.clone())),
            Some(i) => {
                let text = key_text(self.minted);
                let key = match HammerfestSessionKey::try_from_string(text) {
                    Ok(k) => k,
                    Err(_) => {
                        assert(false);
                        return Err(ScraperError::InvalidCredentials(c.server, c.username.clone()));
                    },
                };
                self.minted = self.minted.wrapping_add(1);
                let session = HammerfestSession {
                    ctime: self.now,
                    atime: self.now,
                    key,
                    user: self.accounts[i].user.clone(),
                };
                self.sessions.push(session.clone());
                Ok(session)
            },
        }
    }

    /// Checks a token: the session it was minted for, seen now, or `None`.
    pub fn check_session(&self, server: HammerfestServer, key: &HammerfestSessionKey) -> (r: Option<HammerfestSession>)
        ensures
            r matches Some(s) ==> s.key == *key && s.atime == self.time() && exists|i: int|
                0 <= i < self.sessions().len() && session_matches(#[trigger] self.sessions()[i], server, key@)
                    && s.user == self.sessions()[i].user && s.ctime == self.sessions()[i].ctime,
            r is None <==> forall|i: int| 0 <= i < self.sessions().len() ==> !session_matches(#[trigger] self.sessions()[i], server, key@),
    {
        match self.find_session(server, key) {
            Some(i) => Some(
                HammerfestSession {
                    ctime: self.sessions[i].ctime,
                    atime: self.now,
                    key: key.clone(),
                    user: self.sessions[i].user.clone(),
                },
            ),
            None => None,
        }
    }

    /// The public profile of an account of the table, or `None`.
    pub fn profile(&self, server: HammerfestServer, id: &HammerfestUserId) -> (r: Option<HammerfestProfile>)
        ensures
            r matches Some(p) ==> is_account(p.user, server, id@) && exists|i: int|
                0 <= i < self.accounts().len() && #[trigger] self.accounts()[i].user == p.user
                    && p.best_score == self.accounts()[i].best_score
                    && p.best_level == self.accounts()[i].best_level
                    && p.season_score == self.accounts()[i].season_score
                    && p.rank == self.accounts()[i].rank
                    && p.has_carrot == self.accounts()[i].has_carrot
                    && p.email is None && p.hall_of_fame is None && p.quests@.len() == 0
                    && p.items@.len() == self.accounts()[i].items@.len() && forall|k: int|
                    0 <= k < p.items@.len() ==> #[trigger] p.items@[k] == self.accounts()[i].items@[k].0,
            r is None <==> forall|j: int| 0 <= j < self.accounts().len() ==> !is_account(#[trigger] self.accounts()[j].user, server, id@),
    {
        match self.find_account(server, id) {
            Some(i) => {
                let a = &self.accounts[i];
                let mut items: Vec<HammerfestItemId> = Vec::new();
                let mut k: usize = 0;
                while k < a.items.len()
                    invariant
                        k <= a.items@.len(),
                        items@.len() == k,
                        forall|m: int| 0 <= m < k ==> #[trigger] items@[m] == a.items@[m].0,
                    decreases a.items@.len() - k,
                {
                    items.push(a.items[k].0.clone());
                    k = k + 1;
                }
                Some(
                    HammerfestProfile {
                        user: a.user.clone(),
                        email: None,
                        best_score: a.best_score,
                        best_level: a.best_level,
                        has_carrot: a.has_carrot,
                        season_score: a.season_score,
                        rank: a.rank,
                        hall_of_fame: None,
                        items,
                        quests: Vec::new(),
                    },
                )
            },
            None => None,
        }
    }

    /// Account `i` holds the session that `session` presents: one minted by
    /// this client on the same mirror under the same token.
    pub open spec fn owns_session(&self, session: HammerfestSession, i: int) -> bool {
        &&& 0 <= i < self.accounts().len()
        &&& exists|k: int|
            0 <= k < self.sessions().len() && session_matches(#[trigger] self.sessions()[k], session.user.server, session.key@)
                && is_account(self.accounts()[i].user, self.sessions()[k].user.server, self.sessions()[k].user.id@)
    }

    pub closed spec fn themes(&self) -> Seq<HammerfestForumTheme> {
        self.themes@
    }

    pub closed spec fn threads(&self) -> Seq<HammerfestForumThreadPage> {
        self.threads@
    }

    /// The account that holds `session`; an unknown token is an invalid session.
    fn session_account(&self, session: &HammerfestSession) -> (r: Result<usize, ClientError>)
        ensures
            r matches Ok(i) ==> self.owns_session(*session, i as int),
            r is Err ==> r == Err::<usize, ClientError>(ClientError::Scraper(ScraperError::InvalidSessionCookie)),
            (forall|k: int| 0 <= k < self.sessions().len() ==> !session_matches(#[trigger] self.sessions()[k], session.user.server, session.key@))
                ==> r is Err,
    {
        match self.find_session(session.user.server, &session.key) {
            None => Err(ClientError::Scraper(ScraperError::InvalidSessionCookie)),
            Some(s) => match self.find_account(self.sessions[s].user.server, &self.sessions[s].user.id) {
                Some(i) => Ok(i),
                None => Err(ClientError::Scraper(ScraperError::InvalidSessionCookie)),
            },
        }
    }

    /// The items of the account holding `session`.
    pub fn own_items(&self, session: &HammerfestSession) -> (r: Result<Vec<(HammerfestItemId, u32)>, ClientError>)
        ensures
            r matches Ok(v) ==> exists|i: int| #[trigger] self.owns_session(*session, i) && v@ == self.accounts()[i].items@,
            r is Err ==> r == Err::<Vec<(HammerfestItemId, u32)>, ClientError>(ClientError::Scraper(ScraperError::InvalidSessionCookie)),
    {
        let i = match self.session_account(session) {
            Ok(i) => i,
            Err(e) => {
                return Err(e);
            },
        };
        let items = &self.accounts[i].items;
        let mut out: Vec<(HammerfestItemId, u32)> = Vec::new();
        let mut k: usize = 0;
        while k < items.len()
            invariant
                k <= items@.len(),
                out@ == items@.subrange(0, k as int),
            decreases items@.len() - k,
        {
            out.push((items[k].0.clone(), items[k].1));
            k = k + 1;
        }
        assert(items@.subrange(0, k as int) == items@);
        assert(self.owns_session(*session, i as int));
        Ok(out)
    }

    /// The god children of the account holding `session`.
    pub fn own_god_children(&self, session: &HammerfestSession) -> (r: Result<Vec<HammerfestGodChild>, ClientError>)
        ensures
            r matches Ok(v) ==> exists|i: int| #[trigger] self.owns_session(*session, i) && v@ == self.accounts()[i].god_children@,
            r is Err ==> r == Err::<Vec<HammerfestGodChild>, ClientError>(ClientError::Scraper(ScraperError::InvalidSessionCookie)),
    {
        let i = match self.session_account(session) {
            Ok(i) => i,
            Err(e) => {
                return Err(e);
            },
        };
        let children = &self.accounts[i].god_children;
        let mut out: Vec<HammerfestGodChild> = Vec::new();
        let mut k: usize = 0;
        while k < children.len()
            invariant
                k <= children@.len(),
                out@ == children@.subrange(0, k as int),
            decreases children@.len() - k,
        {
            out.push(children[k].clone());
            k = k + 1;
        }
        assert(children@.subrange(0, k as int) == children@);
        assert(self.owns_session(*session, i as int));
        Ok(out)
    }

    /// The shop of the account holding `session`.
    pub fn own_shop(&self, session: &HammerfestSession) -> (r: Result<HammerfestShop, ClientError>)
        ensures
            r matches Ok(shop) ==> exists|i: int| #[trigger] self.owns_session(*session, i) && shop == self.accounts()[i].shop,
            r is Err ==> r == Err::<HammerfestShop, ClientError>(ClientError::Scraper(ScraperError::InvalidSessionCookie)),
    {
        match self.session_account(session) {
            Ok(i) => {
                assert(self.owns_session(*session, i as int));
                Ok(self.accounts[i].shop)
            },
            Err(e) => Err(e),
        }
    }

    /// The themes of `server`, in the order they were added.
    pub fn forum_themes(&self, server: HammerfestServer) -> (r: Vec<HammerfestForumTheme>)
        ensures
            forall|k: int| 0 <= k < r@.len() ==> (#[trigger] r@[k]).short.server == server && self.themes().contains(r@[k]),
            forall|j: int|
                0 <= j < self.themes().len() && (#[trigger] self.themes()[j]).short.server == server ==> r@.contains(
                    self.themes()[j],
                ),
    {
        let mut out: Vec<HammerfestForumTheme> = Vec::new();
        let mut k: usize = 0;
        while k < self.themes.len()
            invariant
                k <= self.themes@.len(),
                forall|m: int| 0 <= m < out@.len() ==> (#[trigger] out@[m]).short.server == server && self.themes@.contains(out@[m]),
                forall|j: int| 0 <= j < k && (#[trigger] self.themes@[j]).short.server == server ==> out@.contains(self.themes@[j]),
            decreases self.themes@.len() - k,
        {
            if self.themes[k].short.server == server {
                let ghost before = out@;
                out.push(self.themes[k].clone());
                proof {
                    assert(out@[before.len() as int] == self.themes@[k as int]);
                    assert forall|j: int| 0 <= j < k + 1 && (#[trigger] self.themes@[j]).short.server == server implies out@.contains(
                        self.themes@[j],
                    ) by {
                        if j < k {
                            let w = choose|w: int| 0 <= w < before.len() && before[w] == self.themes@[j];
                            assert(out@[w] == self.themes@[j]);
                        }
                    }
                    assert forall|m: int| 0 <= m < out@.len() implies (#[trigger] out@[m]).short.server == server && self.themes@.contains(out@[m]) by {
                        if m == before.len() {
                            assert(self.themes@[k as int] == out@[m]);
                        } else {
                            assert(out@[m] == before[m]);
                        }
                    }
                }
            }
            k = k + 1;
        }
        out
    }

    /// The only page of a stored theme: its threads are not stored, so it
    /// lists none.
    pub fn forum_theme_page(&self, server: HammerfestServer, theme_id: &HammerfestForumThemeId, page1: u32) -> (r:
        Result<HammerfestForumThemePage, ClientError>)
        ensures
            r matches Ok(p) ==> page1 == 1 && p.threads.page1 == 1 && p.threads.pages == 1 && p.threads.items@.len() == 0
                && p.sticky@.len() == 0 && exists|i: int|
                0 <= i < self.themes().len() && #[trigger] self.themes()[i].short == p.theme && p.theme.server == server
                    && p.theme.id@ == theme_id@,
            r matches Err(e) ==> e == ClientError::Scraper(ScraperError::InvalidPagination) || e == ClientError::Scraper(
                ScraperError::HtmlFragmentNotFound(e->Scraper_0->HtmlFragmentNotFound_0),
            ),
    {
        match self.find_theme(server, theme_id) {
            Some(i) if page1 == 1 => {
                let p = HammerfestForumThemePage {
                    theme: self.themes[i].short.clone(),
                    sticky: Vec::new(),
                    threads: HammerfestForumThreadListing { page1: 1, pages: 1, items: Vec::new() },
                };
                assert(self.themes()[i as int].short == p.theme);
                Ok(p)
            },
            Some(_) => Err(ClientError::Scraper(ScraperError::InvalidPagination)),
            None => Err(ClientError::Scraper(ScraperError::HtmlFragmentNotFound(String::from_str("a.currentTheme")))),
        }
    }

    /// The only page of a stored thread, as it was stored.
    pub fn forum_thread_page(&self, server: HammerfestServer, thread_id: &HammerfestForumThreadId, page1: u32) -> (r:
        Result<HammerfestForumThreadPage, ClientError>)
        ensures
            r matches Ok(p) ==> page1 == 1 && p.thread.server == server && p.thread.id@ == thread_id@ && exists|i: int|
                0 <= i < self.threads().len() && #[trigger] self.threads()[i].thread == p.thread && self.threads()[i].theme
                    == p.theme && self.threads()[i].messages.items@ == p.messages.items@ && self.threads()[i].messages.page1
                    == p.messages.page1 && self.threads()[i].messages.pages == p.messages.pages,
            r matches Err(e) ==> e == ClientError::Scraper(ScraperError::InvalidPagination) || e == ClientError::Scraper(
                ScraperError::HtmlFragmentNotFound(e->Scraper_0->HtmlFragmentNotFound_0),
            ),
    {
        match self.find_thread(server, thread_id) {
            Some(i) if page1 == 1 => {
                let p = self.threads[i].clone();
                assert(self.threads()[i as int].thread == p.thread);
                Ok(p)
            },
            Some(_) => Err(ClientError::Scraper(ScraperError::InvalidPagination)),
            None => Err(ClientError::Scraper(ScraperError::HtmlFragmentNotFound(String::from_str("a.currentTheme")))),
        }
    }
}

impl Clone for HammerfestGodChild {
    fn clone(&self) -> (r: Self)
        ensures
            r == *self,
    {
        HammerfestGodChild { user: self.user.clone(), tokens: self.tokens }
    }
}

impl HammerfestClient for MemHammerfestClient {
    fn create_session(&mut self, options: &HammerfestCredentials) -> Result<HammerfestSession, ClientError> {
        match self.login(options) {
            Ok(s) => Ok(s),
            Err(e) => Err(ClientError::Scraper(e)),
        }
    }

    fn test_session(&mut self, server: HammerfestServer, key: &HammerfestSessionKey) -> Result<
        Option<HammerfestSession>,
        ClientError,
    > {
        Ok(self.check_session(server, key))
    }

    fn get_profile_by_id(
        &mut self,
        session: Option<&HammerfestSession>,
        options: &HammerfestGetProfileByIdOptions,
    ) -> Result<Option<HammerfestProfile>, ClientError> {
        Ok(self.profile(options.server, &options.user_id))
    }

    fn get_own_items(&mut self, session: &HammerfestSession) -> Result<Vec<(HammerfestItemId, u32)>, ClientError> {
        self.own_items(session)
    }

    fn get_own_god_children(&mut self, session: &HammerfestSession) -> Result<Vec<HammerfestGodChild>, ClientError> {
        self.own_god_children(session)
    }

    fn get_own_shop(&mut self, session: &HammerfestSession) -> Result<HammerfestShop, ClientError> {
        self.own_shop(session)
    }

    fn get_forum_themes(&mut self, session: Option<&HammerfestSession>, server: HammerfestServer) -> Result<
        Vec<HammerfestForumTheme>,
        ClientError,
    > {
        Ok(self.forum_themes(server))
    }

    fn get_forum_theme_page(
        &mut self,
        session: Option<&HammerfestSession>,
        server: HammerfestServer,
        theme_id: &HammerfestForumThemeId,
        page1: u32,
    ) -> Result<HammerfestForumThemePage, ClientError> {
        self.forum_theme_page(server, theme_id, page1)
    }

    fn get_forum_thread_page(
        &mut self,
        session: Option<&HammerfestSession>,
        server: HammerfestServer,
        thread_id: &HammerfestForumThreadId,
        page1: u32,
    ) -> Result<HammerfestForumThreadPage, ClientError> {
        self.forum_thread_page(server, thread_id, page1)
    }
}

} // verus!
