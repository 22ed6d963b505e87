use etwin_hammerfest::ids::{
    HammerfestForumThemeId, HammerfestForumThreadId, HammerfestItemId, HammerfestSessionKey, HammerfestUserId,
    HammerfestUsername,
};
use etwin_hammerfest::link::{HammerfestUserIdRef, LinkError, RawLink, ShortUser, UserId, VersionedLink};
use etwin_hammerfest::mem::{MemHammerfestStore, MemLinkStore, MemUserStore};
use etwin_hammerfest::mem_client::{MemHammerfestAccount, MemHammerfestClient};
use etwin_hammerfest::model::{
    HammerfestForumPostListing, ShortHammerfestForumThread, HammerfestForumTheme, HammerfestForumThemePage, HammerfestForumThreadPage, ShortHammerfestForumTheme,
    GetHammerfestUserOptions, HammerfestCredentials, HammerfestGetProfileByIdOptions, HammerfestGodChild,
    HammerfestProfile, HammerfestSession, HammerfestShop, Instant, ShortHammerfestUser,
};
use etwin_hammerfest::errors::ScraperError;
use etwin_hammerfest::server::HammerfestServer;
use etwin_hammerfest::service::{
    ClientError, HammerfestClient, HammerfestService, HammerfestServiceError, HammerfestStore, StoreError,
};

fn user(id: &str, name: &str) -> ShortHammerfestUser {
    ShortHammerfestUser {
        server: HammerfestServer::HammerfestFr,
        id: HammerfestUserId::try_from_string(String::from(id)).unwrap(),
        username: HammerfestUsername::try_from_string(String::from(name)).unwrap(),
    }
}

fn options(id: &str) -> GetHammerfestUserOptions {
    GetHammerfestUserOptions {
        server: HammerfestServer::HammerfestFr,
        id: HammerfestUserId::try_from_string(String::from(id)).unwrap(),
        time: None,
    }
}

fn account(id: &str, name: &str, password: &str) -> MemHammerfestAccount {
    MemHammerfestAccount {
        user: user(id, name),
        password: String::from(password),
        best_score: 100,
        best_level: 5,
        season_score: 10,
        rank: 1,
        has_carrot: false,
        shop: HammerfestShop { tokens: 4, weekly_tokens: 1, purchased_tokens: Some(2), has_quest_bonus: false },
        god_children: vec![HammerfestGodChild { user: user("9", "kid"), tokens: 3 }],
        items: vec![(HammerfestItemId::try_from_string(String::from("1000")).unwrap(), 2)],
    }
}

/// A client that counts its profile requests.
struct CountingClient {
    inner: MemHammerfestClient,
    profile_calls: u32,
}

impl HammerfestClient for CountingClient {
    fn create_session(&mut self, options: &HammerfestCredentials) -> Result<HammerfestSession, ClientError> {
        self.inner.create_session(options)
    }

    fn test_session(
        &mut self,
        server: HammerfestServer,
        key: &HammerfestSessionKey,
    ) -> Result<Option<HammerfestSession>, ClientError> {
        self.inner.test_session(server, key)
    }

    fn get_profile_by_id(
        &mut self,
        session: Option<&HammerfestSession>,
        options: &HammerfestGetProfileByIdOptions,
    ) -> Result<Option<HammerfestProfile>, ClientError> {
        self.profile_calls += 1;
        self.inner.get_profile_by_id(session, options)
    }

    fn get_own_items(&mut self, session: &HammerfestSession) -> Result<Vec<(HammerfestItemId, u32)>, ClientError> {
        self.inner.get_own_items(session)
    }

    fn get_own_god_children(&mut self, session: &HammerfestSession) -> Result<Vec<HammerfestGodChild>, ClientError> {
        self.inner.get_own_god_children(session)
    }

    fn get_forum_themes(
        &mut self,
        session: Option<&HammerfestSession>,
        server: HammerfestServer,
    ) -> Result<Vec<HammerfestForumTheme>, ClientError> {
        self.inner.get_forum_themes(session, server)
    }

    fn get_forum_theme_page(
        &mut self,
        session: Option<&HammerfestSession>,
        server: HammerfestServer,
        theme_id: &HammerfestForumThemeId,
        page1: u32,
    ) -> Result<HammerfestForumThemePage, ClientError> {
        self.inner.get_forum_theme_page(session, server, theme_id, page1)
    }

    fn get_forum_thread_page(
        &mut self,
        session: Option<&HammerfestSession>,
        server: HammerfestServer,
        thread_id: &HammerfestForumThreadId,
        page1: u32,
    ) -> Result<HammerfestForumThreadPage, ClientError> {
        self.inner.get_forum_thread_page(session, server, thread_id, page1)
    }

    fn get_own_shop(&mut self, session: &HammerfestSession) -> Result<HammerfestShop, ClientError> {
        self.inner.get_own_shop(session)
    }
}

/// A store that counts its writes.
struct CountingStore {
    inner: MemHammerfestStore,
    touches: u32,
}

impl HammerfestStore for CountingStore {
    fn get_short_user(&mut self, options: &GetHammerfestUserOptions) -> Result<Option<ShortHammerfestUser>, StoreError> {
        self.inner.get_short_user(options)
    }

    fn touch_short_user(&mut self, user: &ShortHammerfestUser) -> Result<ShortHammerfestUser, StoreError> {
        self.touches += 1;
        self.inner.touch_short_user(user)
    }
}

fn service(
    remote_accounts: Vec<MemHammerfestAccount>,
    stored: Vec<ShortHammerfestUser>,
) -> HammerfestService<CountingClient, CountingStore, MemLinkStore, MemUserStore> {
    let mut client = MemHammerfestClient::new(Instant { millis: 0 });
    for a in remote_accounts {
        client.create_user(a);
    }
    let mut store = MemHammerfestStore::new();
    for u in stored {
        store.touch(&u);
    }
    HammerfestService::new(
        CountingClient { inner: client, profile_calls: 0 },
        CountingStore { inner: store, touches: 0 },
        MemLinkStore::new(),
        MemUserStore { users: vec![] },
    )
}

#[test]
fn get_user_absent_everywhere_is_none() {
    let mut s = service(vec![], vec![]);
    assert_eq!(s.get_user(&options("127")), Ok(None));
    assert_eq!(s.hammerfest_client.profile_calls, 1);
    assert_eq!(s.hammerfest_store.touches, 0);
}

#[test]
fn get_user_remote_only_touches_once() {
    let mut s = service(vec![account("127", "alice", "pw")], vec![]);
    let found = s.get_user(&options("127")).unwrap().unwrap();
    assert_eq!(found.username.as_str(), "alice");
    assert_eq!(found.etwin.current, None);
    assert_eq!(s.hammerfest_client.profile_calls, 1);
    assert_eq!(s.hammerfest_store.touches, 1);
    assert_eq!(s.hammerfest_store.inner.get(HammerfestServer::HammerfestFr, &found.id), Some(user("127", "alice")));
}

#[test]
fn get_user_stored_makes_no_remote_call() {
    let mut s = service(vec![account("127", "alice", "pw")], vec![user("127", "alice")]);
    let found = s.get_user(&options("127")).unwrap().unwrap();
    assert_eq!(found.username.as_str(), "alice");
    assert_eq!(s.hammerfest_client.profile_calls, 0);
    assert_eq!(s.hammerfest_store.touches, 0);
}

#[test]
fn get_user_resolves_link_and_reports_missing_users() {
    let mut s = service(vec![], vec![user("127", "alice")]);
    let mut link = VersionedLink::empty();
    let remote = HammerfestUserIdRef {
        server: HammerfestServer::HammerfestFr,
        id: HammerfestUserId::try_from_string(String::from("127")).unwrap(),
    };
    link.bind(RawLink {
        remote: remote.clone(),
        etwin: UserId { uuid: String::from("u-1") },
        bound_by: UserId { uuid: String::from("u-1") },
        bound_time: Instant { millis: 77 },
    })
    .unwrap();
    s.link_store.set(remote, link);
    assert_eq!(
        s.get_user(&options("127")),
        Err(HammerfestServiceError::Link(LinkError::MissingUser(UserId { uuid: String::from("u-1") })))
    );
    s.user_store.users.push(ShortUser { id: UserId { uuid: String::from("u-1") }, display_name: String::from("Alice") });
    let found = s.get_user(&options("127")).unwrap().unwrap();
    let current = found.etwin.current.unwrap();
    assert_eq!(current.bound_time, Instant { millis: 77 });
    assert_eq!(current.etwin.display_name, "Alice");
}

#[test]
fn touch_replaces_username_and_keeps_id() {
    let mut store = MemHammerfestStore::new();
    store.touch(&user("127", "alice"));
    store.touch(&user("128", "bob"));
    let back = store.touch(&user("127", "alice2"));
    assert_eq!(back, user("127", "alice2"));
    let id = HammerfestUserId::try_from_string(String::from("127")).unwrap();
    assert_eq!(store.get(HammerfestServer::HammerfestFr, &id), Some(user("127", "alice2")));
    assert!(store.check_one_record_per_account());
}

#[test]
fn mem_client_sessions() {
    let mut client = MemHammerfestClient::new(Instant { millis: 10 });
    client.create_user(account("127", "alice", "secret"));
    let good = HammerfestCredentials {
        server: HammerfestServer::HammerfestFr,
        username: HammerfestUsername::try_from_string(String::from("alice")).unwrap(),
        password: String::from("secret"),
    };
    let bad = HammerfestCredentials { password: String::from("nope"), ..good.clone() };
    assert_eq!(
        client.create_session(&bad),
        Err(ClientError::Scraper(ScraperError::InvalidCredentials(HammerfestServer::HammerfestFr, good.username.clone())))
    );
    let session = client.create_session(&good).unwrap();
    assert_eq!(session.user, user("127", "alice"));
    assert_eq!(session.ctime, Instant { millis: 10 });
    let second = client.create_session(&good).unwrap();
    assert_ne!(second.key, session.key);
    client.set_time(Instant { millis: 20 });
    let again = client.test_session(HammerfestServer::HammerfestFr, &session.key).unwrap().unwrap();
    assert_eq!(again.key, session.key);
    assert_eq!(again.user.id, session.user.id);
    assert_eq!(again.ctime, Instant { millis: 10 });
    assert_eq!(again.atime, Instant { millis: 20 });
    let unknown = HammerfestSessionKey::try_from_string(String::from("zzzzzzzzzzzzzzzzzzzzzzzzzz")).unwrap();
    assert_eq!(client.test_session(HammerfestServer::HammerfestFr, &unknown), Ok(None));
    assert_eq!(client.test_session(HammerfestServer::HfestNet, &session.key), Ok(None));
}

#[test]
fn mem_client_own_pages() {
    let mut client = MemHammerfestClient::new(Instant { millis: 0 });
    client.create_user(account("127", "alice", "secret"));
    let good = HammerfestCredentials {
        server: HammerfestServer::HammerfestFr,
        username: HammerfestUsername::try_from_string(String::from("alice")).unwrap(),
        password: String::from("secret"),
    };
    let session = client.create_session(&good).unwrap();
    let shop = client.get_own_shop(&session).unwrap();
    assert_eq!(shop.tokens, 4);
    assert_eq!(shop.purchased_tokens, Some(2));
    let children = client.get_own_god_children(&session).unwrap();
    assert_eq!(children.len(), 1);
    assert_eq!(children[0].tokens, 3);
    let mut forged = session.clone();
    forged.key = HammerfestSessionKey::try_from_string(String::from("zzzzzzzzzzzzzzzzzzzzzzzzzz")).unwrap();
    assert_eq!(client.get_own_shop(&forged), Err(ClientError::Scraper(ScraperError::InvalidSessionCookie)));
    let profile = client
        .get_profile_by_id(None, &HammerfestGetProfileByIdOptions {
            server: HammerfestServer::HammerfestFr,
            user_id: HammerfestUserId::try_from_string(String::from("127")).unwrap(),
        })
        .unwrap()
        .unwrap();
    assert_eq!(profile.best_score, 100);
    assert_eq!(profile.items.len(), 1);
    assert_eq!(profile.items[0].as_str(), "1000");
    let items = client.get_own_items(&session).unwrap();
    assert_eq!(items.len(), 1);
    assert_eq!(items[0].0.as_str(), "1000");
    assert_eq!(items[0].1, 2);
}

#[test]
fn mem_client_forum_themes() {
    let mut client = MemHammerfestClient::new(Instant { millis: 0 });
    let theme_id = HammerfestForumThemeId::try_from_string(String::from("2")).unwrap();
    client.create_forum_theme(HammerfestForumTheme {
        short: ShortHammerfestForumTheme {
            server: HammerfestServer::HammerfestFr,
            id: theme_id.clone(),
            name: String::from("Discussions"),
        },
        description: String::from("Tout le reste"),
    });
    let themes = client.get_forum_themes(None, HammerfestServer::HammerfestFr).unwrap();
    assert_eq!(themes.len(), 1);
    assert!(client.get_forum_themes(None, HammerfestServer::HfestNet).unwrap().is_empty());
    let page = client.get_forum_theme_page(None, HammerfestServer::HammerfestFr, &theme_id, 1).unwrap();
    assert_eq!(page.theme.name, "Discussions");
    assert_eq!(page.threads.page1, 1);
    assert_eq!(page.threads.pages, 1);
    assert!(page.threads.items.is_empty());
    assert_eq!(
        client.get_forum_theme_page(None, HammerfestServer::HammerfestFr, &theme_id, 2),
        Err(ClientError::Scraper(ScraperError::InvalidPagination))
    );
    let thread_id = HammerfestForumThreadId::try_from_string(String::from("1")).unwrap();
    assert!(client.get_forum_thread_page(None, HammerfestServer::HammerfestFr, &thread_id, 1).is_err());
    client.create_forum_thread(HammerfestForumThreadPage {
        theme: page.theme.clone(),
        thread: ShortHammerfestForumThread {
            server: HammerfestServer::HammerfestFr,
            id: thread_id.clone(),
            name: String::from("Bonjour"),
        },
        messages: HammerfestForumPostListing { page1: 1, pages: 1, items: vec![] },
    });
    let thread = client.get_forum_thread_page(None, HammerfestServer::HammerfestFr, &thread_id, 1).unwrap();
    assert_eq!(thread.thread.name, "Bonjour");
    assert_eq!(
        client.get_forum_thread_page(None, HammerfestServer::HammerfestFr, &thread_id, 2),
        Err(ClientError::Scraper(ScraperError::InvalidPagination))
    );
}
