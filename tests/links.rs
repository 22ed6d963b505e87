use etwin_hammerfest::ids::HammerfestUserId;
use etwin_hammerfest::link::{
    expand_link, HammerfestUserIdRef, LinkError, RawLink, ShortUser, UserId, VersionedLink,
};
use etwin_hammerfest::mem::MemLinkStore;
use etwin_hammerfest::model::Instant;
use etwin_hammerfest::server::HammerfestServer;

fn remote(id: &str) -> HammerfestUserIdRef {
    HammerfestUserIdRef {
        server: HammerfestServer::HammerfestFr,
        id: HammerfestUserId::try_from_string(String::from(id)).unwrap(),
    }
}

fn uid(s: &str) -> UserId {
    UserId { uuid: String::from(s) }
}

fn raw(id: &str, millis: i64) -> RawLink {
    RawLink { remote: remote(id), etwin: uid("etwin-1"), bound_by: uid("admin"), bound_time: Instant { millis } }
}

#[test]
fn account_without_history_has_no_link() {
    let link = VersionedLink::empty();
    assert_eq!(link.current, None);
    assert!(link.history.is_empty());
    let store = MemLinkStore::new();
    let got = store.get(&remote("127"));
    assert_eq!(got.current, None);
    assert!(got.history.is_empty());
}

#[test]
fn bind_then_unbind_keeps_the_binding_in_history() {
    let mut link = VersionedLink::empty();
    assert_eq!(link.bind(raw("127", 1000)), Ok(()));
    assert_eq!(link.current, Some(raw("127", 1000)));
    assert!(link.history.is_empty());
    assert_eq!(link.unbind(), Ok(()));
    assert_eq!(link.current, None);
    assert_eq!(link.history.len(), 1);
    assert_eq!(link.history[0].bound_time, Instant { millis: 1000 });
}

#[test]
fn link_operations_refuse_bad_order() {
    let mut link = VersionedLink::empty();
    assert_eq!(link.unbind(), Err(LinkError::NotLinked));
    link.bind(raw("127", 1000)).unwrap();
    assert_eq!(link.bind(raw("127", 2000)), Err(LinkError::AlreadyLinked));
    link.unbind().unwrap();
    assert_eq!(link.bind(raw("127", 500)), Err(LinkError::OutOfOrder));
    assert_eq!(link.current, None);
    assert_eq!(link.history.len(), 1);
    assert_eq!(link.bind(raw("127", 1000)), Ok(()));
}

#[test]
fn link_store_returns_what_was_set() {
    let mut store = MemLinkStore::new();
    let mut link = VersionedLink::empty();
    link.bind(raw("127", 1000)).unwrap();
    store.set(remote("127"), link.clone());
    assert_eq!(store.get(&remote("127")), link);
    assert_eq!(store.get(&remote("128")), VersionedLink::empty());
    link.unbind().unwrap();
    store.set(remote("127"), link.clone());
    let got = store.get(&remote("127"));
    assert_eq!(got.current, None);
    assert_eq!(got.history.len(), 1);
}

#[test]
fn expand_resolves_both_users() {
    let mut link = VersionedLink::empty();
    link.bind(raw("127", 1000)).unwrap();
    let admin = ShortUser { id: uid("admin"), display_name: String::from("Admin") };
    let etwin = ShortUser { id: uid("etwin-1"), display_name: String::from("Alice") };
    let e = expand_link(link, Some(admin.clone()), Some(etwin.clone())).unwrap();
    let current = e.current.unwrap();
    assert_eq!(current.bound_time, Instant { millis: 1000 });
    assert_eq!(current.bound_by, admin);
    assert_eq!(current.etwin, etwin);
}

#[test]
fn expand_reports_missing_users() {
    let mut link = VersionedLink::empty();
    link.bind(raw("127", 1000)).unwrap();
    let admin = ShortUser { id: uid("admin"), display_name: String::from("Admin") };
    assert_eq!(expand_link(link.clone(), None, None), Err(LinkError::MissingUser(uid("admin"))));
    assert_eq!(expand_link(link, Some(admin), None), Err(LinkError::MissingUser(uid("etwin-1"))));
    let unlinked = expand_link(VersionedLink::empty(), None, None).unwrap();
    assert_eq!(unlinked.current, None);
}
