use etwin_hammerfest::ids::{
    IdentifierKind, IdentifierParseError,
    HammerfestForumPostId, HammerfestForumThemeId, HammerfestForumThreadId, HammerfestItemId,
    HammerfestQuestId, HammerfestSessionKey, HammerfestUserId, HammerfestUsername,
};
use etwin_hammerfest::server::HammerfestServer;
use etwin_hammerfest::text::parse_u32;
use std::str::FromStr;

fn s(text: &str) -> String {
    String::from(text)
}

#[test]
fn username_accepts_and_round_trips() {
    for raw in ["a", "Alice", "demurgos", "abcdefABCDEF", "0123456789ab"] {
        let u = HammerfestUsername::try_from_string(s(raw)).unwrap();
        assert_eq!(u.as_str(), raw);
    }
}

#[test]
fn username_rejects() {
    for raw in ["", "abcdefghijklm", "with space", "tiret-bas", "été", "a_b"] {
        assert!(HammerfestUsername::try_from_string(s(raw)).is_err(), "{}", raw);
    }
}

#[test]
fn user_id_accepts_and_rejects() {
    for raw in ["1", "127", "123456789"] {
        assert_eq!(HammerfestUserId::try_from_string(s(raw)).unwrap().as_str(), raw);
    }
    for raw in ["", "0", "012", "1234567890", "12a", "-1"] {
        assert!(HammerfestUserId::try_from_string(s(raw)).is_err(), "{}", raw);
    }
}

#[test]
fn session_key_accepts_and_rejects() {
    let ok = "abcdefghijklmnopqrstuvwxyz";
    assert_eq!(HammerfestSessionKey::try_from_string(s(ok)).unwrap().as_str(), ok);
    let digits = "0123456789abcdef0123456789";
    assert_eq!(HammerfestSessionKey::try_from_string(s(digits)).unwrap().as_str(), digits);
    for raw in ["", "abcdefghijklmnopqrstuvwxy", "abcdefghijklmnopqrstuvwxyz0", "ABCDEFGHIJKLMNOPQRSTUVWXYZ"] {
        assert!(HammerfestSessionKey::try_from_string(s(raw)).is_err(), "{}", raw);
    }
}

#[test]
fn item_id_accepts_and_rejects() {
    for raw in ["0", "1", "1000", "9999"] {
        assert_eq!(HammerfestItemId::try_from_string(s(raw)).unwrap().as_str(), raw);
    }
    for raw in ["", "00", "01", "10000", "abc10", "0abc"] {
        assert!(HammerfestItemId::try_from_string(s(raw)).is_err(), "{}", raw);
    }
}

#[test]
fn numeric_ids_accept_and_reject() {
    assert_eq!(HammerfestQuestId::try_from_string(s("0")).unwrap().as_str(), "0");
    assert_eq!(HammerfestForumThreadId::try_from_string(s("474604")).unwrap().as_str(), "474604");
    assert_eq!(HammerfestForumPostId::try_from_string(s("123456789")).unwrap().as_str(), "123456789");
    assert!(HammerfestForumPostId::try_from_string(s("1234567890")).is_err());
    assert!(HammerfestQuestId::try_from_string(s("")).is_err());
    assert_eq!(HammerfestForumThemeId::try_from_string(s("99")).unwrap().as_str(), "99");
    assert!(HammerfestForumThemeId::try_from_string(s("100")).is_err());
    assert!(HammerfestForumThemeId::try_from_string(s("a")).is_err());
}

#[test]
fn identifiers_compare_by_value() {
    let a = HammerfestUserId::try_from_string(s("12")).unwrap();
    let b = HammerfestUserId::try_from_string(s("12")).unwrap();
    let c = HammerfestUserId::try_from_string(s("13")).unwrap();
    assert_eq!(a, b);
    assert_ne!(a, c);
    assert_eq!(a.clone(), a);
}

#[test]
fn server_names_round_trip() {
    for server in [HammerfestServer::HammerfestFr, HammerfestServer::HfestNet, HammerfestServer::HammerfestEs] {
        assert_eq!(HammerfestServer::parse(server.as_str()), Ok(server));
        assert_eq!(HammerfestServer::from_str(server.as_str()), Ok(server));
    }
    assert_eq!(HammerfestServer::HammerfestFr.as_str(), "hammerfest.fr");
    assert_eq!(HammerfestServer::HfestNet.as_str(), "hfest.net");
    assert_eq!(HammerfestServer::HammerfestEs.as_str(), "hammerfest.es");
}

#[test]
fn server_parse_rejects_unknown() {
    let err = HammerfestServer::parse("hammerfest.com").unwrap_err();
    assert_eq!(err.message(), "HammerfestServerParseError");
    assert!(HammerfestServer::parse("").is_err());
    assert!(HammerfestServer::parse("HAMMERFEST.FR").is_err());
}

#[test]
fn parse_u32_reads_decimal() {
    assert_eq!(parse_u32("0"), Some(0));
    assert_eq!(parse_u32("1234"), Some(1234));
    assert_eq!(parse_u32("4294967295"), Some(4294967295));
    assert_eq!(parse_u32("4294967296"), None);
    assert_eq!(parse_u32("99999999999"), None);
    assert_eq!(parse_u32(""), None);
    assert_eq!(parse_u32("12a"), None);
    assert_eq!(parse_u32("+1"), None);
}

#[test]
fn patterns_anchor_at_both_ends() {
    assert!(HammerfestUsername::try_from_string(s("alice\n")).is_err());
    assert!(HammerfestUsername::try_from_string(s("\nalice")).is_err());
    assert!(HammerfestUserId::try_from_string(s("12\n")).is_err());
    assert!(HammerfestItemId::try_from_string(s("10\n")).is_err());
    assert!(HammerfestSessionKey::try_from_string(s(" abcdefghijklmnopqrstuvwxyz")).is_err());
}

#[test]
fn identifier_errors_name_the_field_and_keep_the_text() {
    assert_eq!(
        HammerfestUsername::try_from_string(s("bad name")),
        Err(IdentifierParseError { kind: IdentifierKind::Username, raw: s("bad name") })
    );
    assert_eq!(
        HammerfestUserId::try_from_string(s("0")),
        Err(IdentifierParseError { kind: IdentifierKind::UserId, raw: s("0") })
    );
    assert_eq!(HammerfestItemId::try_from_string(s("01")).unwrap_err().kind, IdentifierKind::ItemId);
    assert_eq!(HammerfestSessionKey::try_from_string(s("x")).unwrap_err().kind, IdentifierKind::SessionKey);
    assert_eq!(HammerfestForumPostId::try_from_string(s("")).unwrap_err().kind, IdentifierKind::ForumPostId);
}
