use vstd::prelude::*;
use crate::ids::{
    HammerfestForumPostId, HammerfestForumThemeId, HammerfestForumThreadId, HammerfestItemId,
    HammerfestQuestId, HammerfestSessionKey, HammerfestUserId, HammerfestUsername,
};
use crate::server::HammerfestServer;

verus! {

/// A point in time, in milliseconds since the Unix epoch.
#[derive(Copy, Clone, Debug, PartialEq, Eq, Structural, PartialOrd, Ord, Hash)]
pub struct Instant {
    pub millis: i64,
}

#[derive(Clone, Debug, PartialEq, Eq, PartialOrd, Ord, Hash)]
pub struct HammerfestCredentials {
    pub server: HammerfestServer,
    pub username: HammerfestUsername,
    pub password: String,
}

/// The minimal display record of a player: where, which id, which name.
#[derive(Debug, PartialEq, Eq, PartialOrd, Ord, Hash)]
pub struct ShortHammerfestUser {
    pub server: HammerfestServer,
    pub id: HammerfestUserId,
    pub username: HammerfestUsername,
}

impl Clone for ShortHammerfestUser {
    fn clone(&self) -> (r: Self)
        ensures
            r == *self,
    {
        ShortHammerfestUser {
            server: self.server,
            id: self.id.clone(),
            username: self.username.clone(),
        }
    }
}

/// A short player record that names its own kind, `"HammerfestUser"`.
#[derive(Clone, Debug, PartialEq, Eq, PartialOrd, Ord, Hash)]
pub struct TaggedShortHammerfestUser {
    kind: String,
    inner: ShortHammerfestUser,
}

impl TaggedShortHammerfestUser {
    pub fn new(inner: ShortHammerfestUser) -> (r: Self)
        ensures
            r.kind()@ == "HammerfestUser"@,
            r.user() == inner,
    {
        TaggedShortHammerfestUser { kind: String::from_str("HammerfestUser"), inner }
    }

    pub closed spec fn kind(&self) -> String {
        self.kind
    }

    pub closed spec fn user(&self) -> ShortHammerfestUser {
        self.inner
    }

    pub fn kind_str(&self) -> (r: &str)
        ensures
            r@ == self.kind()@,
    {
        self.kind.as_str()
    }

    pub fn inner(&self) -> (r: &ShortHammerfestUser)
        ensures
            *r == self.user(),
    {
        &self.inner
    }
}

/// A logged-in session: when it was created, when it was last checked, its
/// token and the player it is bound to.
#[derive(Debug, PartialEq, Eq, PartialOrd, Ord, Hash)]
pub struct HammerfestSession {
    pub ctime: Instant,
    pub atime: Instant,
    pub key: HammerfestSessionKey,
    pub user: ShortHammerfestUser,
}

impl Clone for HammerfestSession {
    fn clone(&self) -> (r: Self)
        ensures
            r == *self,
    {
        HammerfestSession {
            ctime: self.ctime,
            atime: self.atime,
            key: self.key.clone(),
            user: self.user.clone(),
        }
    }
}

#[derive(Debug, PartialEq, Eq, PartialOrd, Ord, Hash)]
pub struct HammerfestGetProfileByIdOptions {
    pub server: HammerfestServer,
    pub user_id: HammerfestUserId,
}

#[derive(Copy, Clone, Debug, PartialEq, Eq, Structural, PartialOrd, Ord, Hash)]
pub enum HammerfestQuestStatus {
    NotStarted,
    Pending,
    Complete,
}

#[derive(Clone, Debug, PartialEq, Eq, PartialOrd, Ord, Hash)]
pub struct HammerfestHallOfFameMessage {
    pub date: Instant,
    pub message: String,
}

/// A player's public profile. `items` holds each id once, and so do the keys of
/// `quests`.
#[derive(Clone, Debug, PartialEq, Eq)]
pub struct HammerfestProfile {
    pub user: ShortHammerfestUser,
    pub email: Option<Option<String>>,
    pub best_score: u32,
    pub best_level: u32,
    pub has_carrot: bool,
    pub season_score: u32,
    pub rank: u8,
    pub hall_of_fame: Option<HammerfestHallOfFameMessage>,
    pub items: Vec<HammerfestItemId>,
    pub quests: Vec<(HammerfestQuestId, HammerfestQuestStatus)>,
}

impl HammerfestProfile {
    pub open spec fn wf(&self) -> bool {
        &&& self.rank <= 4
        &&& forall|i: int, j: int|
            0 <= i < j < self.items@.len() ==> self.items@[i]@ != self.items@[j]@
        &&& forall|i: int, j: int|
            0 <= i < j < self.quests@.len() ==> self.quests@[i].0@ != self.quests@[j].0@
    }
}

#[derive(Debug, PartialEq, Eq, PartialOrd, Ord, Hash)]
pub struct HammerfestGodChild {
    pub user: ShortHammerfestUser,
    pub tokens: u32,
}

#[derive(Copy, Clone, Debug, PartialEq, Eq, Structural, PartialOrd, Ord, Hash)]
pub struct HammerfestShop {
    pub tokens: u32,
    pub weekly_tokens: u32,
    pub purchased_tokens: Option<u32>,
    pub has_quest_bonus: bool,
}

/// A forum timestamp as the forum shows it, without a year.
#[derive(Copy, Clone, Debug, PartialEq, Eq, Structural, PartialOrd, Ord, Hash)]
pub struct HammerfestForumDate {
    pub month: u8,
    pub day: u8,
    pub weekday: u8,
    pub hour: u8,
    pub minute: u8,
}

impl HammerfestForumDate {
    pub open spec fn wf(&self) -> bool {
        &&& 1 <= self.month <= 12
        &&& 1 <= self.day <= 31
        &&& 1 <= self.weekday <= 7
        &&& self.hour <= 23
        &&& self.minute <= 59
    }
}

#[derive(Debug, PartialEq, Eq, PartialOrd, Ord, Hash)]
pub struct ShortHammerfestForumTheme {
    pub server: HammerfestServer,
    pub id: HammerfestForumThemeId,
    pub name: String,
}

#[derive(Debug, PartialEq, Eq, PartialOrd, Ord, Hash)]
pub struct HammerfestForumTheme {
    pub short: ShortHammerfestForumTheme,
    pub description: String,
}

#[derive(Clone, Debug, PartialEq, Eq, PartialOrd, Ord, Hash)]
pub struct HammerfestForumThemePage {
    pub theme: ShortHammerfestForumTheme,
    pub sticky: Vec<HammerfestForumThread>,
    pub threads: HammerfestForumThreadListing,
}

/// One page of a paginated thread list.
#[derive(Clone, Debug, PartialEq, Eq, PartialOrd, Ord, Hash)]
pub struct HammerfestForumThreadListing {
    pub page1: u32,
    pub pages: u32,
    pub items: Vec<HammerfestForumThread>,
}

#[derive(Debug, PartialEq, Eq, PartialOrd, Ord, Hash)]
pub struct ShortHammerfestForumThread {
    pub server: HammerfestServer,
    pub id: HammerfestForumThreadId,
    pub name: String,
}

#[derive(Clone, Debug, PartialEq, Eq, PartialOrd, Ord, Hash)]
pub struct HammerfestForumThread {
    pub short: ShortHammerfestForumThread,
    pub author: ShortHammerfestUser,
    pub last_message_date: HammerfestForumDate,
    pub reply_count: u32,
    pub is_sticky: bool,
    pub is_closed: bool,
}

#[derive(Debug, PartialEq, Eq, PartialOrd, Ord, Hash)]
pub struct HammerfestForumThreadPage {
    pub theme: ShortHammerfestForumTheme,
    pub thread: ShortHammerfestForumThread,
    pub messages: HammerfestForumPostListing,
}

/// One page of a paginated post list.
#[derive(Debug, PartialEq, Eq, PartialOrd, Ord, Hash)]
pub struct HammerfestForumPostListing {
    pub page1: u32,
    pub pages: u32,
    pub items: Vec<HammerfestForumPost>,
}

#[derive(Debug, PartialEq, Eq, PartialOrd, Ord, Hash)]
pub struct HammerfestForumPost {
    pub id: Option<HammerfestForumPostId>,
    pub author: HammerfestForumPostAuthor,
    pub ctime: HammerfestForumDate,
    pub content: String,
}

#[derive(Debug, PartialEq, Eq, PartialOrd, Ord, Hash)]
pub struct HammerfestForumPostAuthor {
    pub user: ShortHammerfestUser,
    pub has_carrot: bool,
    pub rank: u8,
    pub role: HammerfestForumRole,
}

#[derive(Copy, Clone, Debug, PartialEq, Eq, Structural, PartialOrd, Ord, Hash)]
pub enum HammerfestForumRole {
    Player,
    Moderator,
    Administrator,
}

/// What to look up: a player on a mirror, as it was at `time` (now when absent).
#[derive(Debug, PartialEq, Eq, PartialOrd, Ord, Hash)]
pub struct GetHammerfestUserOptions {
    pub server: HammerfestServer,
    pub id: HammerfestUserId,
    pub time: Option<Instant>,
}

impl Clone for ShortHammerfestForumTheme {
    fn clone(&self) -> (r: Self)
        ensures
            r == *self,
    {
        ShortHammerfestForumTheme { server: self.server, id: self.id.clone(), name: self.name.clone() }
    }
}

impl Clone for HammerfestForumTheme {
    fn clone(&self) -> (r: Self)
        ensures
            r == *self,
    {
        HammerfestForumTheme { short: self.short.clone(), description: self.description.clone() }
    }
}

impl Clone for ShortHammerfestForumThread {
    fn clone(&self) -> (r: Self)
        ensures
            r == *self,
    {
        ShortHammerfestForumThread { server: self.server, id: self.id.clone(), name: self.name.clone() }
    }
}

impl Clone for HammerfestForumPostAuthor {
    fn clone(&self) -> (r: Self)
        ensures
            r == *self,
    {
        HammerfestForumPostAuthor {
            user: self.user.clone(),
            has_carrot: self.has_carrot,
            rank: self.rank,
            role: self.role,
        }
    }
}

impl Clone for HammerfestForumPost {
    fn clone(&self) -> (r: Self)
        ensures
            r == *self,
    {
        let id = match &self.id {
            Some(i) => Some(i.clone()),
            None => None,
        };
        HammerfestForumPost { id, author: self.author.clone(), ctime: self.ctime, content: self.content.clone() }
    }
}

impl Clone for HammerfestForumPostListing {
    fn clone(&self) -> (r: Self)
        ensures
            r.page1 == self.page1,
            r.pages == self.pages,
            r.items@ == self.items@,
    {
        let mut items: Vec<HammerfestForumPost> = Vec::new();
        let mut k: usize = 0;
        while k < self.items.len()
            invariant
                k <= self.items@.len(),
                items@ == self.items@.subrange(0, k as int),
            decreases self.items@.len() - k,
        {
            items.push(self.items[k].clone());
            k = k + 1;
        }
        assert(self.items@.subrange(0, k as int) == self.items@);
        HammerfestForumPostListing { page1: self.page1, pages: self.pages, items }
    }
}

impl Clone for HammerfestForumThreadPage {
    fn clone(&self) -> (r: Self)
        ensures
            r.theme == self.theme,
            r.thread == self.thread,
            r.messages.page1 == self.messages.page1,
            r.messages.pages == self.messages.pages,
            r.messages.items@ == self.messages.items@,
    {
        HammerfestForumThreadPage {
            theme: self.theme.clone(),
            thread: self.thread.clone(),
            messages: self.messages.clone(),
        }
    }
}

} // verus!
