use vstd::prelude::*;
use crate::pattern::{
    forum_theme_id_text, item_id_text, matches_forum_theme_id, matches_item_id, matches_numeric_id,
    matches_session_key, matches_user_id, matches_username, numeric_id_text, session_key_text,
    user_id_text, username_text,
};

verus! {

/// Which identifier a text failed to be.
#[derive(Copy, Clone, Debug, PartialEq, Eq, Structural, Hash)]
pub enum IdentifierKind {
    Username,
    UserId,
    SessionKey,
    QuestId,
    ItemId,
    ForumThemeId,
    ForumThreadId,
    ForumPostId,
}

/// A text that does not have an identifier's shape: which identifier, and the
/// text as it was given.
#[derive(Clone, Debug, PartialEq, Eq, Hash)]
pub struct IdentifierParseError {
    pub kind: IdentifierKind,
    pub raw: String,
}

/// A player's login name: one to twelve ASCII letters or digits.
#[derive(Debug, PartialEq, Eq, PartialOrd, Ord, Hash)]
pub struct HammerfestUsername {
    raw: String,
}

impl View for HammerfestUsername {
    type V = Seq<char>;

    closed spec fn view(&self) -> Seq<char> {
        self.raw@
    }
}

impl HammerfestUsername {
    #[verifier::type_invariant]
    closed spec fn inv(&self) -> bool {
        username_text(self.raw@)
    }

    /// Accepts `raw` exactly when it matches the pattern; the result then holds
    /// `raw` unchanged. Otherwise the error names this identifier and carries
    /// `raw`.
    pub fn try_from_string(raw: String) -> (r: Result<Self, IdentifierParseError>)
        ensures
            r is Ok <==> username_text(raw@),
            r matches Ok(v) ==> v@ == raw@,
            r matches Err(e) ==> e.kind == IdentifierKind::Username && e.raw == raw,
    {
        if matches_username(raw.as_str()) {
            Ok(HammerfestUsername { raw })
        } else {
            Err(IdentifierParseError { kind: IdentifierKind::Username, raw })
        }
    }

    pub fn as_str(&self) -> (r: &str)
        ensures
            r@ == self@,
            username_text(r@),
    {
        proof {
            use_type_invariant(self);
        }
        self.raw.as_str()
    }
}

impl Clone for HammerfestUsername {
    fn clone(&self) -> (r: Self)
        ensures
            r == *self,
    {
        proof {
            use_type_invariant(self);
        }
        HammerfestUsername { raw: self.raw.clone() }
    }
}

/// A player's numeric id: one to nine digits, without a leading zero.
#[derive(Debug, PartialEq, Eq, PartialOrd, Ord, Hash)]
pub struct HammerfestUserId {
    raw: String,
}

impl View for HammerfestUserId {
    type V = Seq<char>;

    closed spec fn view(&self) -> Seq<char> {
        self.raw@
    }
}

impl HammerfestUserId {
    #[verifier::type_invariant]
    closed spec fn inv(&self) -> bool {
        user_id_text(self.raw@)
    }

    /// Accepts `raw` exactly when it matches the pattern; the result then holds
    /// `raw` unchanged. Otherwise the error names this identifier and carries
    /// `raw`.
    pub fn try_from_string(raw: String) -> (r: Result<Self, IdentifierParseError>)
        ensures
            r is Ok <==> user_id_text(raw@),
            r matches Ok(v) ==> v@ == raw@,
            r matches Err(e) ==> e.kind == IdentifierKind::UserId && e.raw == raw,
    {
        if matches_user_id(raw.as_str()) {
            Ok(HammerfestUserId { raw })
        } else {
            Err(IdentifierParseError { kind: IdentifierKind::UserId, raw })
        }
    }

    pub fn as_str(&self) -> (r: &str)
        ensures
            r@ == self@,
            user_id_text(r@),
    {
        proof {
            use_type_invariant(self);
        }
        self.raw.as_str()
    }
}

impl Clone for HammerfestUserId {
    fn clone(&self) -> (r: Self)
        ensures
            r == *self,
    {
        proof {
            use_type_invariant(self);
        }
        HammerfestUserId { raw: self.raw.clone() }
    }
}

/// A session token: twenty-six lowercase ASCII letters or digits. It is a bearer credential.
#[derive(Debug, PartialEq, Eq, PartialOrd, Ord, Hash)]
pub struct HammerfestSessionKey {
    raw: String,
}

impl View for HammerfestSessionKey {
    type V = Seq<char>;

    closed spec fn view(&self) -> Seq<char> {
        self.raw@
    }
}

impl HammerfestSessionKey {
    #[verifier::type_invariant]
    closed spec fn inv(&self) -> bool {
        session_key_text(self.raw@)
    }

    /// Accepts `raw` exactly when it matches the pattern; the result then holds
    /// `raw` unchanged. Otherwise the error names this identifier and carries
    /// `raw`.
    pub fn try_from_string(raw: String) -> (r: Result<Self, IdentifierParseError>)
        ensures
            r is Ok <==> session_key_text(raw@),
            r matches Ok(v) ==> v@ == raw@,
            r matches Err(e) ==> e.kind == IdentifierKind::SessionKey && e.raw == raw,
    {
        if matches_session_key(raw.as_str()) {
            Ok(HammerfestSessionKey { raw })
        } else {
            Err(IdentifierParseError { kind: IdentifierKind::SessionKey, raw })
        }
    }

    pub fn as_str(&self) -> (r: &str)
        ensures
            r@ == self@,
            session_key_text(r@),
    {
        proof {
            use_type_invariant(self);
        }
        self.raw.as_str()
    }
}

impl Clone for HammerfestSessionKey {
    fn clone(&self) -> (r: Self)
        ensures
            r == *self,
    {
        proof {
            use_type_invariant(self);
        }
        HammerfestSessionKey { raw: self.raw.clone() }
    }
}

/// A quest id: one to nine digits.
#[derive(Debug, PartialEq, Eq, PartialOrd, Ord, Hash)]
pub struct HammerfestQuestId {
    raw: String,
}

impl View for HammerfestQuestId {
    type V = Seq<char>;

    closed spec fn view(&self) -> Seq<char> {
        self.raw@
    }
}

impl HammerfestQuestId {
    #[verifier::type_invariant]
    closed spec fn inv(&self) -> bool {
        numeric_id_text(self.raw@)
    }

    /// Accepts `raw` exactly when it matches the pattern; the result then holds
    /// `raw` unchanged. Otherwise the error names this identifier and carries
    /// `raw`.
    pub fn try_from_string(raw: String) -> (r: Result<Self, IdentifierParseError>)
        ensures
            r is Ok <==> numeric_id_text(raw@),
            r matches Ok(v) ==> v@ == raw@,
            r matches Err(e) ==> e.kind == IdentifierKind::QuestId && e.raw == raw,
    {
        if matches_numeric_id(raw.as_str()) {
            Ok(HammerfestQuestId { raw })
        } else {
            Err(IdentifierParseError { kind: IdentifierKind::QuestId, raw })
        }
    }

    pub fn as_str(&self) -> (r: &str)
        ensures
            r@ == self@,
            numeric_id_text(r@),
    {
        proof {
            use_type_invariant(self);
        }
        self.raw.as_str()
    }
}

impl Clone for HammerfestQuestId {
    fn clone(&self) -> (r: Self)
        ensures
            r == *self,
    {
        proof {
            use_type_invariant(self);
        }
        HammerfestQuestId { raw: self.raw.clone() }
    }
}

/// An item id: `0`, or one to four digits without a leading zero.
#[derive(Debug, PartialEq, Eq, PartialOrd, Ord, Hash)]
pub struct HammerfestItemId {
    raw: String,
}

impl View for HammerfestItemId {
    type V = Seq<char>;

    closed spec fn view(&self) -> Seq<char> {
        self.raw@
    }
}

impl HammerfestItemId {
    #[verifier::type_invariant]
    closed spec fn inv(&self) -> bool {
        item_id_text(self.raw@)
    }

    /// Accepts `raw` exactly when it matches the pattern; the result then holds
    /// `raw` unchanged. Otherwise the error names this identifier and carries
    /// `raw`.
    pub fn try_from_string(raw: String) -> (r: Result<Self, IdentifierParseError>)
        ensures
            r is Ok <==> item_id_text(raw@),
            r matches Ok(v) ==> v@ == raw@,
            r matches Err(e) ==> e.kind == IdentifierKind::ItemId && e.raw == raw,
    {
        if matches_item_id(raw.as_str()) {
            Ok(HammerfestItemId { raw })
        } else {
            Err(IdentifierParseError { kind: IdentifierKind::ItemId, raw })
        }
    }

    pub fn as_str(&self) -> (r: &str)
        ensures
            r@ == self@,
            item_id_text(r@),
    {
        proof {
            use_type_invariant(self);
        }
        self.raw.as_str()
    }
}

impl Clone for HammerfestItemId {
    fn clone(&self) -> (r: Self)
        ensures
            r == *self,
    {
        proof {
            use_type_invariant(self);
        }
        HammerfestItemId { raw: self.raw.clone() }
    }
}

/// A forum theme id: one or two digits.
#[derive(Debug, PartialEq, Eq, PartialOrd, Ord, Hash)]
pub struct HammerfestForumThemeId {
    raw: String,
}

impl View for HammerfestForumThemeId {
    type V = Seq<char>;

    closed spec fn view(&self) -> Seq<char> {
        self.raw@
    }
}

impl HammerfestForumThemeId {
    #[verifier::type_invariant]
    closed spec fn inv(&self) -> bool {
        forum_theme_id_text(self.raw@)
    }

    /// Accepts `raw` exactly when it matches the pattern; the result then holds
    /// `raw` unchanged. Otherwise the error names this identifier and carries
    /// `raw`.
    pub fn try_from_string(raw: String) -> (r: Result<Self, IdentifierParseError>)
        ensures
            r is Ok <==> forum_theme_id_text(raw@),
            r matches Ok(v) ==> v@ == raw@,
            r matches Err(e) ==> e.kind == IdentifierKind::ForumThemeId && e.raw == raw,
    {
        if matches_forum_theme_id(raw.as_str()) {
            Ok(HammerfestForumThemeId { raw })
        } else {
            Err(IdentifierParseError { kind: IdentifierKind::ForumThemeId, raw })
        }
    }

    pub fn as_str(&self) -> (r: &str)
        ensures
            r@ == self@,
            forum_theme_id_text(r@),
    {
        proof {
            use_type_invariant(self);
        }
        self.raw.as_str()
    }
}

impl Clone for HammerfestForumThemeId {
    fn clone(&self) -> (r: Self)
        ensures
            r == *self,
    {
        proof {
            use_type_invariant(self);
        }
        HammerfestForumThemeId { raw: self.raw.clone() }
    }
}

/// A forum thread id: one to nine digits.
#[derive(Debug, PartialEq, Eq, PartialOrd, Ord, Hash)]
pub struct HammerfestForumThreadId {
    raw: String,
}

impl View for HammerfestForumThreadId {
    type V = Seq<char>;

    closed spec fn view(&self) -> Seq<char> {
        self.raw@
    }
}

impl HammerfestForumThreadId {
    #[verifier::type_invariant]
    closed spec fn inv(&self) -> bool {
        numeric_id_text(self.raw@)
    }

    /// Accepts `raw` exactly when it matches the pattern; the result then holds
    /// `raw` unchanged. Otherwise the error names this identifier and carries
    /// `raw`.
    pub fn try_from_string(raw: String) -> (r: Result<Self, IdentifierParseError>)
        ensures
            r is Ok <==> numeric_id_text(raw@),
            r matches Ok(v) ==> v@ == raw@,
            r matches Err(e) ==> e.kind == IdentifierKind::ForumThreadId && e.raw == raw,
    {
        if matches_numeric_id(raw.as_str()) {
            Ok(HammerfestForumThreadId { raw })
        } else {
            Err(IdentifierParseError { kind: IdentifierKind::ForumThreadId, raw })
        }
    }

    pub fn as_str(&self) -> (r: &str)
        ensures
            r@ == self@,
            numeric_id_text(r@),
    {
        proof {
            use_type_invariant(self);
        }
        self.raw.as_str()
    }
}

impl Clone for HammerfestForumThreadId {
    fn clone(&self) -> (r: Self)
        ensures
            r == *self,
    {
        proof {
            use_type_invariant(self);
        }
        HammerfestForumThreadId { raw: self.raw.clone() }
    }
}

/// A forum post id: one to nine digits.
#[derive(Debug, PartialEq, Eq, PartialOrd, Ord, Hash)]
pub struct HammerfestForumPostId {
    raw: String,
}

impl View for HammerfestForumPostId {
    type V = Seq<char>;

    closed spec fn view(&self) -> Seq<char> {
        self.raw@
    }
}

impl HammerfestForumPostId {
    #[verifier::type_invariant]
    closed spec fn inv(&self) -> bool {
        numeric_id_text(self.raw@)
    }

    /// Accepts `raw` exactly when it matches the pattern; the result then holds
    /// `raw` unchanged. Otherwise the error names this identifier and carries
    /// `raw`.
    pub fn try_from_string(raw: String) -> (r: Result<Self, IdentifierParseError>)
        ensures
            r is Ok <==> numeric_id_text(raw@),
            r matches Ok(v) ==> v@ == raw@,
            r matches Err(e) ==> e.kind == IdentifierKind::ForumPostId && e.raw == raw,
    {
        if matches_numeric_id(raw.as_str()) {
            Ok(HammerfestForumPostId { raw })
        } else {
            Err(IdentifierParseError { kind: IdentifierKind::ForumPostId, raw })
        }
    }

    pub fn as_str(&self) -> (r: &str)
        ensures
            r@ == self@,
            numeric_id_text(r@),
    {
        proof {
            use_type_invariant(self);
        }
        self.raw.as_str()
    }
}

impl Clone for HammerfestForumPostId {
    fn clone(&self) -> (r: Self)
        ensures
            r == *self,
    {
        proof {
            use_type_invariant(self);
        }
        HammerfestForumPostId { raw: self.raw.clone() }
    }
}

} // verus!
