use vstd::prelude::*;

verus! {

/// A point in time: seconds since the Unix epoch (UTC) together with the
/// UTC offset, in seconds, that the source text carried.
#[derive(Clone, Copy, Debug, PartialEq, Eq, Structural)]
pub struct Timestamp {
    pub unix_seconds: i64,
    pub offset_seconds: i32,
}

impl Timestamp {
    /// A timestamp at `unix_seconds`, written in UTC.
    pub fn utc(unix_seconds: i64) -> (r: Timestamp)
        ensures
            r.unix_seconds == unix_seconds,
            r.offset_seconds == 0,
    {
        Timestamp { unix_seconds, offset_seconds: 0 }
    }
}


/// The view of an optional string.
pub open spec fn ov(o: Option<String>) -> Option<Seq<char>> {
    match o {
        Some(s) => Some(s@),
        None => None,
    }
}

/// A copy of an optional string.
pub fn clone_opt(o: &Option<String>) -> (r: Option<String>)
    ensures
        ov(r) == ov(*o),
{
    match o {
        Some(s) => Some(s.clone()),
        None => None,
    }
}

/// Relies on `cuid2::create_id`: a fresh random identifier. Nothing is
/// promised of its value.
#[verifier::external_body]
fn fresh_id() -> (r: String) {
    cuid2::create_id()
}

#[derive(Clone, Debug, PartialEq, Eq, Hash)]
pub struct UserId(pub String);

impl UserId {
    /// A fresh identifier.
    pub fn new() -> (r: Self) {
        UserId(fresh_id())
    }

    pub fn as_str(&self) -> (r: &str)
        ensures
            r@ == self.0@,
    {
        self.0.as_str()
    }

    pub fn to_string(&self) -> (r: String)
        ensures
            r@ == self.0@,
    {
        self.0.clone()
    }
}

#[derive(Clone, Debug, PartialEq, Eq, Hash)]
pub struct PasswordId(pub String);

impl PasswordId {
    /// A fresh identifier.
    pub fn new() -> (r: Self) {
        PasswordId(fresh_id())
    }

    pub fn as_str(&self) -> (r: &str)
        ensures
            r@ == self.0@,
    {
        self.0.as_str()
    }

    pub fn to_string(&self) -> (r: String)
        ensures
            r@ == self.0@,
    {
        self.0.clone()
    }
}

#[derive(Clone, Debug, PartialEq, Eq, Hash)]
pub struct SessionId(pub String);

impl SessionId {
    /// A fresh identifier.
    pub fn new() -> (r: Self) {
        SessionId(fresh_id())
    }

    pub fn as_str(&self) -> (r: &str)
        ensures
            r@ == self.0@,
    {
        self.0.as_str()
    }

    pub fn to_string(&self) -> (r: String)
        ensures
            r@ == self.0@,
    {
        self.0.clone()
    }
}

#[derive(Clone, Debug, PartialEq, Eq, Hash)]
pub struct FeedId(pub String);

impl FeedId {
    /// A fresh identifier.
    pub fn new() -> (r: Self) {
        FeedId(fresh_id())
    }

    pub fn as_str(&self) -> (r: &str)
        ensures
            r@ == self.0@,
    {
        self.0.as_str()
    }

    pub fn to_string(&self) -> (r: String)
        ensures
            r@ == self.0@,
    {
        self.0.clone()
    }
}

#[derive(Clone, Debug, PartialEq, Eq, Hash)]
pub struct ArticleId(pub String);

impl ArticleId {
    /// A fresh identifier.
    pub fn new() -> (r: Self) {
        ArticleId(fresh_id())
    }

    pub fn as_str(&self) -> (r: &str)
        ensures
            r@ == self.0@,
    {
        self.0.as_str()
    }

    pub fn to_string(&self) -> (r: String)
        ensures
            r@ == self.0@,
    {
        self.0.clone()
    }
}

#[derive(Clone, Debug, PartialEq, Eq, Hash)]
pub struct UserArticleId(pub String);

impl UserArticleId {
    /// A fresh identifier.
    pub fn new() -> (r: Self) {
        UserArticleId(fresh_id())
    }

    pub fn as_str(&self) -> (r: &str)
        ensures
            r@ == self.0@,
    {
        self.0.as_str()
    }

    pub fn to_string(&self) -> (r: String)
        ensures
            r@ == self.0@,
    {
        self.0.clone()
    }
}

#[derive(Clone, Debug, PartialEq, Eq, Hash)]
pub struct FeedLogId(pub String);

impl FeedLogId {
    /// A fresh identifier.
    pub fn new() -> (r: Self) {
        FeedLogId(fresh_id())
    }

    pub fn as_str(&self) -> (r: &str)
        ensures
            r@ == self.0@,
    {
        self.0.as_str()
    }

    pub fn to_string(&self) -> (r: String)
        ensures
            r@ == self.0@,
    {
        self.0.clone()
    }
}

#[derive(Clone, Debug, PartialEq, Eq, Hash)]
pub struct FeedGroupId(pub String);

impl FeedGroupId {
    /// A fresh identifier.
    pub fn new() -> (r: Self) {
        FeedGroupId(fresh_id())
    }

    pub fn as_str(&self) -> (r: &str)
        ensures
            r@ == self.0@,
    {
        self.0.as_str()
    }

    pub fn to_string(&self) -> (r: String)
        ensures
            r@ == self.0@,
    {
        self.0.clone()
    }
}

#[derive(Clone, Debug, PartialEq, Eq, Hash)]
pub struct FeedGroupFeedId(pub String);

impl FeedGroupFeedId {
    /// A fresh identifier.
    pub fn new() -> (r: Self) {
        FeedGroupFeedId(fresh_id())
    }

    pub fn as_str(&self) -> (r: &str)
        ensures
            r@ == self.0@,
    {
        self.0.as_str()
    }

    pub fn to_string(&self) -> (r: String)
        ensures
            r@ == self.0@,
    {
        self.0.clone()
    }
}

#[derive(Clone, Debug)]
pub struct User {
    pub id: UserId,
    pub email: String,
    pub username: String,
}

impl User {
    /// A new user with a fresh identifier.
    pub fn new(email: &str, username: &str) -> (r: User)
        ensures
            r.email@ == email@,
            r.username@ == username@,
    {
        User { id: UserId::new(), email: String::from_str(email), username: String::from_str(username) }
    }
}

#[derive(Clone)]
pub struct Password {
    pub id: PasswordId,
    pub hash: String,
    pub salt: String,
    pub user_id: UserId,
}

#[derive(Clone, Debug)]
pub struct Session {
    pub id: SessionId,
    pub expires: Timestamp,
    pub user_id: UserId,
}

impl SessionId {
    /// The session identifier in an `Authorization` header: the text after
    /// its last space, or the whole value where it has none.
    pub fn from_authorization_header(value: &str) -> (r: SessionId)
        ensures
            r.0@ == after_last_space(value@),
    {
        let n = value.unicode_len();
        let mut k: usize = n;
        while k > 0 && value.get_char(k - 1) != ' '
            invariant
                k <= n,
                n == value@.len(),
                forall|j: int| k <= j < n ==> value@[j] != ' ',
            decreases k,
        {
            k = k - 1;
        }
        proof {
            lemma_after_last_space(value@, k as int);
        }
        SessionId(String::from_str(value.substring_char(k, n)))
    }
}

/// The part of `s` after its last space (all of `s` without one).
pub open spec fn after_last_space(s: Seq<char>) -> Seq<char>
    decreases s.len(),
{
    if s.len() == 0 {
        s
    } else if s.last() == ' ' {
        Seq::empty()
    } else {
        after_last_space(s.drop_last()) + seq![s.last()]
    }
}

proof fn lemma_after_last_space(s: Seq<char>, k: int)
    requires
        0 <= k <= s.len(),
        k == 0 || s[k - 1] == ' ',
        forall|j: int| k <= j < s.len() ==> s[j] != ' ',
    ensures
        after_last_space(s) == s.subrange(k, s.len() as int),
    decreases s.len(),
{
    if s.len() > 0 {
        if s.last() == ' ' {
            assert(k == s.len());
        } else {
            lemma_after_last_space(s.drop_last(), k);
            assert(s.subrange(k, s.len() as int) =~= s.drop_last().subrange(k, s.len() - 1) + seq![s.last()]);
        }
    } else {
        assert(s.subrange(k, s.len() as int) =~= s);
    }
}

#[derive(Clone, Copy, Debug, PartialEq, Eq, Structural)]
pub enum FeedKind {
    Rss,
}

impl FeedKind {
    /// The stored name of the kind.
    pub fn as_str(&self) -> (r: &'static str)
        ensures
            r@ == seq!['r', 's', 's'],
    {
        proof {
            reveal_strlit("rss");
        }
        match self {
            FeedKind::Rss => "rss",
        }
    }
}

/// A subscribed feed source.
#[derive(Clone, Debug)]
pub struct Feed {
    pub id: FeedId,
    pub url: String,
    pub title: String,
    pub kind: FeedKind,
    pub disabled: bool,
    /// The feed's icon, as a data URL.
    pub icon: Option<String>,
    pub html_url: Option<String>,
}

/// A persisted entry of a feed.
#[derive(Clone, Debug)]
pub struct Article {
    pub id: ArticleId,
    /// The feed-scoped key of the entry.
    pub article_id: String,
    pub feed_id: FeedId,
    pub title: String,
    pub content: String,
    pub published: Timestamp,
    pub link: Option<String>,
}

#[derive(Clone, Debug)]
pub struct ArticleUserData {
    pub read: bool,
    pub saved: bool,
}

#[derive(Clone, Debug)]
pub struct ArticleSummary {
    pub id: ArticleId,
    pub article_id: String,
    pub feed_id: FeedId,
    pub title: String,
    pub published: Timestamp,
    pub link: Option<String>,
    pub read: bool,
    pub saved: bool,
}

#[derive(Clone, Debug)]
pub struct UserArticle {
    pub id: UserArticleId,
    pub user_id: UserId,
    pub article_id: ArticleId,
    pub read: bool,
    pub saved: bool,
}

impl UserArticle {
    /// A new record of what a user did with an article; an unset mark is
    /// false.
    pub fn new(user_id: UserId, article_id: ArticleId, read: Option<bool>, saved: Option<bool>) -> (r: Self)
        ensures
            r.user_id == user_id,
            r.article_id == article_id,
            r.read == (read == Some(true)),
            r.saved == (saved == Some(true)),
    {
        UserArticle {
            id: UserArticleId::new(),
            user_id,
            article_id,
            read: match read {
                Some(b) => b,
                None => false,
            },
            saved: match saved {
                Some(b) => b,
                None => false,
            },
        }
    }
}

pub struct CreateUserRequest {
    pub email: String,
    pub username: String,
    pub password: String,
}

pub struct CreateSessionRequest {
    pub username: String,
    pub password: String,
}

#[derive(Debug)]
pub struct AddFeedRequest {
    pub url: String,
    pub title: Option<String>,
    pub kind: Option<FeedKind>,
}

#[derive(Debug)]
pub struct UpdateFeedRequest {
    pub url: Option<String>,
    pub title: Option<String>,
}

#[derive(Clone)]
pub struct SessionResponse {
    pub id: SessionId,
    pub expires: Timestamp,
}

/// One ingestion attempt of a feed.
#[derive(Clone, Debug)]
pub struct FeedLog {
    pub id: FeedLogId,
    pub feed_id: FeedId,
    pub time: Timestamp,
    pub success: bool,
    pub message: Option<String>,
}

#[derive(Debug)]
pub struct CreateFeedGroupRequest {
    pub name: String,
}

#[derive(Clone, Debug)]
pub struct FeedGroup {
    pub id: FeedGroupId,
    pub name: String,
    pub user_id: UserId,
}

#[derive(Debug)]
pub struct AddGroupFeedRequest {
    pub feed_id: FeedId,
    pub move_feed: Option<bool>,
}

#[derive(Clone, Debug)]
pub struct FeedGroupFeed {
    pub id: FeedGroupFeedId,
    pub feed_group_id: FeedGroupId,
    pub feed_id: FeedId,
}

impl FeedGroupFeed {
    /// A new membership of a feed in a group.
    pub fn new(feed_id: FeedId, feed_group_id: FeedGroupId) -> (r: Self)
        ensures
            r.feed_id == feed_id,
            r.feed_group_id == feed_group_id,
    {
        FeedGroupFeed { id: FeedGroupFeedId::new(), feed_group_id, feed_id }
    }
}

#[derive(Clone, Debug)]
pub struct FeedGroupWithFeeds {
    pub id: FeedGroupId,
    pub name: String,
    pub user_id: UserId,
    pub feed_ids: Vec<FeedId>,
}

#[derive(Clone, Copy, Debug, PartialEq, Eq, Structural)]
pub struct FeedStat {
    pub total: i32,
    pub read: i32,
}

/// Article counts per feed, and the number of saved articles.
#[derive(Clone, Debug)]
pub struct FeedStats {
    pub feeds: std::collections::HashMap<FeedId, Option<FeedStat>>,
    pub saved: i32,
}

impl FeedStats {
    /// Statistics with no feed and nothing saved.
    pub fn new() -> (r: Self)
        ensures
            r.feeds@ == Map::<FeedId, Option<FeedStat>>::empty(),
            r.saved == 0,
    {
        FeedStats { feeds: std::collections::HashMap::new(), saved: 0 }
    }
}

#[derive(Clone, Copy, Debug)]
pub struct ArticleMarkRequest {
    pub read: Option<bool>,
    pub saved: Option<bool>,
}

#[derive(Clone, Debug)]
pub struct ArticlesMarkRequest {
    pub article_ids: Vec<ArticleId>,
    pub mark: ArticleMarkRequest,
}

#[derive(Clone, Debug)]
pub struct ArticlesMarkResponse {
    pub article_ids: Vec<ArticleId>,
}

#[derive(Clone, Copy, Debug)]
pub struct ArticlesQuery {
    pub saved: Option<bool>,
}

#[derive(Clone, Debug)]
pub struct Credentials {
    pub username: String,
    pub password: String,
    /// The URL to go to after a successful login.
    pub next: Option<String>,
}

} // verus!
