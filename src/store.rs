use crate::types::{ov, Article, ArticleId, FeedId, Timestamp};
use vstd::prelude::*;

verus! {

/// What a stored article holds.
pub ghost struct Row {
    pub id: Seq<char>,
    pub feed: Seq<char>,
    pub key: Seq<char>,
    pub title: Seq<char>,
    pub content: Seq<char>,
    pub link: Option<Seq<char>>,
    pub published: Timestamp,
}

/// The data that an upsert writes for one key.
pub ghost struct RowData {
    pub key: Seq<char>,
    pub title: Seq<char>,
    pub content: Seq<char>,
    pub link: Option<Seq<char>>,
    pub published: Timestamp,
}

pub open spec fn row_of(a: Article) -> Row {
    Row {
        id: a.id.0@,
        feed: a.feed_id.0@,
        key: a.article_id@,
        title: a.title@,
        content: a.content@,
        link: ov(a.link),
        published: a.published,
    }
}

/// No two rows share a feed and a key.
pub open spec fn keys_unique(rows: Seq<Row>) -> bool {
    forall|i: int, j: int|
        0 <= i < rows.len() && 0 <= j < rows.len() && i != j ==> !(#[trigger] rows[i].feed
            == #[trigger] rows[j].feed && rows[i].key == rows[j].key)
}

/// Some row holds feed `feed` and key `key`.
pub open spec fn has_key(rows: Seq<Row>, feed: Seq<char>, key: Seq<char>) -> bool {
    exists|i: int| 0 <= i < rows.len() && #[trigger] rows[i].feed == feed && rows[i].key == key
}

/// Row `r` has the identity of `o` and the data of `d`.
pub open spec fn written(r: Row, o: Row, d: RowData) -> bool {
    r.id == o.id && r.feed == o.feed && r.key == o.key && r.title == d.title && r.content
        == d.content && r.link == d.link && r.published == d.published
}

/// `new` is `old` after writing `d` under feed `feed`: the row with that
/// key is updated in place, keeping its identity; where there is none, a
/// row is appended.
pub open spec fn upserted(old: Seq<Row>, new: Seq<Row>, feed: Seq<char>, d: RowData) -> bool {
    if has_key(old, feed, d.key) {
        &&& new.len() == old.len()
        &&& forall|i: int|
            0 <= i < old.len() ==> if (#[trigger] old[i]).feed == feed && old[i].key == d.key {
                written(new[i], old[i], d)
            } else {
                new[i] == old[i]
            }
    } else {
        &&& new.len() == old.len() + 1
        &&& forall|i: int| 0 <= i < old.len() ==> #[trigger] new[i] == old[i]
        &&& new.last().feed == feed
        &&& new.last().key == d.key
        &&& written(new.last(), new.last(), d)
    }
}

/// The persisted articles: at most one row per feed and key.
pub struct ArticleStore {
    articles: Vec<Article>,
}

impl View for ArticleStore {
    type V = Seq<Row>;

    closed spec fn view(&self) -> Seq<Row> {
        self.articles@.map_values(|a: Article| row_of(a))
    }
}

impl ArticleStore {
    pub open spec fn wf(&self) -> bool {
        keys_unique(self@)
    }

    /// An empty store.
    pub fn new() -> (r: Self)
        ensures
            r@ == Seq::<Row>::empty(),
            r.wf(),
    {
        let r = ArticleStore { articles: Vec::new() };
        assert(r@ =~= Seq::<Row>::empty());
        r
    }

    /// The number of stored articles.
    pub fn len(&self) -> (r: usize)
        ensures
            r == self@.len(),
    {
        self.articles.len()
    }

    /// The article at position `i`.
    pub fn get(&self, i: usize) -> (r: &Article)
        requires
            i < self@.len(),
        ensures
            row_of(*r) == self@[i as int],
    {
        &self.articles[i]
    }

    /// The position of the article with feed `feed` and key `key`.
    pub fn find(&self, feed: &String, key: &String) -> (r: Option<usize>)
        ensures
            r matches Some(i) ==> i < self@.len() && self@[i as int].feed == feed@ && self@[i as int].key
                == key@,
            r is None ==> !has_key(self@, feed@, key@),
    {
        let mut i: usize = 0;
        while i < self.articles.len()
            invariant
                i <= self@.len(),
                self@.len() == self.articles@.len(),
                forall|j: int| 0 <= j < i ==> !(#[trigger] self@[j].feed == feed@ && self@[j].key == key@),
            decreases self.articles@.len() - i,
        {
            let a = &self.articles[i];
            assert(self@[i as int] == row_of(self.articles@[i as int]));
            if a.feed_id.0 == *feed && a.article_id == *key {
                return Some(i);
            }
            i = i + 1;
        }
        None
    }

    /// Inserts the entry `key` of feed `feed_id`, or updates its title,
    /// content, link and publish time where the store has it.
    pub fn upsert(
        &mut self,
        feed_id: &FeedId,
        key: String,
        title: String,
        content: String,
        link: Option<String>,
        published: Timestamp,
    )
        requires
            old(self).wf(),
        ensures
            final(self).wf(),
            upserted(
                old(self)@,
                final(self)@,
                feed_id.0@,
                RowData { key: key@, title: title@, content: content@, link: ov(link), published },
            ),
    {
        let ghost d = RowData { key: key@, title: title@, content: content@, link: ov(link), published };
        let ghost before = self@;
        match self.find(&feed_id.0, &key) {
            Some(i) => {
                let old_row = &self.articles[i];
                let a = Article {
                    id: ArticleId(old_row.id.0.clone()),
                    article_id: old_row.article_id.clone(),
                    feed_id: FeedId(old_row.feed_id.0.clone()),
                    title,
                    content,
                    published,
                    link,
                };
                self.articles.set(i, a);
                proof {
                    assert forall|j: int| 0 <= j < before.len() && j != i implies (#[trigger] before[j]).feed
                        != feed_id.0@ || before[j].key != d.key by {
                        assert(before[i as int].feed == feed_id.0@ && before[i as int].key == d.key);
                    }
                    assert(self@.len() == before.len());
                    assert forall|j: int| 0 <= j < before.len() implies (if (#[trigger] before[j]).feed
                        == feed_id.0@ && before[j].key == d.key {
                        written(self@[j], before[j], d)
                    } else {
                        self@[j] == before[j]
                    }) by {
                        if j == i {
                        } else {
                            assert(self.articles@[j] == old(self).articles@[j]);
                        }
                    }
                    assert forall|x: int, y: int|
                        0 <= x < self@.len() && 0 <= y < self@.len() && x != y implies !(
                        #[trigger] self@[x].feed == #[trigger] self@[y].feed && self@[x].key
                            == self@[y].key) by {
                        assert(self@[x].feed == before[x].feed && self@[x].key == before[x].key);
                        assert(self@[y].feed == before[y].feed && self@[y].key == before[y].key);
                    }
                }
            },
            None => {
                let a = Article {
                    id: ArticleId::new(),
                    article_id: key,
                    feed_id: FeedId(feed_id.0.clone()),
                    title,
                    content,
                    published,
                    link,
                };
                self.articles.push(a);
                proof {
                    assert forall|j: int| 0 <= j < before.len() implies #[trigger] self@[j] == before[j] by {
                        assert(self.articles@[j] == old(self).articles@[j]);
                    }
                    assert forall|x: int, y: int|
                        0 <= x < self@.len() && 0 <= y < self@.len() && x != y implies !(
                        #[trigger] self@[x].feed == #[trigger] self@[y].feed && self@[x].key
                            == self@[y].key) by {
                        if x < before.len() && y < before.len() {
                            assert(self@[x] == before[x] && self@[y] == before[y]);
                        } else if x < before.len() {
                            assert(self@[x] == before[x]);
                            if self@[x].feed == self@[y].feed && self@[x].key == self@[y].key {
                                assert(before[x].feed == feed_id.0@ && before[x].key == d.key);
                            }
                        } else {
                            assert(self@[y] == before[y]);
                            if self@[x].feed == self@[y].feed && self@[x].key == self@[y].key {
                                assert(before[y].feed == feed_id.0@ && before[y].key == d.key);
                            }
                        }
                    }
                }
            },
        }
    }
}

} // verus!
