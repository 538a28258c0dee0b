use crate::content::{html_rewrite, normalization_rules, normalize_content};
use crate::dates::{resolve_date, resolved_date};
use crate::identity::{entry_key, entry_key_of};
use crate::parse::{CanonicalEntry, CanonicalFeed};
use crate::store::{has_key, keys_unique, upserted, written, ArticleStore, Row, RowData};
use crate::types::{clone_opt, ov, Feed, FeedId, FeedLog, FeedLogId, Timestamp};
use crate::urls::{join_url, joined_url, parse_url, parsed_url};
use vstd::prelude::*;

verus! {

/// The stored link of an entry: its link where it is an absolute URL, else
/// that link resolved against the feed's source URL.
pub open spec fn absolute_link(link: Option<Seq<char>>, source: Seq<char>) -> Option<Seq<char>> {
    match link {
        None => None,
        Some(l) => match parsed_url(l) {
            Some(u) => Some(u),
            None => joined_url(source, l),
        },
    }
}

pub open spec fn entry_error_prefix() -> Seq<char> {
    seq!['e', 'r', 'r', 'o', 'r', ' ', 'p', 'r', 'o', 'c', 'e', 's', 's', 'i', 'n', 'g', ' ', 'e', 'n', 't', 'r', 'y', ':', ' ']
}

pub open spec fn icon_error_prefix() -> Seq<char> {
    seq!['e', 'r', 'r', 'o', 'r', ' ', 'g', 'e', 't', 't', 'i', 'n', 'g', ' ', 'i', 'c', 'o', 'n', ':', ' ']
}

/// What one entry gives: the row to write, or the message recorded where
/// its content cannot be normalized.
pub open spec fn entry_outcome(e: CanonicalEntry, source: Seq<char>, now: Timestamp) -> Result<RowData, Seq<char>> {
    match html_rewrite(e.content@, ov(e.link), normalization_rules()) {
        Err(msg) => Err(entry_error_prefix() + msg),
        Ok(c) => Ok(
            RowData {
                key: entry_key_of(ov(e.guid), ov(e.link), e.title@, e.content@, ov(e.summary)),
                title: e.title@,
                content: c,
                link: absolute_link(ov(e.link), source),
                published: resolved_date(ov(e.published_raw), e.published_at, now),
            },
        ),
    }
}

/// The rows that the entries give, in document order.
pub open spec fn rows_of(es: Seq<CanonicalEntry>, source: Seq<char>, now: Timestamp) -> Seq<RowData>
    decreases es.len(),
{
    if es.len() == 0 {
        Seq::empty()
    } else {
        let r = rows_of(es.drop_last(), source, now);
        match entry_outcome(es.last(), source, now) {
            Ok(d) => r.push(d),
            Err(_) => r,
        }
    }
}

/// The messages of the entries that fail, in document order.
pub open spec fn errors_of(es: Seq<CanonicalEntry>, source: Seq<char>, now: Timestamp) -> Seq<Seq<char>>
    decreases es.len(),
{
    if es.len() == 0 {
        Seq::empty()
    } else {
        let r = errors_of(es.drop_last(), source, now);
        match entry_outcome(es.last(), source, now) {
            Ok(_) => r,
            Err(m) => r.push(m),
        }
    }
}

/// Some row data in `rows` has key `key`.
pub open spec fn key_in(rows: Seq<RowData>, key: Seq<char>) -> bool {
    exists|k: int| 0 <= k < rows.len() && #[trigger] rows[k].key == key
}

/// The last row data in `rows` with key `key`.
pub open spec fn last_with_key(rows: Seq<RowData>, key: Seq<char>) -> RowData
    decreases rows.len(),
{
    if rows.len() == 0 {
        arbitrary()
    } else if rows.last().key == key {
        rows.last()
    } else {
        last_with_key(rows.drop_last(), key)
    }
}

/// `new` is `old` after writing each of `rows` under feed `feed`, in order:
/// no row is removed and none changes identity; only rows of `feed` with a
/// key among `rows` change, each to the data last written for its key;
/// every key of `rows` has a row; and a row is added only for a key that
/// had none.
pub open spec fn ingested(old: Seq<Row>, new: Seq<Row>, feed: Seq<char>, rows: Seq<RowData>) -> bool {
    &&& new.len() >= old.len()
    &&& forall|i: int|
        0 <= i < old.len() ==> {
            &&& (#[trigger] new[i]).id == old[i].id
            &&& new[i].feed == old[i].feed
            &&& new[i].key == old[i].key
            &&& !(old[i].feed == feed && key_in(rows, old[i].key)) ==> new[i] == old[i]
        }
    &&& forall|k: int| 0 <= k < rows.len() ==> has_key(new, feed, #[trigger] rows[k].key)
    &&& forall|i: int|
        old.len() <= i < new.len() ==> {
            &&& (#[trigger] new[i]).feed == feed
            &&& key_in(rows, new[i].key)
            &&& !has_key(old, feed, new[i].key)
        }
    &&& forall|i: int|
        0 <= i < new.len() && (#[trigger] new[i]).feed == feed && key_in(rows, new[i].key) ==> written(
            new[i],
            new[i],
            last_with_key(rows, new[i].key),
        )
}

proof fn lemma_ingested_empty(s: Seq<Row>, feed: Seq<char>)
    ensures
        ingested(s, s, feed, Seq::empty()),
{
}

proof fn lemma_last_with_key_push(rows: Seq<RowData>, d: RowData, key: Seq<char>)
    ensures
        last_with_key(rows.push(d), key) == (if d.key == key {
            d
        } else {
            last_with_key(rows, key)
        }),
{
    assert(rows.push(d).drop_last() =~= rows);
}

proof fn lemma_key_in_push(rows: Seq<RowData>, d: RowData, key: Seq<char>)
    ensures
        key_in(rows.push(d), key) == (key_in(rows, key) || d.key == key),
{
    let p = rows.push(d);
    if key_in(p, key) {
        let k = choose|k: int| 0 <= k < p.len() && #[trigger] p[k].key == key;
        if k < rows.len() {
            assert(rows[k].key == key);
        }
    }
    if key_in(rows, key) {
        let k = choose|k: int| 0 <= k < rows.len() && #[trigger] rows[k].key == key;
        assert(p[k].key == key);
    }
    if d.key == key {
        assert(p[rows.len() as int].key == key);
    }
}

/// Writing one more row data keeps `ingested`.
proof fn lemma_ingested_step(s0: Seq<Row>, s1: Seq<Row>, s2: Seq<Row>, feed: Seq<char>, rows: Seq<RowData>, d: RowData)
    requires
        ingested(s0, s1, feed, rows),
        keys_unique(s1),
        keys_unique(s2),
        upserted(s1, s2, feed, d),
    ensures
        ingested(s0, s2, feed, rows.push(d)),
{
    let p = rows.push(d);
    assert forall|key: Seq<char>| #[trigger] key_in(p, key) == (key_in(rows, key) || d.key == key) by {
        lemma_key_in_push(rows, d, key);
    }
    assert forall|key: Seq<char>| #[trigger] last_with_key(p, key) == (if d.key == key {
        d
    } else {
        last_with_key(rows, key)
    }) by {
        lemma_last_with_key_push(rows, d, key);
    }
    // Identity of each row of s1 is kept in s2.
    assert forall|i: int| 0 <= i < s1.len() implies (#[trigger] s2[i]).id == s1[i].id && s2[i].feed
        == s1[i].feed && s2[i].key == s1[i].key by {
        if has_key(s1, feed, d.key) {
            if s1[i].feed == feed && s1[i].key == d.key {
            } else {
            }
        } else {
            assert(s2[i] == s1[i]);
        }
    }
    assert forall|k: int| 0 <= k < p.len() implies has_key(s2, feed, #[trigger] p[k].key) by {
        if k < rows.len() {
            assert(p[k] == rows[k]);
            assert(has_key(s1, feed, rows[k].key));
            let i = choose|i: int| 0 <= i < s1.len() && #[trigger] s1[i].feed == feed && s1[i].key == rows[k].key;
            assert(s2[i].feed == feed && s2[i].key == rows[k].key);
        } else {
            if has_key(s1, feed, d.key) {
                let i = choose|i: int| 0 <= i < s1.len() && #[trigger] s1[i].feed == feed && s1[i].key == d.key;
                assert(s2[i].feed == feed && s2[i].key == d.key);
            } else {
                let i = s2.len() - 1;
                assert(s2[i].feed == feed && s2[i].key == d.key);
            }
        }
    }
    assert forall|i: int| 0 <= i < s0.len() implies {
        &&& (#[trigger] s2[i]).id == s0[i].id
        &&& s2[i].feed == s0[i].feed
        &&& s2[i].key == s0[i].key
        &&& !(s0[i].feed == feed && key_in(p, s0[i].key)) ==> s2[i] == s0[i]
    } by {
        assert(s1[i].id == s0[i].id && s1[i].feed == s0[i].feed && s1[i].key == s0[i].key);
        if !(s0[i].feed == feed && key_in(p, s0[i].key)) {
            assert(!(s0[i].feed == feed && key_in(rows, s0[i].key)));
            assert(s1[i] == s0[i]);
            if has_key(s1, feed, d.key) {
                assert(!(s1[i].feed == feed && s1[i].key == d.key));
            } else {
            }
        }
    }
    assert forall|i: int| s0.len() <= i < s2.len() implies {
        &&& (#[trigger] s2[i]).feed == feed
        &&& key_in(p, s2[i].key)
        &&& !has_key(s0, feed, s2[i].key)
    } by {
        if i < s1.len() {
            assert(s1[i].feed == feed && key_in(rows, s1[i].key) && !has_key(s0, feed, s1[i].key));
        } else {
            assert(!has_key(s1, feed, d.key));
            assert(i == s2.len() - 1);
            assert(s2[i].key == d.key);
            if has_key(s0, feed, d.key) {
                let j = choose|j: int| 0 <= j < s0.len() && #[trigger] s0[j].feed == feed && s0[j].key == d.key;
                assert(s1[j].feed == feed && s1[j].key == d.key);
            }
        }
    }
    assert forall|i: int|
        0 <= i < s2.len() && (#[trigger] s2[i]).feed == feed && key_in(p, s2[i].key) implies written(
        s2[i],
        s2[i],
        last_with_key(p, s2[i].key),
    ) by {
        if s2[i].key == d.key {
            if has_key(s1, feed, d.key) {
                assert(s1[i].feed == feed && s1[i].key == d.key);
            } else {
                if i < s1.len() {
                    assert(s2[i] == s1[i]);
                    assert(has_key(s1, feed, d.key));
                }
            }
        } else {
            if i < s1.len() {
                assert(key_in(rows, s2[i].key));
                if has_key(s1, feed, d.key) {
                    assert(!(s1[i].feed == feed && s1[i].key == d.key));
                }
                assert(s2[i] == s1[i]);
            } else {
                assert(!has_key(s1, feed, d.key));
            }
        }
    }
}

/// Re-ingesting entries with the same keys adds no row and keeps the
/// identity of every row: the second run only updates rows in place.
pub proof fn lemma_reingestion_adds_no_row(
    s0: Seq<Row>,
    s1: Seq<Row>,
    s2: Seq<Row>,
    feed: Seq<char>,
    rows1: Seq<RowData>,
    rows2: Seq<RowData>,
)
    requires
        ingested(s0, s1, feed, rows1),
        ingested(s1, s2, feed, rows2),
        forall|key: Seq<char>| #[trigger] key_in(rows2, key) ==> key_in(rows1, key),
    ensures
        s2.len() == s1.len(),
        forall|i: int|
            0 <= i < s1.len() ==> (#[trigger] s2[i]).id == s1[i].id && s2[i].feed == s1[i].feed
                && s2[i].key == s1[i].key,
{
    if s2.len() > s1.len() {
        let i = s1.len() as int;
        assert(key_in(rows2, s2[i].key));
        let k = choose|k: int| 0 <= k < rows1.len() && #[trigger] rows1[k].key == s2[i].key;
        assert(has_key(s1, feed, rows1[k].key));
    }
}

/// The keys that a document's entries give do not depend on the time of
/// the run.
pub proof fn lemma_keys_ignore_time(es: Seq<CanonicalEntry>, source: Seq<char>, now1: Timestamp, now2: Timestamp)
    ensures
        rows_of(es, source, now1).len() == rows_of(es, source, now2).len(),
        forall|k: int|
            0 <= k < rows_of(es, source, now1).len() ==> #[trigger] rows_of(es, source, now1)[k].key
                == rows_of(es, source, now2)[k].key,
        forall|key: Seq<char>| #[trigger] key_in(rows_of(es, source, now2), key) ==> key_in(rows_of(es, source, now1), key),
    decreases es.len(),
{
    if es.len() > 0 {
        lemma_keys_ignore_time(es.drop_last(), source, now1, now2);
    }
    let r1 = rows_of(es, source, now1);
    let r2 = rows_of(es, source, now2);
    assert forall|key: Seq<char>| #[trigger] key_in(r2, key) implies key_in(r1, key) by {
        let k = choose|k: int| 0 <= k < r2.len() && #[trigger] r2[k].key == key;
        assert(r1[k].key == key);
    }
}

/// Refreshing twice from documents with the same entries, at any two times,
/// leaves the article count of the first run and the identity of every row.
pub proof fn lemma_refresh_is_idempotent(
    s0: Seq<Row>,
    s1: Seq<Row>,
    s2: Seq<Row>,
    feed: Seq<char>,
    source: Seq<char>,
    es: Seq<CanonicalEntry>,
    now1: Timestamp,
    now2: Timestamp,
)
    requires
        ingested(s0, s1, feed, rows_of(es, source, now1)),
        ingested(s1, s2, feed, rows_of(es, source, now2)),
    ensures
        s2.len() == s1.len(),
        forall|i: int|
            0 <= i < s1.len() ==> (#[trigger] s2[i]).id == s1[i].id && s2[i].feed == s1[i].feed
                && s2[i].key == s1[i].key,
{
    lemma_keys_ignore_time(es, source, now1, now2);
    lemma_reingestion_adds_no_row(s0, s1, s2, feed, rows_of(es, source, now1), rows_of(es, source, now2));
}

proof fn lemma_outcomes_collected(es: Seq<CanonicalEntry>, source: Seq<char>, now: Timestamp, k: int)
    requires
        0 <= k < es.len(),
    ensures
        match entry_outcome(es[k], source, now) {
            Ok(d) => key_in(rows_of(es, source, now), d.key),
            Err(m) => errors_of(es, source, now).contains(m),
        },
    decreases es.len(),
{
    let r = rows_of(es, source, now);
    let e = errors_of(es, source, now);
    let pr = rows_of(es.drop_last(), source, now);
    let pe = errors_of(es.drop_last(), source, now);
    if k == es.len() - 1 {
        match entry_outcome(es[k], source, now) {
            Ok(d) => {
                assert(r[r.len() - 1].key == d.key);
            },
            Err(m) => {
                assert(e[e.len() - 1] == m);
            },
        }
    } else {
        assert(es.drop_last()[k] == es[k]);
        lemma_outcomes_collected(es.drop_last(), source, now, k);
        match entry_outcome(es[k], source, now) {
            Ok(d) => {
                let j = choose|j: int| 0 <= j < pr.len() && #[trigger] pr[j].key == d.key;
                assert(r[j].key == d.key);
            },
            Err(m) => {
                let j = choose|j: int| 0 <= j < pe.len() && pe[j] == m;
                assert(e[j] == m);
            },
        }
    }
}

proof fn lemma_last_is_entry(es: Seq<CanonicalEntry>, source: Seq<char>, now: Timestamp, k: int)
    requires
        0 <= k < es.len(),
        entry_outcome(es[k], source, now) is Ok,
        forall|j: int|
            0 <= j < es.len() && j != k && (#[trigger] entry_outcome(es[j], source, now)) is Ok
                ==> entry_outcome(es[j], source, now)->Ok_0.key != entry_outcome(es[k], source, now)->Ok_0.key,
    ensures
        last_with_key(rows_of(es, source, now), entry_outcome(es[k], source, now)->Ok_0.key)
            == entry_outcome(es[k], source, now)->Ok_0,
    decreases es.len(),
{
    let d = entry_outcome(es[k], source, now)->Ok_0;
    let pre = es.drop_last();
    let r = rows_of(pre, source, now);
    if k == es.len() - 1 {
        lemma_last_with_key_push(r, d, d.key);
    } else {
        assert forall|j: int|
            0 <= j < pre.len() && j != k && (#[trigger] entry_outcome(pre[j], source, now)) is Ok implies entry_outcome(
            pre[j],
            source,
            now,
        )->Ok_0.key != entry_outcome(pre[k], source, now)->Ok_0.key by {
            assert(pre[j] == es[j]);
            assert(pre[k] == es[k]);
        }
        assert(pre[k] == es[k]);
        lemma_last_is_entry(pre, source, now, k);
        let last = es.len() - 1;
        match entry_outcome(es[last], source, now) {
            Ok(d2) => {
                assert(d2.key != d.key);
                lemma_last_with_key_push(r, d2, d.key);
            },
            Err(_) => {},
        }
    }
}

/// One entry that fails does not stop the others: after a run, each entry
/// whose content normalizes has a row under its key, holding the data last
/// written for that key (its own data where no other entry shares the key),
/// and each entry that fails has its message among the run's messages.
pub proof fn lemma_entry_failures_are_isolated(
    s0: Seq<Row>,
    s1: Seq<Row>,
    feed: Seq<char>,
    source: Seq<char>,
    es: Seq<CanonicalEntry>,
    now: Timestamp,
    k: int,
)
    requires
        ingested(s0, s1, feed, rows_of(es, source, now)),
        0 <= k < es.len(),
    ensures
        match entry_outcome(es[k], source, now) {
            Ok(d) => {
                &&& has_key(s1, feed, d.key)
                &&& forall|i: int|
                    0 <= i < s1.len() && (#[trigger] s1[i]).feed == feed && s1[i].key == d.key ==> written(
                        s1[i],
                        s1[i],
                        last_with_key(rows_of(es, source, now), d.key),
                    )
                &&& (forall|j: int|
                    0 <= j < es.len() && j != k && (#[trigger] entry_outcome(es[j], source, now)) is Ok
                        ==> entry_outcome(es[j], source, now)->Ok_0.key != d.key) ==> forall|i: int|
                    0 <= i < s1.len() && (#[trigger] s1[i]).feed == feed && s1[i].key == d.key ==> written(
                        s1[i],
                        s1[i],
                        d,
                    )
            },
            Err(m) => errors_of(es, source, now).contains(m),
        },
{
    lemma_outcomes_collected(es, source, now, k);
    let r = rows_of(es, source, now);
    match entry_outcome(es[k], source, now) {
        Ok(d) => {
            let j = choose|j: int| 0 <= j < r.len() && #[trigger] r[j].key == d.key;
            assert(has_key(s1, feed, r[j].key));
            assert(key_in(r, d.key));
            if forall|j: int|
                0 <= j < es.len() && j != k && (#[trigger] entry_outcome(es[j], source, now)) is Ok
                    ==> entry_outcome(es[j], source, now)->Ok_0.key != d.key {
                lemma_last_is_entry(es, source, now, k);
            }
        },
        Err(m) => {},
    }
}

/// Re-ingesting a document updates each entry in place: where the keys of
/// the entries that normalize are distinct, each such entry's row already
/// stood after the first run, keeps its identity, and holds the entry's data
/// from the second run.
pub proof fn lemma_reingested_entry_updated_in_place(
    s0: Seq<Row>,
    s1: Seq<Row>,
    s2: Seq<Row>,
    feed: Seq<char>,
    source: Seq<char>,
    es: Seq<CanonicalEntry>,
    now1: Timestamp,
    now2: Timestamp,
    k: int,
)
    requires
        ingested(s0, s1, feed, rows_of(es, source, now1)),
        ingested(s1, s2, feed, rows_of(es, source, now2)),
        0 <= k < es.len(),
        entry_outcome(es[k], source, now2) is Ok,
        forall|j: int|
            0 <= j < es.len() && j != k && (#[trigger] entry_outcome(es[j], source, now2)) is Ok
                ==> entry_outcome(es[j], source, now2)->Ok_0.key != entry_outcome(es[k], source, now2)->Ok_0.key,
    ensures
        s2.len() == s1.len(),
        exists|i: int|
            0 <= i < s1.len() && (#[trigger] s1[i]).feed == feed && s1[i].key == entry_outcome(
                es[k],
                source,
                now2,
            )->Ok_0.key && s2[i].id == s1[i].id && written(s2[i], s2[i], entry_outcome(es[k], source, now2)->Ok_0),
{
    let d = entry_outcome(es[k], source, now2)->Ok_0;
    lemma_refresh_is_idempotent(s0, s1, s2, feed, source, es, now1, now2);
    lemma_keys_ignore_time(es, source, now1, now2);
    lemma_outcomes_collected(es, source, now2, k);
    assert(key_in(rows_of(es, source, now1), d.key));
    let j = choose|j: int| 0 <= j < rows_of(es, source, now1).len() && #[trigger] rows_of(es, source, now1)[j].key == d.key;
    assert(has_key(s1, feed, rows_of(es, source, now1)[j].key));
    let i = choose|i: int| 0 <= i < s1.len() && #[trigger] s1[i].feed == feed && s1[i].key == d.key;
    lemma_entry_failures_are_isolated(s1, s2, feed, source, es, now2, k);
    assert(s2[i].feed == feed && s2[i].key == d.key);
}

/// Each line of a newline-joined text stands in it whole.
pub proof fn lemma_joined_contains(lines: Seq<Seq<char>>, j: int)
    requires
        0 <= j < lines.len(),
    ensures
        exists|start: int|
            0 <= start && start + lines[j].len() <= joined_lines(lines).len() && #[trigger] joined_lines(
                lines,
            ).subrange(start, start + lines[j].len()) == lines[j],
    decreases lines.len(),
{
    let t = joined_lines(lines);
    if lines.len() == 1 {
        assert(j == 0);
        assert(t.subrange(0, lines[0].len() as int) =~= lines[0]);
        let z: int = 0;
        assert(joined_lines(lines).subrange(z, z + lines[j].len()) == lines[j]);
    } else {
        let p = lines.drop_last();
        let tp = joined_lines(p);
        assert(t == tp + seq!['\n'] + lines.last());
        if j == lines.len() - 1 {
            let start = tp.len() as int + 1;
            assert(t.subrange(start, start + lines[j].len()) =~= lines[j]);
            assert(joined_lines(lines).subrange(start, start + lines[j].len()) == lines[j]);
        } else {
            assert(p[j] == lines[j]);
            lemma_joined_contains(p, j);
            let start = choose|start: int|
                0 <= start && start + p[j].len() <= tp.len() && #[trigger] tp.subrange(start, start + p[j].len())
                    == p[j];
            assert(t.subrange(start, start + lines[j].len()) =~= tp.subrange(start, start + p[j].len()));
            assert(joined_lines(lines).subrange(start, start + lines[j].len()) == lines[j]);
        }
    }
}

/// An entry that fails is reported in the run's log message: its message,
/// which begins with `error processing entry: `, stands whole among the
/// newline-joined messages.
pub proof fn lemma_entry_failure_is_reported(
    icon: Result<Option<String>, String>,
    es: Seq<CanonicalEntry>,
    source: Seq<char>,
    now: Timestamp,
    k: int,
)
    requires
        0 <= k < es.len(),
        entry_outcome(es[k], source, now) is Err,
    ensures
        entry_outcome(es[k], source, now)->Err_0.subrange(0, entry_error_prefix().len() as int) == entry_error_prefix(),
        exists|start: int|
            0 <= start && start + entry_outcome(es[k], source, now)->Err_0.len() <= joined_lines(
                icon_errors(icon) + errors_of(es, source, now),
            ).len() && #[trigger] joined_lines(icon_errors(icon) + errors_of(es, source, now)).subrange(
                start,
                start + entry_outcome(es[k], source, now)->Err_0.len(),
            ) == entry_outcome(es[k], source, now)->Err_0,
{
    let m = entry_outcome(es[k], source, now)->Err_0;
    let msg = html_rewrite(es[k].content@, ov(es[k].link), normalization_rules())->Err_0;
    assert(m == entry_error_prefix() + msg);
    assert(m.subrange(0, entry_error_prefix().len() as int) =~= entry_error_prefix());
    lemma_outcomes_collected(es, source, now, k);
    let e = errors_of(es, source, now);
    let j = choose|j: int| 0 <= j < e.len() && e[j] == m;
    let all = icon_errors(icon) + e;
    assert(all[icon_errors(icon).len() + j] == m);
    lemma_joined_contains(all, icon_errors(icon).len() + j);
}

/// The positions, in order, of the feeds that a refresh of all feeds runs
/// on: those not disabled.
pub open spec fn enabled_positions(feeds: Seq<Feed>) -> Seq<int>
    decreases feeds.len(),
{
    if feeds.len() == 0 {
        Seq::empty()
    } else {
        let r = enabled_positions(feeds.drop_last());
        if feeds.last().disabled {
            r
        } else {
            r.push(feeds.len() - 1)
        }
    }
}

/// The positions of the feeds to refresh, in order.
pub fn refresh_targets(feeds: &Vec<Feed>) -> (r: Vec<usize>)
    ensures
        r@.map_values(|i: usize| i as int) == enabled_positions(feeds@),
{
    let mut r: Vec<usize> = Vec::new();
    let mut k: usize = 0;
    while k < feeds.len()
        invariant
            k <= feeds@.len(),
            r@.map_values(|i: usize| i as int) == enabled_positions(feeds@.take(k as int)),
        decreases feeds@.len() - k,
    {
        proof {
            assert(feeds@.take(k + 1).drop_last() =~= feeds@.take(k as int));
        }
        let ghost before = r@;
        if !feeds[k].disabled {
            r.push(k);
            assert(r@.map_values(|i: usize| i as int) =~= before.map_values(|i: usize| i as int).push(k as int));
        }
        k = k + 1;
    }
    assert(feeds@.take(feeds@.len() as int) =~= feeds@);
    r
}

/// The data that a prepared entry writes.
pub struct Prepared {
    pub key: String,
    pub title: String,
    pub content: String,
    pub link: Option<String>,
    pub published: Timestamp,
}

pub open spec fn prepared_data(p: Prepared) -> RowData {
    RowData { key: p.key@, title: p.title@, content: p.content@, link: ov(p.link), published: p.published }
}

pub open spec fn outcome_matches(r: Result<Prepared, String>, o: Result<RowData, Seq<char>>) -> bool {
    match r {
        Ok(p) => o == Ok::<RowData, Seq<char>>(prepared_data(p)),
        Err(m) => o == Err::<RowData, Seq<char>>(m@),
    }
}

/// The link to store for an entry of the feed at `source`.
pub fn resolve_link(link: &Option<String>, source: &str) -> (r: Option<String>)
    ensures
        ov(r) == absolute_link(ov(*link), source@),
{
    match link {
        None => None,
        Some(l) => match parse_url(l.as_str()) {
            Some(u) => Some(u),
            None => join_url(source, l.as_str()),
        },
    }
}

fn opt_str(o: &Option<String>) -> (r: Option<&str>)
    ensures
        crate::identity::opt_view(r) == ov(*o),
{
    match o {
        Some(s) => Some(s.as_str()),
        None => None,
    }
}

/// Normalizes, dates and keys one entry of the feed at `source`.
pub fn prepare_entry(e: &CanonicalEntry, source: &str, now: Timestamp) -> (r: Result<Prepared, String>)
    ensures
        outcome_matches(r, entry_outcome(*e, source@, now)),
{
    let link = opt_str(&e.link);
    let content = match normalize_content(e.content.as_str(), link) {
        Ok(c) => c,
        Err(m) => {
            let mut msg = String::from_str("error processing entry: ");
            proof {
                reveal_strlit("error processing entry: ");
            }
            msg.append(m.as_str());
            assert(msg@ =~= entry_error_prefix() + m@);
            return Err(msg);
        },
    };
    let key = entry_key(opt_str(&e.guid), link, e.title.as_str(), e.content.as_str(), opt_str(&e.summary));
    let published = resolve_date(opt_str(&e.published_raw), e.published_at, now);
    Ok(Prepared { key, title: e.title.clone(), content, link: resolve_link(&e.link, source), published })
}

pub open spec fn views(v: Seq<String>) -> Seq<Seq<char>> {
    v.map_values(|s: String| s@)
}

/// The lines joined by newlines.
pub open spec fn joined_lines(lines: Seq<Seq<char>>) -> Seq<char>
    decreases lines.len(),
{
    if lines.len() == 0 {
        Seq::empty()
    } else if lines.len() == 1 {
        lines[0]
    } else {
        joined_lines(lines.drop_last()) + seq!['\n'] + lines.last()
    }
}

/// The lines joined by newlines.
pub fn join_lines(lines: &Vec<String>) -> (r: String)
    ensures
        r@ == joined_lines(views(lines@)),
{
    let mut out = String::new();
    let mut k: usize = 0;
    while k < lines.len()
        invariant
            k <= lines@.len(),
            out@ == joined_lines(views(lines@.take(k as int))),
        decreases lines@.len() - k,
    {
        proof {
            reveal_strlit("\n");
            assert(views(lines@.take(k + 1)).drop_last() =~= views(lines@.take(k as int)));
            assert(views(lines@.take(k + 1)).last() == lines@[k as int]@);
        }
        if k > 0 {
            out.append("\n");
        }
        out.append(lines[k].as_str());
        proof {
            if k == 0 {
                assert(views(lines@.take(1))[0] == lines@[0]@);
            }
        }
        k = k + 1;
    }
    assert(lines@.take(lines@.len() as int) =~= lines@);
    out
}

/// What a refresh reports and changes besides the articles.
pub struct RefreshOutcome {
    /// The entry to append to the feed's ingestion log.
    pub log: FeedLog,
    /// The new icon of the feed, where one was found.
    pub icon: Option<String>,
}

/// The messages that the icon step contributes.
pub open spec fn icon_errors(icon: Result<Option<String>, String>) -> Seq<Seq<char>> {
    match icon {
        Err(m) => seq![icon_error_prefix() + m@],
        Ok(_) => Seq::empty(),
    }
}

/// Runs one refresh of `feed`: `document` is the fetched and parsed
/// document, or the reason it could not be had; `icon` is the outcome of
/// the icon step for that document; `now` is the time of the run.
///
/// A document that could not be had changes no article and is logged as a
/// failure with its reason. Otherwise each entry is written in document
/// order; an entry that fails is skipped and its message kept; the run is
/// logged as a success with the messages joined by newlines.
pub fn refresh_feed(
    feed: &Feed,
    document: Result<CanonicalFeed, String>,
    icon: Result<Option<String>, String>,
    store: &mut ArticleStore,
    now: Timestamp,
) -> (r: RefreshOutcome)
    requires
        old(store).wf(),
    ensures
        final(store).wf(),
        r.log.feed_id.0@ == feed.id.0@,
        r.log.time == now,
        match document {
            Err(reason) => {
                &&& final(store)@ == old(store)@
                &&& !r.log.success
                &&& ov(r.log.message) == Some(reason@)
                &&& r.icon is None
            },
            Ok(doc) => {
                &&& ingested(old(store)@, final(store)@, feed.id.0@, rows_of(doc.entries@, feed.url@, now))
                &&& r.log.success
                &&& ov(r.log.message) == Some(
                    joined_lines(icon_errors(icon) + errors_of(doc.entries@, feed.url@, now)),
                )
                &&& ov(r.icon) == (match icon {
                    Ok(Some(u)) => Some(u@),
                    _ => None,
                })
            },
        },
{
    let feed_id = FeedId(feed.id.0.clone());
    let doc = match document {
        Err(reason) => {
            let log = FeedLog { id: FeedLogId::new(), feed_id, time: now, success: false, message: Some(reason) };
            return RefreshOutcome { log, icon: None };
        },
        Ok(doc) => doc,
    };
    let mut errors: Vec<String> = Vec::new();
    let new_icon = match icon {
        Ok(Some(u)) => Some(u),
        Ok(None) => None,
        Err(m) => {
            let mut msg = String::from_str("error getting icon: ");
            proof {
                reveal_strlit("error getting icon: ");
            }
            msg.append(m.as_str());
            let ghost mv = msg@;
            assert(mv =~= icon_error_prefix() + m@);
            errors.push(msg);
            assert(views(errors@) =~= seq![mv]);
            None
        },
    };
    assert(views(errors@) =~= icon_errors(icon));
    let ghost s0 = store@;
    let ghost es = doc.entries@;
    proof {
        lemma_ingested_empty(s0, feed.id.0@);
        assert(es.take(0) =~= Seq::<CanonicalEntry>::empty());
    }
    let mut k: usize = 0;
    while k < doc.entries.len()
        invariant
            k <= es.len(),
            es == doc.entries@,
            store.wf(),
            ingested(s0, store@, feed.id.0@, rows_of(es.take(k as int), feed.url@, now)),
            views(errors@) == icon_errors(icon) + errors_of(es.take(k as int), feed.url@, now),
        decreases es.len() - k,
    {
        let ghost before = store@;
        let ghost eb = errors@;
        let ghost prefix = es.take(k as int);
        proof {
            assert(es.take(k + 1).drop_last() =~= prefix);
            assert(es.take(k + 1).last() == es[k as int]);
        }
        match prepare_entry(&doc.entries[k], feed.url.as_str(), now) {
            Ok(p) => {
                let ghost d = prepared_data(p);
                store.upsert(&feed.id, p.key, p.title, p.content, p.link, p.published);
                proof {
                    lemma_ingested_step(s0, before, store@, feed.id.0@, rows_of(prefix, feed.url@, now), d);
                }
            },
            Err(m) => {
                let ghost mv = m@;
                errors.push(m);
                proof {
                    assert(views(errors@) =~= views(eb).push(mv));
                }
            },
        }
        k = k + 1;
    }
    proof {
        assert(es.take(es.len() as int) =~= es);
    }
    let message = join_lines(&errors);
    let log = FeedLog { id: FeedLogId::new(), feed_id, time: now, success: true, message: Some(message) };
    RefreshOutcome { log, icon: new_icon }
}

} // verus!
