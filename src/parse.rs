use crate::dates::{as_timestamp, parse_rfc3339, rfc3339_reading};
use crate::types::{clone_opt, ov, Timestamp};
use atom_syndication::{Entry as SourceEntry, Feed as SourceFeed};
use vstd::prelude::*;

verus! {

/// An RSS item as the document gives it.
pub struct RssItem {
    pub title: Option<String>,
    pub link: Option<String>,
    pub description: Option<String>,
    pub content: Option<String>,
    pub guid: Option<String>,
    pub pub_date: Option<String>,
    /// The first Dublin Core date of the item.
    pub dc_date: Option<String>,
}

/// An RSS channel as the document gives it.
pub struct RssChannel {
    pub title: String,
    pub link: String,
    pub image: Option<String>,
    pub items: Vec<RssItem>,
}

/// An Atom entry as the document gives it.
pub struct AtomEntry {
    pub title: String,
    pub id: String,
    /// The first link of the entry.
    pub link: Option<String>,
    pub content: Option<String>,
    pub summary: Option<String>,
    pub published: Option<Timestamp>,
}

/// An Atom feed as the document gives it.
pub struct AtomFeed {
    pub title: String,
    /// The first link of the feed.
    pub link: Option<String>,
    pub icon: Option<String>,
    pub entries: Vec<AtomEntry>,
}

/// An entry in the one shape that both formats are brought to.
pub struct CanonicalEntry {
    pub title: String,
    pub content: String,
    pub link: Option<String>,
    pub guid: Option<String>,
    /// The entry's summary (RSS description, Atom summary), where it has one.
    pub summary: Option<String>,
    pub published_raw: Option<String>,
    pub published_at: Option<Timestamp>,
}

/// A feed document in canonical shape.
pub struct CanonicalFeed {
    pub title: String,
    pub site_link: String,
    pub image: Option<String>,
    pub entries: Vec<CanonicalEntry>,
}

/// What `rss::Channel::read_from` reads from a byte string, field for field.
pub uninterp spec fn rss_reading(bytes: Seq<u8>) -> Option<RssChannel>;

/// What `atom_syndication::Feed::read_from` reads from a byte string, field
/// for field.
pub uninterp spec fn atom_reading(bytes: Seq<u8>) -> Option<AtomFeed>;

/// Relies on `rss::Channel::read_from`: the channel in `bytes`, if they hold
/// one; the fields that entries need are moved over unchanged.
#[verifier::external_body]
fn read_rss(bytes: &[u8]) -> (r: Option<RssChannel>)
    ensures
        r == rss_reading(bytes@),
{
    let c = rss::Channel::read_from(bytes).ok()?;
    let item = |i: rss::Item| RssItem {
        title: i.title, link: i.link, description: i.description, content: i.content,
        guid: i.guid.map(|g| g.value), pub_date: i.pub_date,
        dc_date: i.dublin_core_ext.and_then(|d| d.dates.into_iter().next()),
    };
    Some(RssChannel { title: c.title, link: c.link, image: c.image.map(|i| i.url), items: c.items.into_iter().map(item).collect() })
}

/// Relies on `atom_syndication::Feed::read_from`: the feed in `bytes`, if
/// they hold one; the fields that entries need are moved over unchanged.
#[verifier::external_body]
fn read_atom(bytes: &[u8]) -> (r: Option<AtomFeed>)
    ensures
        r == atom_reading(bytes@),
{
    let f = SourceFeed::read_from(bytes).ok()?;
    let entry = |e: SourceEntry| AtomEntry {
        title: e.title.value, id: e.id, link: e.links.into_iter().next().map(|l| l.href),
        content: e.content.and_then(|c| c.value), summary: e.summary.map(|s| s.value),
        published: e.published.map(|p| Timestamp { unix_seconds: p.timestamp(), offset_seconds: p.offset().local_minus_utc() }),
    };
    let link = f.links.into_iter().next().map(|l| l.href);
    Some(AtomFeed { title: f.title.value, link, icon: f.icon, entries: f.entries.into_iter().map(entry).collect() })
}

pub open spec fn untitled() -> Seq<char> {
    seq!['U', 'n', 't', 'i', 't', 'l', 'e', 'd']
}

/// The first present value among `a` and `b`, else the empty string.
pub open spec fn first_or_empty(a: Option<Seq<char>>, b: Option<Seq<char>>) -> Seq<char> {
    match a {
        Some(x) => x,
        None => match b {
            Some(y) => y,
            None => Seq::empty(),
        },
    }
}

/// `e` is the canonical form of the RSS item `i`. A Dublin Core date stands
/// as the structured date only for an item without a publish date.
pub open spec fn rss_entry(e: CanonicalEntry, i: RssItem) -> bool {
    &&& e.title@ == (match ov(i.title) {
        Some(t) => t,
        None => untitled(),
    })
    &&& e.content@ == first_or_empty(ov(i.content), ov(i.description))
    &&& ov(e.link) == ov(i.link)
    &&& ov(e.guid) == ov(i.guid)
    &&& ov(e.summary) == ov(i.description)
    &&& ov(e.published_raw) == ov(i.pub_date)
    &&& e.published_at == (match (i.pub_date, i.dc_date) {
        (None, Some(d)) => as_timestamp(rfc3339_reading(d@)),
        _ => None,
    })
}

/// `e` is the canonical form of the Atom entry `a`.
pub open spec fn atom_entry(e: CanonicalEntry, a: AtomEntry) -> bool {
    &&& e.title@ == a.title@
    &&& e.content@ == first_or_empty(ov(a.content), ov(a.summary))
    &&& ov(e.link) == ov(a.link)
    &&& ov(e.guid) == Some(a.id@)
    &&& ov(e.summary) == ov(a.summary)
    &&& e.published_raw is None
    &&& e.published_at == a.published
}

/// `f` is the canonical form of the RSS channel `c`.
pub open spec fn rss_feed(f: CanonicalFeed, c: RssChannel) -> bool {
    &&& f.title@ == c.title@
    &&& f.site_link@ == c.link@
    &&& ov(f.image) == ov(c.image)
    &&& f.entries@.len() == c.items@.len()
    &&& forall|k: int| 0 <= k < c.items@.len() ==> #[trigger] rss_entry(f.entries@[k], c.items@[k])
}

/// `f` is the canonical form of the Atom feed `a`.
pub open spec fn atom_feed(f: CanonicalFeed, a: AtomFeed) -> bool {
    &&& f.title@ == a.title@
    &&& f.site_link@ == (match ov(a.link) {
        Some(l) => l,
        None => Seq::empty(),
    })
    &&& ov(f.image) == ov(a.icon)
    &&& f.entries@.len() == a.entries@.len()
    &&& forall|k: int| 0 <= k < a.entries@.len() ==> #[trigger] atom_entry(f.entries@[k], a.entries@[k])
}

fn first_present(a: &Option<String>, b: &Option<String>) -> (r: String)
    ensures
        r@ == first_or_empty(ov(*a), ov(*b)),
{
    match a {
        Some(x) => x.clone(),
        None => match b {
            Some(y) => y.clone(),
            None => String::new(),
        },
    }
}

/// The canonical form of one RSS item.
pub fn entry_from_rss(i: &RssItem) -> (e: CanonicalEntry)
    ensures
        rss_entry(e, *i),
{
    let title = match &i.title {
        Some(t) => t.clone(),
        None => {
            proof {
                reveal_strlit("Untitled");
            }
            let u = String::from_str("Untitled");
            assert(u@ =~= untitled());
            u
        },
    };
    let published_at = match (&i.pub_date, &i.dc_date) {
        (None, Some(d)) => parse_rfc3339(d.as_str()),
        _ => None,
    };
    CanonicalEntry {
        title,
        content: first_present(&i.content, &i.description),
        link: clone_opt(&i.link),
        guid: clone_opt(&i.guid),
        summary: clone_opt(&i.description),
        published_raw: clone_opt(&i.pub_date),
        published_at,
    }
}

/// The canonical form of one Atom entry.
pub fn entry_from_atom(a: &AtomEntry) -> (e: CanonicalEntry)
    ensures
        atom_entry(e, *a),
{
    CanonicalEntry {
        title: a.title.clone(),
        content: first_present(&a.content, &a.summary),
        link: clone_opt(&a.link),
        guid: Some(a.id.clone()),
        summary: clone_opt(&a.summary),
        published_raw: None,
        published_at: a.published,
    }
}

/// The canonical form of an RSS channel, entries in document order.
pub fn feed_from_rss(c: &RssChannel) -> (f: CanonicalFeed)
    ensures
        rss_feed(f, *c),
{
    let mut entries: Vec<CanonicalEntry> = Vec::new();
    let mut k: usize = 0;
    while k < c.items.len()
        invariant
            k <= c.items@.len(),
            entries@.len() == k,
            forall|j: int| 0 <= j < k ==> #[trigger] rss_entry(entries@[j], c.items@[j]),
        decreases c.items@.len() - k,
    {
        let e = entry_from_rss(&c.items[k]);
        entries.push(e);
        k = k + 1;
    }
    CanonicalFeed { title: c.title.clone(), site_link: c.link.clone(), image: clone_opt(&c.image), entries }
}

/// The canonical form of an Atom feed, entries in document order.
pub fn feed_from_atom(a: &AtomFeed) -> (f: CanonicalFeed)
    ensures
        atom_feed(f, *a),
{
    let mut entries: Vec<CanonicalEntry> = Vec::new();
    let mut k: usize = 0;
    while k < a.entries.len()
        invariant
            k <= a.entries@.len(),
            entries@.len() == k,
            forall|j: int| 0 <= j < k ==> #[trigger] atom_entry(entries@[j], a.entries@[j]),
        decreases a.entries@.len() - k,
    {
        let e = entry_from_atom(&a.entries[k]);
        entries.push(e);
        k = k + 1;
    }
    let site_link = match &a.link {
        Some(l) => l.clone(),
        None => String::new(),
    };
    CanonicalFeed { title: a.title.clone(), site_link, image: clone_opt(&a.icon), entries }
}

/// `r` is what parsing `bytes` gives: RSS where it reads as RSS, else Atom
/// where it reads as Atom, else the error `invalid feed`.
pub open spec fn parsed_as(r: Result<CanonicalFeed, String>, bytes: Seq<u8>) -> bool {
    match rss_reading(bytes) {
        Some(c) => r matches Ok(f) && rss_feed(f, c),
        None => match atom_reading(bytes) {
            Some(a) => r matches Ok(f) && atom_feed(f, a),
            None => r matches Err(e) && e@ == seq!['i', 'n', 'v', 'a', 'l', 'i', 'd', ' ', 'f', 'e', 'e', 'd'],
        },
    }
}

/// Parses a feed document: RSS first, then Atom.
pub fn parse_feed(bytes: &[u8]) -> (r: Result<CanonicalFeed, String>)
    ensures
        parsed_as(r, bytes@),
{
    if let Some(c) = read_rss(bytes) {
        return Ok(feed_from_rss(&c));
    }
    if let Some(a) = read_atom(bytes) {
        return Ok(feed_from_atom(&a));
    }
    proof {
        reveal_strlit("invalid feed");
    }
    let e = String::from_str("invalid feed");
    assert(e@ =~= seq!['i', 'n', 'v', 'a', 'l', 'i', 'd', ' ', 'f', 'e', 'e', 'd']);
    Err(e)
}

} // verus!
