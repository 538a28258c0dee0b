use feedcore::icon::{icon_from_response, icon_url};
use feedcore::ingest::{join_lines, refresh_feed, refresh_targets, RefreshOutcome};
use feedcore::parse::{parse_feed, CanonicalEntry, CanonicalFeed};
use feedcore::store::ArticleStore;
use feedcore::types::{Feed, FeedId, FeedKind, Timestamp};

fn feed(url: &str) -> Feed {
    Feed {
        id: FeedId("feed-1".to_string()),
        url: url.to_string(),
        title: "Example".to_string(),
        kind: FeedKind::Rss,
        disabled: false,
        icon: None,
        html_url: None,
    }
}

fn entry(guid: &str, content: &str, link: &str) -> CanonicalEntry {
    CanonicalEntry {
        title: format!("title {}", guid),
        content: content.to_string(),
        link: Some(link.to_string()),
        guid: Some(guid.to_string()),
        summary: None,
        published_raw: Some("01 Jan 2024 10:00 +0000".to_string()),
        published_at: None,
    }
}

const SCENARIO: &str = "<?xml version=\"1.0\"?><rss version=\"2.0\"><channel><title>C</title><link>https://example.com/</link><description>d</description><item><guid>abc</guid><title>T</title><pubDate>01 Jan 2024 10:00 +0000</pubDate></item></channel></rss>";

fn run(store: &mut ArticleStore, doc: &[u8], now: i64) -> RefreshOutcome {
    let f = feed("https://example.com/feed");
    refresh_feed(&f, parse_feed(doc), Ok(None), store, Timestamp::utc(now))
}

#[test]
fn scenario_single_item_ingests_once() {
    let mut store = ArticleStore::new();
    let out = run(&mut store, SCENARIO.as_bytes(), 5);
    assert!(out.log.success);
    assert_eq!(out.log.message.as_deref(), Some(""));
    assert_eq!(store.len(), 1);
    let a = store.get(0).clone();
    assert_eq!(a.article_id, "abc");
    assert_eq!(a.title, "T");
    assert_eq!(a.published, Timestamp { unix_seconds: 1704103200, offset_seconds: 0 });
    let out2 = run(&mut store, SCENARIO.as_bytes(), 99);
    assert!(out2.log.success);
    assert_eq!(store.len(), 1);
    assert_eq!(store.get(0).id.0, a.id.0);
}

#[test]
fn reingestion_updates_in_place() {
    let mut store = ArticleStore::new();
    let f = feed("https://example.com/feed");
    let doc = |content: &str| CanonicalFeed {
        title: "C".to_string(),
        site_link: "https://example.com/".to_string(),
        image: None,
        entries: vec![entry("a", content, "https://example.com/a"), entry("b", "b", "https://example.com/b")],
    };
    refresh_feed(&f, Ok(doc("first")), Ok(None), &mut store, Timestamp::utc(1));
    let ids: Vec<String> = (0..store.len()).map(|i| store.get(i).id.0.clone()).collect();
    refresh_feed(&f, Ok(doc("second")), Ok(None), &mut store, Timestamp::utc(2));
    assert_eq!(store.len(), 2);
    for i in 0..2 {
        assert_eq!(store.get(i).id.0, ids[i]);
    }
    assert_eq!(store.get(0).content, "second");
}

#[test]
fn failing_entry_does_not_stop_the_others() {
    let mut store = ArticleStore::new();
    let f = feed("https://example.com/feed");
    let mut entries = vec![];
    for i in 1..=5 {
        let content = if i == 3 { "<a href=\"//[bad\">x</a>".to_string() } else { format!("<p>{}</p>", i) };
        entries.push(entry(&format!("e{}", i), &content, &format!("https://example.com/{}", i)));
    }
    let doc = CanonicalFeed { title: "C".to_string(), site_link: "https://example.com/".to_string(), image: None, entries };
    let out = refresh_feed(&f, Ok(doc), Ok(None), &mut store, Timestamp::utc(7));
    assert!(out.log.success);
    assert_eq!(store.len(), 4);
    let keys: Vec<String> = (0..4).map(|i| store.get(i).article_id.clone()).collect();
    assert_eq!(keys, vec!["e1", "e2", "e4", "e5"]);
    let msg = out.log.message.unwrap();
    assert!(msg.starts_with("error processing entry: "));
    assert!(!msg.contains('\n'));
}

#[test]
fn systemic_failure_changes_nothing() {
    let mut store = ArticleStore::new();
    run(&mut store, SCENARIO.as_bytes(), 5);
    let f = feed("https://example.com/feed");
    let out = refresh_feed(&f, Err("HTTP status 500".to_string()), Ok(None), &mut store, Timestamp::utc(8));
    assert!(!out.log.success);
    assert_eq!(out.log.message.as_deref(), Some("HTTP status 500"));
    assert_eq!(out.log.time, Timestamp::utc(8));
    assert!(out.icon.is_none());
    assert_eq!(store.len(), 1);
    assert_eq!(store.get(0).title, "T");
}

#[test]
fn unparsable_document_is_a_failure() {
    let mut store = ArticleStore::new();
    let out = run(&mut store, b"not a feed", 5);
    assert!(!out.log.success);
    assert_eq!(out.log.message.as_deref(), Some("invalid feed"));
    assert_eq!(store.len(), 0);
}

#[test]
fn icon_error_is_reported_not_fatal() {
    let mut store = ArticleStore::new();
    let f = feed("https://example.com/feed");
    let out = refresh_feed(&f, parse_feed(SCENARIO.as_bytes()), Err("icon request failed".to_string()), &mut store, Timestamp::utc(1));
    assert!(out.log.success);
    assert_eq!(out.log.message.as_deref(), Some("error getting icon: icon request failed"));
    assert_eq!(store.len(), 1);
    let out2 = refresh_feed(&f, parse_feed(SCENARIO.as_bytes()), Ok(Some("data:x".to_string())), &mut store, Timestamp::utc(1));
    assert_eq!(out2.icon.as_deref(), Some("data:x"));
}

#[test]
fn undated_entry_gets_time_of_run() {
    let mut store = ArticleStore::new();
    let f = feed("https://example.com/feed");
    let mut e = entry("u", "c", "https://example.com/u");
    e.published_raw = None;
    let doc = CanonicalFeed { title: "C".to_string(), site_link: "https://example.com/".to_string(), image: None, entries: vec![e] };
    refresh_feed(&f, Ok(doc), Ok(None), &mut store, Timestamp::utc(1234));
    assert_eq!(store.get(0).published, Timestamp::utc(1234));
}

#[test]
fn relative_entry_link_is_resolved_against_source() {
    let mut store = ArticleStore::new();
    let f = feed("https://example.com/feed/rss.xml");
    let doc = CanonicalFeed { title: "C".to_string(), site_link: "https://example.com/".to_string(), image: None, entries: vec![entry("r", "c", "posts/1")] };
    refresh_feed(&f, Ok(doc), Ok(None), &mut store, Timestamp::utc(1));
    assert_eq!(store.get(0).link.as_deref(), Some("https://example.com/feed/posts/1"));
}

#[test]
fn join_lines_uses_newlines() {
    assert_eq!(join_lines(&vec![]), "");
    assert_eq!(join_lines(&vec!["a".to_string()]), "a");
    assert_eq!(join_lines(&vec!["a".to_string(), "b".to_string(), "c".to_string()]), "a\nb\nc");
}

#[test]
fn refresh_targets_skip_disabled_feeds() {
    let mut b = feed("https://b.example/");
    b.disabled = true;
    let feeds = vec![feed("https://a.example/"), b, feed("https://c.example/")];
    assert_eq!(refresh_targets(&feeds), vec![0, 2]);
}

#[test]
fn icon_location_prefers_declared_image() {
    let r = icon_url(&Some("https://example.com/logo.png".to_string()), "https://example.com/");
    assert_eq!(r, Ok(Some("https://example.com/logo.png".to_string())));
    let r = icon_url(&None, "https://example.com/blog/");
    assert_eq!(r, Ok(Some("https://example.com/favicon.ico".to_string())));
    let r = icon_url(&None, "http://example.com:8080/x");
    assert_eq!(r, Ok(Some("http://example.com:8080/favicon.ico".to_string())));
    assert_eq!(icon_url(&None, "data:text/plain,hello"), Ok(None));
    assert!(icon_url(&None, "not a url").is_err());
    assert!(icon_url(&Some("::".to_string()), "https://example.com/").is_err());
}

#[test]
fn icon_response_becomes_data_url() {
    assert_eq!(icon_from_response("https://example.com/i.png", 200, Some("image/png"), &[1, 2, 3]), Ok(Some("data:image/png;base64,AQID".to_string())));
    assert_eq!(icon_from_response("https://example.com/i.png", 200, None, &[1, 2, 3]), Ok(None));
    assert_eq!(
        icon_from_response("https://example.com/i.png", 404, Some("image/png"), &[1]),
        Err("error downloading icon from https://example.com/i.png: [404]".to_string())
    );
    assert!(icon_from_response("https://example.com/i.png", 500, None, &[]).is_err());
    assert_eq!(icon_from_response("u", 204, None, &[]), Ok(None));
    assert_eq!(icon_from_response("u", 7, None, &[]), Err("error downloading icon from u: [7]".to_string()));
}
