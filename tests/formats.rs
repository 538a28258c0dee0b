use feedcore::content::{normalization_rule_table, normalize_content, rebase_reference};
use feedcore::dates::{parse_rfc3339, parse_time, replace_zone_abbreviation, resolve_date};
use feedcore::identity::{entry_key, hash_key};
use feedcore::parse::parse_feed;
use feedcore::types::{FeedKind, FeedStats, SessionId, Timestamp, UserArticle, UserId, ArticleId};

const BASE: &str = "https://example.com/feed";

#[test]
fn root_relative_link_is_rewritten() {
    let out = normalize_content("<a href=\"/x\">x</a>", Some(BASE)).unwrap();
    assert_eq!(out, "<a href=\"https://example.com/x\">x</a>");
}

#[test]
fn absolute_link_is_left_unchanged() {
    let html = "<a href=\"http://other.com/y\">y</a>";
    assert_eq!(normalize_content(html, Some(BASE)).unwrap(), html);
}

#[test]
fn other_relative_forms_are_left_unchanged() {
    let html = "<a href=\"../x\">a</a><img src=\"y.png\">";
    assert_eq!(normalize_content(html, Some(BASE)).unwrap(), html);
}

#[test]
fn image_source_is_rewritten_and_anchor_style_removed() {
    let out = normalize_content("<img src=\"/i.png\"><a style=\"color:red\" href=\"/z\">z</a>", Some(BASE)).unwrap();
    assert_eq!(out, "<img src=\"https://example.com/i.png\"><a href=\"https://example.com/z\">z</a>");
}

#[test]
fn without_base_nothing_is_rewritten() {
    let html = "<a href=\"/x\">x</a>";
    assert_eq!(normalize_content(html, None).unwrap(), html);
    assert_eq!(normalize_content(html, Some("not a url")).unwrap(), html);
}

#[test]
fn unresolvable_link_is_an_error() {
    assert!(normalize_content("<a href=\"//[bad\">x</a>", Some(BASE)).is_err());
    assert!(rebase_reference(Some("//[bad".to_string()), Some(BASE)).is_err());
}

#[test]
fn rebase_reference_cases() {
    assert_eq!(rebase_reference(Some("/x".to_string()), Some(BASE)), Ok(Some("https://example.com/x".to_string())));
    assert_eq!(rebase_reference(Some("http://other.com/y".to_string()), Some(BASE)), Ok(None));
    assert_eq!(rebase_reference(None, Some(BASE)), Ok(None));
    assert_eq!(rebase_reference(Some("/x".to_string()), None), Ok(None));
}

#[test]
fn dates_in_each_layout() {
    let t = Timestamp { unix_seconds: 1704103200, offset_seconds: 0 };
    assert_eq!(parse_time("Mon, 01 Jan 2024 10:00:00 +0000"), Some(t));
    assert_eq!(parse_time("01 Jan 2024 10:00:00 +0000"), Some(t));
    assert_eq!(parse_time("01 Jan 2024 10:00 +0000"), Some(t));
    assert_eq!(
        parse_time("01 Jan 2024 10:00 +0200"),
        Some(Timestamp { unix_seconds: 1704103200 - 7200, offset_seconds: 7200 })
    );
    assert_eq!(parse_time("yesterday"), None);
}

#[test]
fn zone_abbreviations_become_offsets() {
    assert_eq!(
        parse_time("Mon, 01 Jan 2024 10:00:00 PST"),
        Some(Timestamp { unix_seconds: 1704103200 + 8 * 3600, offset_seconds: -8 * 3600 })
    );
    assert_eq!(
        parse_time("01 Jan 2024 10:00 GMT"),
        Some(Timestamp { unix_seconds: 1704103200, offset_seconds: 0 })
    );
    assert_eq!(replace_zone_abbreviation("10:00 EDT").as_deref(), Some("10:00 -0400"));
    assert_eq!(replace_zone_abbreviation("10:00 UTC").as_deref(), Some("10:00 +0000"));
    assert_eq!(replace_zone_abbreviation("UTC").as_deref(), Some("+0000"));
    assert_eq!(replace_zone_abbreviation("10:00 XYZ"), None);
    assert_eq!(replace_zone_abbreviation("10:00AEST"), None);
    assert_eq!(replace_zone_abbreviation("10:00 utc"), None);
}

#[test]
fn date_resolution_order() {
    let now = Timestamp::utc(42);
    let s = Timestamp::utc(7);
    assert_eq!(resolve_date(Some("01 Jan 2024 10:00 +0000"), Some(s), now), s);
    assert_eq!(resolve_date(Some("01 Jan 2024 10:00 +0000"), None, now), Timestamp::utc(1704103200));
    assert_eq!(resolve_date(Some("garbage"), None, now), now);
    assert_eq!(resolve_date(None, None, now), now);
    assert_eq!(parse_rfc3339("2024-01-01T10:00:00Z"), Some(Timestamp::utc(1704103200)));
    assert_eq!(parse_rfc3339("01 Jan 2024"), None);
}

#[test]
fn identity_precedence() {
    assert_eq!(entry_key(Some("g"), Some("https://l"), "t", "c", None), "g");
    assert_eq!(entry_key(None, Some("https://l"), "t", "c", None), "https://l");
    assert_eq!(
        entry_key(None, None, "Hello", "<p>World</p>", None),
        "sha256:cef46ddf0309de4c5da541a25e8d965c4ddedfe67bd7791706148e84e9058dd5"
    );
    assert_eq!(hash_key("Hello", "<p>World</p>", None), entry_key(None, None, "Hello", "<p>World</p>", None));
}

#[test]
fn identifier_key_survives_edits() {
    assert_eq!(entry_key(Some("g"), None, "old", "old", None), entry_key(Some("g"), Some("x"), "new", "new", None));
    assert_ne!(entry_key(None, None, "t", "old", None), entry_key(None, None, "t", "new", None));
}

#[test]
fn rss_document_is_parsed() {
    let doc = "<?xml version=\"1.0\"?><rss version=\"2.0\"><channel><title>C</title><link>https://example.com/</link><description>d</description><image><url>https://example.com/i.png</url><title>i</title><link>https://example.com/</link></image><item><guid>abc</guid><title>T</title><pubDate>01 Jan 2024 10:00 +0000</pubDate></item><item><description>desc</description></item></channel></rss>";
    let f = parse_feed(doc.as_bytes()).unwrap();
    assert_eq!(f.title, "C");
    assert_eq!(f.site_link, "https://example.com/");
    assert_eq!(f.image.as_deref(), Some("https://example.com/i.png"));
    assert_eq!(f.entries.len(), 2);
    assert_eq!(f.entries[0].guid.as_deref(), Some("abc"));
    assert_eq!(f.entries[0].title, "T");
    assert_eq!(f.entries[0].content, "");
    assert_eq!(f.entries[0].published_raw.as_deref(), Some("01 Jan 2024 10:00 +0000"));
    assert_eq!(f.entries[1].title, "Untitled");
    assert_eq!(f.entries[1].content, "desc");
    assert_eq!(f.entries[1].guid, None);
}

#[test]
fn atom_document_is_parsed() {
    let doc = "<?xml version=\"1.0\"?><feed xmlns=\"http://www.w3.org/2005/Atom\"><title>A</title><id>urn:a</id><updated>2024-01-01T00:00:00Z</updated><link href=\"https://example.org/\"/><entry><title>E</title><id>urn:e1</id><updated>2024-01-01T00:00:00Z</updated><published>2024-01-01T12:00:00+02:00</published><link href=\"https://example.org/e1\"/><summary>S</summary></entry></feed>";
    let f = parse_feed(doc.as_bytes()).unwrap();
    assert_eq!(f.title, "A");
    assert_eq!(f.site_link, "https://example.org/");
    assert_eq!(f.entries.len(), 1);
    let e = &f.entries[0];
    assert_eq!(e.guid.as_deref(), Some("urn:e1"));
    assert_eq!(e.link.as_deref(), Some("https://example.org/e1"));
    assert_eq!(e.content, "S");
    assert_eq!(e.published_at, Some(Timestamp { unix_seconds: 1704103200, offset_seconds: 7200 }));
}

#[test]
fn invalid_document_is_rejected() {
    assert_eq!(parse_feed(b"<html></html>").err().as_deref(), Some("invalid feed"));
}

#[test]
fn authorization_header_gives_session_id() {
    assert_eq!(SessionId::from_authorization_header("Bearer abc").0, "abc");
    assert_eq!(SessionId::from_authorization_header("abc").0, "abc");
    assert_eq!(SessionId::from_authorization_header("Bearer ").0, "");
}

#[test]
fn small_types() {
    assert_eq!(FeedKind::Rss.as_str(), "rss");
    let s = FeedStats::new();
    assert!(s.feeds.is_empty());
    assert_eq!(s.saved, 0);
    let u = UserArticle::new(UserId("u".to_string()), ArticleId("a".to_string()), Some(true), None);
    assert!(u.read);
    assert!(!u.saved);
    assert_ne!(UserId::new().0, UserId::new().0);
}

#[test]
fn summary_enters_the_digest() {
    let with_summary = entry_key(None, None, "Hello", "<p>World</p>", Some("sum"));
    assert_eq!(with_summary, "sha256:d4498424b45c516640ec60fc6b273569b3717efd77942a2dc51aa781850502e0");
    assert_eq!(with_summary.len(), 71);
    assert_ne!(with_summary, entry_key(None, None, "Hello", "<p>World</p>", Some("other")));
    assert_ne!(with_summary, entry_key(None, None, "Hello", "<p>World</p>", None));
}

#[test]
fn rss_summary_distinguishes_items_without_identity() {
    let doc = "<?xml version=\"1.0\"?><rss version=\"2.0\"><channel><title>C</title><link>https://example.com/</link><description>d</description><item><title>T</title><content:encoded xmlns:content=\"http://purl.org/rss/1.0/modules/content/\">X</content:encoded><description>one</description></item><item><title>T</title><content:encoded xmlns:content=\"http://purl.org/rss/1.0/modules/content/\">X</content:encoded><description>two</description></item></channel></rss>";
    let f = parse_feed(doc.as_bytes()).unwrap();
    assert_eq!(f.entries[0].summary.as_deref(), Some("one"));
    let key = |i: usize| {
        let e = &f.entries[i];
        entry_key(e.guid.as_deref(), e.link.as_deref(), &e.title, &e.content, e.summary.as_deref())
    };
    assert_ne!(key(0), key(1));
}

#[test]
fn publish_date_decides_over_dublin_core_date() {
    let head = "<?xml version=\"1.0\"?><rss version=\"2.0\" xmlns:dc=\"http://purl.org/dc/elements/1.1/\"><channel><title>C</title><link>https://example.com/</link><description>d</description>";
    let doc = format!("{}<item><guid>a</guid><pubDate>garbage</pubDate><dc:date>2024-01-01T10:00:00Z</dc:date></item><item><guid>b</guid><dc:date>2024-01-01T10:00:00Z</dc:date></item></channel></rss>", head);
    let f = parse_feed(doc.as_bytes()).unwrap();
    assert_eq!(f.entries[0].published_at, None);
    assert_eq!(f.entries[1].published_at, Some(Timestamp::utc(1704103200)));
    let now = Timestamp::utc(99);
    let e0 = &f.entries[0];
    assert_eq!(resolve_date(e0.published_raw.as_deref(), e0.published_at, now), now);
    let e1 = &f.entries[1];
    assert_eq!(resolve_date(e1.published_raw.as_deref(), e1.published_at, now), Timestamp::utc(1704103200));
}

#[test]
fn weekday_without_seconds_is_read() {
    assert_eq!(parse_time("Mon, 01 Jan 2024 10:00 +0000"), Some(Timestamp::utc(1704103200)));
}

#[test]
fn zone_abbreviation_needs_a_word_boundary() {
    assert_eq!(replace_zone_abbreviation("10:00\u{e9}EST"), None);
    assert_eq!(replace_zone_abbreviation("10:00 EST"), Some("10:00 -0500".to_string()));
}

#[test]
fn daylight_names_have_their_own_offsets() {
    for (abbr, off) in [("PST", "-0800"), ("PDT", "-0700"), ("EST", "-0500"), ("EDT", "-0400"), ("CST", "-0600"), ("CDT", "-0500"), ("MST", "-0700"), ("MDT", "-0600"), ("GMT", "+0000"), ("UTC", "+0000")] {
        assert_eq!(replace_zone_abbreviation(&format!("10:00 {}", abbr)), Some(format!("10:00 {}", off)));
    }
    assert_eq!(
        parse_time("Mon, 01 Jul 2024 10:00:00 PDT"),
        Some(Timestamp { unix_seconds: 1719828000 + 7 * 3600, offset_seconds: -7 * 3600 })
    );
}

#[test]
fn rule_table_holds_the_three_rules() {
    let t = normalization_rule_table();
    let v: Vec<(&str, &str, bool)> = t.iter().map(|r| (r.selector.as_str(), r.attribute.as_str(), r.rebase)).collect();
    assert_eq!(v, vec![("a[style]", "style", false), ("a", "href", true), ("img", "src", true)]);
}

#[test]
fn other_elements_are_not_rewritten() {
    let html = "<img style=\"x\" src=\"https://example.com/i.png\"><link href=\"/x\">";
    assert_eq!(normalize_content(html, Some(BASE)).unwrap(), html);
}
