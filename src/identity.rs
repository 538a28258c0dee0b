use crate::digest::{hex_lower, lemma_hex_injective, lemma_hex_len, sha256, sha256_digest, to_hex};
use vstd::prelude::*;
use vstd::utf8::encode_utf8;

verus! {

/// The text that the digest key covers: the title, the content and, where
/// there is one, the summary, one after the other.
pub open spec fn digest_text(title: Seq<char>, content: Seq<char>, summary: Option<Seq<char>>) -> Seq<char> {
    match summary {
        Some(s) => title + content + s,
        None => title + content,
    }
}

/// The key of an entry that has neither an identifier nor a link:
/// `sha256:` and the hex digest of its digest text.
pub open spec fn content_key(title: Seq<char>, content: Seq<char>, summary: Option<Seq<char>>) -> Seq<char> {
    seq!['s', 'h', 'a', '2', '5', '6', ':'] + hex_lower(
        sha256_digest(encode_utf8(digest_text(title, content, summary))),
    )
}

/// The feed-scoped key of an entry: its identifier, else its link, else the
/// digest of its title, content and summary.
pub open spec fn entry_key_of(
    guid: Option<Seq<char>>,
    link: Option<Seq<char>>,
    title: Seq<char>,
    content: Seq<char>,
    summary: Option<Seq<char>>,
) -> Seq<char> {
    match guid {
        Some(g) => g,
        None => match link {
            Some(l) => l,
            None => content_key(title, content, summary),
        },
    }
}

pub open spec fn opt_view(s: Option<&str>) -> Option<Seq<char>> {
    match s {
        Some(t) => Some(t@),
        None => None,
    }
}

/// The digest key of a title, a content and a summary: 71 characters.
pub fn hash_key(title: &str, content: &str, summary: Option<&str>) -> (r: String)
    ensures
        r@ == content_key(title@, content@, opt_view(summary)),
        r@.len() == 71,
{
    let mut text = String::from_str(title);
    text.append(content);
    if let Some(s) = summary {
        text.append(s);
    }
    assert(text@ =~= digest_text(title@, content@, opt_view(summary)));
    let digest = sha256(text.as_str().as_bytes());
    let hex = to_hex(digest.as_slice());
    proof {
        lemma_hex_len(digest@);
    }
    let mut key = String::from_str("sha256:");
    proof {
        reveal_strlit("sha256:");
    }
    key.append(hex.as_str());
    assert(key@ == content_key(title@, content@, opt_view(summary)));
    key
}

/// The feed-scoped key of an entry.
pub fn entry_key(guid: Option<&str>, link: Option<&str>, title: &str, content: &str, summary: Option<&str>) -> (r: String)
    ensures
        r@ == entry_key_of(opt_view(guid), opt_view(link), title@, content@, opt_view(summary)),
        guid is None && link is None ==> r@.len() == 71,
{
    match guid {
        Some(g) => String::from_str(g),
        None => match link {
            Some(l) => String::from_str(l),
            None => hash_key(title, content, summary),
        },
    }
}

/// An entry with an identifier keeps its key whatever its link, title,
/// content and summary become.
pub proof fn lemma_identifier_key_is_stable(
    guid: Seq<char>,
    link1: Option<Seq<char>>,
    title1: Seq<char>,
    content1: Seq<char>,
    summary1: Option<Seq<char>>,
    link2: Option<Seq<char>>,
    title2: Seq<char>,
    content2: Seq<char>,
    summary2: Option<Seq<char>>,
)
    ensures
        entry_key_of(Some(guid), link1, title1, content1, summary1) == guid,
        entry_key_of(Some(guid), link1, title1, content1, summary1) == entry_key_of(
            Some(guid),
            link2,
            title2,
            content2,
            summary2,
        ),
{
}

/// An entry with neither identifier nor link is keyed by the digest of its
/// title, content and summary: its key is that digest key, and the key
/// differs from another entry's exactly where the two digests differ.
pub proof fn lemma_digest_key_follows_content(
    title1: Seq<char>,
    content1: Seq<char>,
    summary1: Option<Seq<char>>,
    title2: Seq<char>,
    content2: Seq<char>,
    summary2: Option<Seq<char>>,
)
    ensures
        entry_key_of(None, None, title1, content1, summary1) == content_key(title1, content1, summary1),
        (entry_key_of(None, None, title1, content1, summary1) == entry_key_of(
            None,
            None,
            title2,
            content2,
            summary2,
        )) <==> (sha256_digest(encode_utf8(digest_text(title1, content1, summary1))) == sha256_digest(
            encode_utf8(digest_text(title2, content2, summary2)),
        )),
{
    let d1 = sha256_digest(encode_utf8(digest_text(title1, content1, summary1)));
    let d2 = sha256_digest(encode_utf8(digest_text(title2, content2, summary2)));
    lemma_hex_injective(d1, d2);
    let p = seq!['s', 'h', 'a', '2', '5', '6', ':'];
    if p + hex_lower(d1) == p + hex_lower(d2) {
        assert(hex_lower(d1) =~= (p + hex_lower(d1)).subrange(7, (p + hex_lower(d1)).len() as int));
        assert(hex_lower(d2) =~= (p + hex_lower(d2)).subrange(7, (p + hex_lower(d2)).len() as int));
    }
}

} // verus!
