use crate::types::Timestamp;
use vstd::prelude::*;

verus! {

/// What `time::OffsetDateTime::parse` yields for `text` under the format
/// description `layout`, as (Unix seconds, offset seconds).
pub uninterp spec fn layout_reading(text: Seq<char>, layout: Seq<char>) -> Option<(i64, i32)>;

/// What `time::OffsetDateTime::parse` yields for `text` read as RFC 3339.
pub uninterp spec fn rfc3339_reading(text: Seq<char>) -> Option<(i64, i32)>;

pub open spec fn as_timestamp(r: Option<(i64, i32)>) -> Option<Timestamp> {
    match r {
        Some(p) => Some(Timestamp { unix_seconds: p.0, offset_seconds: p.1 }),
        None => None,
    }
}

/// Relies on `time::format_description::parse` and `time::OffsetDateTime::parse`:
/// the reading of `text` under `layout` depends on the two strings alone.
#[verifier::external_body]
fn parse_with_layout(text: &str, layout: &str) -> (r: Option<Timestamp>)
    ensures
        r == as_timestamp(layout_reading(text@, layout@)),
{
    let format = time::format_description::parse(layout).ok()?;
    let t = time::OffsetDateTime::parse(text, &format).ok()?;
    Some(Timestamp { unix_seconds: t.unix_timestamp(), offset_seconds: t.offset().whole_seconds() })
}

/// Relies on `time::OffsetDateTime::parse` with the RFC 3339 description:
/// the reading depends on `text` alone.
#[verifier::external_body]
fn parse_rfc3339_text(text: &str) -> (r: Option<Timestamp>)
    ensures
        r == as_timestamp(rfc3339_reading(text@)),
{
    let wk = time::format_description::well_known::Rfc3339;
    let t = time::OffsetDateTime::parse(text, &wk).ok()?;
    Some(Timestamp { unix_seconds: t.unix_timestamp(), offset_seconds: t.offset().whole_seconds() })
}

/// Date with weekday and seconds.
pub const LAYOUT_FULL: &'static str = "[weekday repr:short], [day] [month repr:short] [year] [hour repr:24]:[minute]:[second] [offset_hour sign:mandatory][offset_minute]";

/// The same without the weekday.
pub const LAYOUT_NO_WEEKDAY: &'static str = "[day] [month repr:short] [year] [hour repr:24]:[minute]:[second] [offset_hour sign:mandatory][offset_minute]";

/// The same without the seconds.
pub const LAYOUT_NO_SECONDS: &'static str = "[day] [month repr:short] [year] [hour repr:24]:[minute] [offset_hour sign:mandatory][offset_minute]";

/// With the weekday, without the seconds.
pub const LAYOUT_WEEKDAY_NO_SECONDS: &'static str = "[weekday repr:short], [day] [month repr:short] [year] [hour repr:24]:[minute] [offset_hour sign:mandatory][offset_minute]";

/// The first of the four layouts, in order, that reads `text`.
pub open spec fn layouts_reading(text: Seq<char>) -> Option<Timestamp> {
    let a = as_timestamp(layout_reading(text, LAYOUT_FULL@));
    let b = as_timestamp(layout_reading(text, LAYOUT_NO_WEEKDAY@));
    let c = as_timestamp(layout_reading(text, LAYOUT_NO_SECONDS@));
    let d = as_timestamp(layout_reading(text, LAYOUT_WEEKDAY_NO_SECONDS@));
    if a is Some {
        a
    } else if b is Some {
        b
    } else if c is Some {
        c
    } else {
        d
    }
}

/// Reads `text` with each layout in turn.
pub fn parse_layouts(text: &str) -> (r: Option<Timestamp>)
    ensures
        r == layouts_reading(text@),
{
    let a = parse_with_layout(text, LAYOUT_FULL);
    if a.is_some() {
        return a;
    }
    let b = parse_with_layout(text, LAYOUT_NO_WEEKDAY);
    if b.is_some() {
        return b;
    }
    let c = parse_with_layout(text, LAYOUT_NO_SECONDS);
    if c.is_some() {
        return c;
    }
    parse_with_layout(text, LAYOUT_WEEKDAY_NO_SECONDS)
}

/// The pattern of a trailing zone abbreviation: three upper-case letters
/// that begin a word and end the text.
pub const ZONE_PATTERN: &'static str = "\\b[A-Z]{3}$";

/// The first match of the regular expression `pattern` in `text`, as the
/// text before it, the match and the text after it.
pub uninterp spec fn regex_split(pattern: Seq<char>, text: Seq<char>) -> Option<(Seq<char>, Seq<char>, Seq<char>)>;

/// Relies on `regex::Regex::new` and `regex::Regex::find`: the first match
/// of `pattern` in `text`, with the text around it; `None` where the pattern
/// does not compile or does not match. The three parts make up `text`.
#[verifier::external_body]
fn find_split(pattern: &str, text: &str) -> (r: Option<(String, String, String)>)
    ensures
        r matches Some(t) ==> regex_split(pattern@, text@) == Some((t.0@, t.1@, t.2@)) && t.0@ + t.1@
            + t.2@ == text@,
        r is None ==> regex_split(pattern@, text@) is None,
{
    let m = regex::Regex::new(pattern).ok()?.find(text)?;
    Some((text[..m.start()].to_string(), m.as_str().to_string(), text[m.end()..].to_string()))
}

/// The fixed numeric offset of a zone abbreviation: standard and
/// daylight names each with their own offset.
pub open spec fn zone_offset(abbr: Seq<char>) -> Option<Seq<char>> {
    if abbr == seq!['P', 'S', 'T'] {
        Some(seq!['-', '0', '8', '0', '0'])
    } else if abbr == seq!['P', 'D', 'T'] {
        Some(seq!['-', '0', '7', '0', '0'])
    } else if abbr == seq!['E', 'S', 'T'] {
        Some(seq!['-', '0', '5', '0', '0'])
    } else if abbr == seq!['E', 'D', 'T'] {
        Some(seq!['-', '0', '4', '0', '0'])
    } else if abbr == seq!['C', 'S', 'T'] {
        Some(seq!['-', '0', '6', '0', '0'])
    } else if abbr == seq!['C', 'D', 'T'] {
        Some(seq!['-', '0', '5', '0', '0'])
    } else if abbr == seq!['M', 'S', 'T'] {
        Some(seq!['-', '0', '7', '0', '0'])
    } else if abbr == seq!['M', 'D', 'T'] {
        Some(seq!['-', '0', '6', '0', '0'])
    } else if abbr == seq!['G', 'M', 'T'] {
        Some(seq!['+', '0', '0', '0', '0'])
    } else if abbr == seq!['U', 'T', 'C'] {
        Some(seq!['+', '0', '0', '0', '0'])
    } else {
        None
    }
}

/// `text` with a known trailing zone abbreviation, as `ZONE_PATTERN`
/// finds it, replaced by its offset.
pub open spec fn with_numeric_zone(text: Seq<char>) -> Option<Seq<char>> {
    match regex_split(ZONE_PATTERN@, text) {
        Some(parts) => if parts.2.len() == 0 {
            match zone_offset(parts.1) {
                Some(off) => Some(parts.0 + off),
                None => None,
            }
        } else {
            None
        },
        None => None,
    }
}

/// The reading of a date string: the layouts on the text as it stands, then
/// on the text with its zone abbreviation made numeric.
pub open spec fn time_reading(text: Seq<char>) -> Option<Timestamp> {
    match layouts_reading(text) {
        Some(t) => Some(t),
        None => match with_numeric_zone(text) {
            Some(t2) => layouts_reading(t2),
            None => None,
        },
    }
}

/// The resolved publish time of an entry.
pub open spec fn resolved_date(raw: Option<Seq<char>>, structured: Option<Timestamp>, now: Timestamp) -> Timestamp {
    match structured {
        Some(t) => t,
        None => match raw {
            Some(r) => match time_reading(r) {
                Some(t) => t,
                None => now,
            },
            None => now,
        },
    }
}

/// The numeric offset for the zone abbreviation `a b c`.
pub fn zone_offset_of(a: char, b: char, c: char) -> (r: Option<&'static str>)
    ensures
        r matches Some(s) ==> zone_offset(seq![a, b, c]) == Some(s@),
        r is None ==> zone_offset(seq![a, b, c]) is None,
{
    proof {
        reveal_strlit("+0000");
        reveal_strlit("-0400");
        reveal_strlit("-0500");
        reveal_strlit("-0600");
        reveal_strlit("-0700");
        reveal_strlit("-0800");
    }
    let ghost abbr = seq![a, b, c];
    if a == 'P' && b == 'S' && c == 'T' {
        assert(abbr =~= seq!['P', 'S', 'T']);
        Some("-0800")
    } else if a == 'P' && b == 'D' && c == 'T' {
        assert(abbr =~= seq!['P', 'D', 'T']);
        Some("-0700")
    } else if a == 'E' && b == 'S' && c == 'T' {
        assert(abbr =~= seq!['E', 'S', 'T']);
        Some("-0500")
    } else if a == 'E' && b == 'D' && c == 'T' {
        assert(abbr =~= seq!['E', 'D', 'T']);
        Some("-0400")
    } else if a == 'C' && b == 'S' && c == 'T' {
        assert(abbr =~= seq!['C', 'S', 'T']);
        Some("-0600")
    } else if a == 'C' && b == 'D' && c == 'T' {
        assert(abbr =~= seq!['C', 'D', 'T']);
        Some("-0500")
    } else if a == 'M' && b == 'S' && c == 'T' {
        assert(abbr =~= seq!['M', 'S', 'T']);
        Some("-0700")
    } else if a == 'M' && b == 'D' && c == 'T' {
        assert(abbr =~= seq!['M', 'D', 'T']);
        Some("-0600")
    } else if a == 'G' && b == 'M' && c == 'T' {
        assert(abbr =~= seq!['G', 'M', 'T']);
        Some("+0000")
    } else if a == 'U' && b == 'T' && c == 'C' {
        assert(abbr =~= seq!['U', 'T', 'C']);
        Some("+0000")
    } else {
        assert(zone_offset(abbr) is None) by {
            if abbr == seq!['P', 'S', 'T'] || abbr == seq!['P', 'D', 'T'] || abbr == seq!['E', 'S', 'T'] || abbr == seq!['E', 'D', 'T'] || abbr == seq!['C', 'S', 'T'] || abbr == seq!['C', 'D', 'T'] || abbr == seq!['M', 'S', 'T'] || abbr == seq!['M', 'D', 'T'] || abbr == seq!['G', 'M', 'T'] || abbr == seq!['U', 'T', 'C'] {
                assert(abbr[0] == a && abbr[1] == b && abbr[2] == c);
            }
        }
        None
    }
}

/// `text` with a known trailing zone abbreviation replaced by its numeric
/// offset, or `None` where it ends in none.
pub fn replace_zone_abbreviation(text: &str) -> (r: Option<String>)
    ensures
        r matches Some(s) ==> with_numeric_zone(text@) == Some(s@),
        r is None ==> with_numeric_zone(text@) is None,
{
    let (before, abbr, after) = match find_split(ZONE_PATTERN, text) {
        Some(parts) => parts,
        None => return None,
    };
    if after.as_str().unicode_len() != 0 || abbr.as_str().unicode_len() != 3 {
        proof {
            if after@.len() == 0 {
                assert(zone_offset(abbr@) is None) by {
                    if zone_offset(abbr@) is Some {
                        assert(abbr@.len() == 3);
                    }
                }
            }
        }
        return None;
    }
    let a = abbr.as_str().get_char(0);
    let b = abbr.as_str().get_char(1);
    let c = abbr.as_str().get_char(2);
    assert(abbr@ =~= seq![a, b, c]);
    match zone_offset_of(a, b, c) {
        Some(off) => {
            let mut s = before;
            s.append(off);
            Some(s)
        },
        None => None,
    }
}

/// Reads a date string: with each layout as it stands, then with its zone
/// abbreviation made numeric.
pub fn parse_time(text: &str) -> (r: Option<Timestamp>)
    ensures
        r == time_reading(text@),
{
    let direct = parse_layouts(text);
    if direct.is_some() {
        return direct;
    }
    match replace_zone_abbreviation(text) {
        Some(t2) => parse_layouts(t2.as_str()),
        None => None,
    }
}

/// Reads a date given as RFC 3339 text.
pub fn parse_rfc3339(text: &str) -> (r: Option<Timestamp>)
    ensures
        r == as_timestamp(rfc3339_reading(text@)),
{
    parse_rfc3339_text(text)
}

/// The publish time of an entry: the structured date where there is one,
/// else the raw date string read by `parse_time`, else `now`.
pub fn resolve_date(raw: Option<&str>, structured: Option<Timestamp>, now: Timestamp) -> (r: Timestamp)
    ensures
        r == resolved_date(
            match raw {
                Some(s) => Some(s@),
                None => None,
            },
            structured,
            now,
        ),
{
    if let Some(t) = structured {
        return t;
    }
    match raw {
        Some(s) => match parse_time(s) {
            Some(t) => t,
            None => now,
        },
        None => now,
    }
}

/// An entry that carries no date at all is dated at the time of ingestion.
pub proof fn lemma_missing_date_is_now(now: Timestamp)
    ensures
        resolved_date(None, None, now) == now,
{
}

} // verus!
