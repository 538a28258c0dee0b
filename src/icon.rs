use crate::types::ov;
use crate::urls::{origin_of, parse_url, parsed_url, url_origin};
use vstd::prelude::*;

verus! {

/// The standard base64 encoding, with padding, of a byte string.
pub uninterp spec fn base64_text(bytes: Seq<u8>) -> Seq<char>;

/// Relies on `base64::engine::general_purpose::STANDARD.encode`: the
/// standard base64 text of `bytes`.
#[verifier::external_body]
fn to_base64(bytes: &[u8]) -> (r: String)
    ensures
        r@ == base64_text(bytes@),
{
    base64::Engine::encode(&base64::engine::general_purpose::STANDARD, bytes)
}

/// `{scheme}://{host}:{port}/favicon.ico`.
pub open spec fn favicon_text(scheme: Seq<char>, host: Seq<char>, port: Seq<char>) -> Seq<char> {
    scheme + seq![':', '/', '/'] + host + seq![':'] + port + seq![
        '/',
        'f',
        'a',
        'v',
        'i',
        'c',
        'o',
        'n',
        '.',
        'i',
        'c',
        'o',
    ]
}

/// Where the icon of a feed is looked for: the image the document declares,
/// else the favicon at the origin of the site link; `Ok(None)` where the
/// origin is opaque, `Err` where a URL does not parse.
pub open spec fn icon_location(image: Option<Seq<char>>, site_link: Seq<char>) -> Result<Option<Seq<char>>, ()> {
    match image {
        Some(i) => match parsed_url(i) {
            Some(u) => Ok(Some(u)),
            None => Err(()),
        },
        None => match url_origin(site_link) {
            None => Err(()),
            Some(None) => Ok(None),
            Some(Some(o)) => match parsed_url(favicon_text(o.0, o.1, o.2)) {
                Some(u) => Ok(Some(u)),
                None => Err(()),
            },
        },
    }
}

pub open spec fn same_outcome(r: Result<Option<String>, String>, s: Result<Option<Seq<char>>, ()>) -> bool {
    match r {
        Ok(Some(u)) => s == Ok::<Option<Seq<char>>, ()>(Some(u@)),
        Ok(None) => s == Ok::<Option<Seq<char>>, ()>(None),
        Err(_) => s is Err,
    }
}

fn message(text: &str) -> (r: String)
    ensures
        r@ == text@,
{
    String::from_str(text)
}

/// The URL to request the icon of a feed from.
pub fn icon_url(image: &Option<String>, site_link: &str) -> (r: Result<Option<String>, String>)
    ensures
        same_outcome(r, icon_location(ov(*image), site_link@)),
{
    if let Some(i) = image {
        return match parse_url(i.as_str()) {
            Some(u) => Ok(Some(u)),
            None => Err(message("invalid icon URL")),
        };
    }
    match origin_of(site_link) {
        None => Err(message("invalid site link")),
        Some(None) => Ok(None),
        Some(Some(o)) => {
            let mut text = o.0.clone();
            text.append("://");
            text.append(o.1.as_str());
            text.append(":");
            text.append(o.2.as_str());
            text.append("/favicon.ico");
            proof {
                reveal_strlit("://");
                reveal_strlit(":");
                reveal_strlit("/favicon.ico");
            }
            assert(text@ =~= favicon_text(o.0@, o.1@, o.2@));
            match parse_url(text.as_str()) {
                Some(u) => Ok(Some(u)),
                None => Err(message("invalid favicon URL")),
            }
        },
    }
}

/// `data:{content_type};base64,{body}`.
pub open spec fn data_url_text(content_type: Seq<char>, body: Seq<u8>) -> Seq<char> {
    seq!['d', 'a', 't', 'a', ':'] + content_type + seq![';', 'b', 'a', 's', 'e', '6', '4', ','] + base64_text(body)
}

/// What an icon response gives: an error unless the status is 2xx; no icon
/// without a content type; else the data URL of the body.
pub open spec fn icon_from(status: u16, content_type: Option<Seq<char>>, body: Seq<u8>) -> Result<Option<Seq<char>>, ()> {
    if !(200 <= status < 300) {
        Err(())
    } else {
        match content_type {
            None => Ok(None),
            Some(ct) => match parsed_url(data_url_text(ct, body)) {
                Some(u) => Ok(Some(u)),
                None => Err(()),
            },
        }
    }
}

pub open spec fn decimal_digit(d: nat) -> char {
    seq!['0', '1', '2', '3', '4', '5', '6', '7', '8', '9'][d as int]
}

/// The decimal digits of `n`, most significant first.
pub open spec fn decimal(n: nat) -> Seq<char>
    decreases n,
{
    if n < 10 {
        seq![decimal_digit(n)]
    } else {
        decimal(n / 10).push(decimal_digit(n % 10))
    }
}

fn digit_text(d: u16) -> (r: &'static str)
    requires
        d < 10,
    ensures
        r@ == seq![decimal_digit(d as nat)],
{
    proof {
        reveal_strlit("0");
        reveal_strlit("1");
        reveal_strlit("2");
        reveal_strlit("3");
        reveal_strlit("4");
        reveal_strlit("5");
        reveal_strlit("6");
        reveal_strlit("7");
        reveal_strlit("8");
        reveal_strlit("9");
    }
    match d {
        0 => "0",
        1 => "1",
        2 => "2",
        3 => "3",
        4 => "4",
        5 => "5",
        6 => "6",
        7 => "7",
        8 => "8",
        _ => "9",
    }
}

/// Appends the decimal digits of `n` to `s`.
pub fn append_decimal(s: &mut String, n: u16)
    ensures
        final(s)@ == old(s)@ + decimal(n as nat),
    decreases n,
{
    if n >= 10 {
        append_decimal(s, n / 10);
    }
    s.append(digit_text(n % 10));
    assert(s@ =~= old(s)@ + decimal(n as nat));
}

/// `error downloading icon from {url}: [{status}]`.
pub open spec fn icon_failure_message(url: Seq<char>, status: u16) -> Seq<char> {
    seq!['e', 'r', 'r', 'o', 'r', ' ', 'd', 'o', 'w', 'n', 'l', 'o', 'a', 'd', 'i', 'n', 'g', ' ', 'i', 'c', 'o', 'n', ' ', 'f', 'r', 'o', 'm', ' ']
        + url + seq![':', ' ', '['] + decimal(status as nat) + seq![']']
}

/// The icon, as a data URL, that the response to the icon request at `url`
/// gives.
pub fn icon_from_response(url: &str, status: u16, content_type: Option<&str>, body: &[u8]) -> (r: Result<Option<String>, String>)
    ensures
        same_outcome(
            r,
            icon_from(
                status,
                match content_type {
                    Some(c) => Some(c@),
                    None => None,
                },
                body@,
            ),
        ),
        !(200 <= status < 300) ==> (r matches Err(m) && m@ == icon_failure_message(url@, status)),
{
    if !(200 <= status && status < 300) {
        let mut m = String::from_str("error downloading icon from ");
        m.append(url);
        m.append(": [");
        append_decimal(&mut m, status);
        m.append("]");
        proof {
            reveal_strlit("error downloading icon from ");
            reveal_strlit(": [");
            reveal_strlit("]");
        }
        assert(m@ =~= icon_failure_message(url@, status));
        return Err(m);
    }
    let ct = match content_type {
        None => return Ok(None),
        Some(ct) => ct,
    };
    let mut text = String::from_str("data:");
    text.append(ct);
    text.append(";base64,");
    let b64 = to_base64(body);
    text.append(b64.as_str());
    proof {
        reveal_strlit("data:");
        reveal_strlit(";base64,");
    }
    assert(text@ =~= data_url_text(ct@, body@));
    match parse_url(text.as_str()) {
        Some(u) => Ok(Some(u)),
        None => Err(message("invalid icon data")),
    }
}

} // verus!
