use crate::identity::opt_view;
use crate::urls::{join_url, joined_url, parse_url, parsed_url};
use lol_html::ElementContentHandlers as Handlers;
use lol_html::{RewriteStrSettings, Selector};
use std::borrow::Cow;
use vstd::prelude::*;

verus! {

pub open spec fn is_root_relative(v: Seq<char>) -> bool {
    v.len() > 0 && v[0] == '/'
}

/// The new value of a link attribute: `Ok(None)` leaves the attribute as it
/// is; a root-relative value is resolved against the base address where
/// the base parses; `Err` where that resolution fails.
pub open spec fn rebased(value: Option<Seq<char>>, base: Option<Seq<char>>) -> Result<
    Option<Seq<char>>,
    (),
> {
    match value {
        None => Ok(None),
        Some(v) => if !is_root_relative(v) {
            Ok(None)
        } else {
            match base {
                None => Ok(None),
                Some(b) => match parsed_url(b) {
                    None => Ok(None),
                    Some(pb) => match joined_url(pb, v) {
                        Some(u) => Ok(Some(u)),
                        None => Err(()),
                    },
                },
            }
        },
    }
}

/// The new value for an `href` or `src` attribute that holds `value`, with
/// `base` the link of the entry.
pub fn rebase_reference(value: Option<String>, base: Option<&str>) -> (r: Result<Option<String>, String>)
    ensures
        r matches Ok(Some(u)) ==> rebased(
            match value {
                Some(v) => Some(v@),
                None => None,
            },
            opt_view(base),
        ) == Ok::<Option<Seq<char>>, ()>(Some(u@)),
        r matches Ok(None) ==> rebased(
            match value {
                Some(v) => Some(v@),
                None => None,
            },
            opt_view(base),
        ) == Ok::<Option<Seq<char>>, ()>(None),
        r is Err ==> rebased(
            match value {
                Some(v) => Some(v@),
                None => None,
            },
            opt_view(base),
        ) is Err,
{
    let v = match value {
        None => return Ok(None),
        Some(v) => v,
    };
    let n = v.as_str().unicode_len();
    if n == 0 || v.as_str().get_char(0) != '/' {
        return Ok(None);
    }
    let b = match base {
        None => return Ok(None),
        Some(b) => b,
    };
    let pb = match parse_url(b) {
        None => return Ok(None),
        Some(pb) => pb,
    };
    match join_url(pb.as_str(), v.as_str()) {
        Some(u) => Ok(Some(u)),
        None => {
            let mut msg = String::from_str("cannot resolve link ");
            msg.append(v.as_str());
            Err(msg)
        },
    }
}

pub open spec fn text_result(r: Result<String, String>) -> Result<Seq<char>, Seq<char>> {
    match r {
        Ok(s) => Ok(s@),
        Err(e) => Err(e@),
    }
}

/// A root-relative link is resolved against the base address where the
/// base parses; a link of any other form is left as it is.
pub proof fn lemma_link_rewriting(v: Seq<char>, base: Option<Seq<char>>)
    ensures
        !is_root_relative(v) ==> rebased(Some(v), base) == Ok::<Option<Seq<char>>, ()>(None),
        is_root_relative(v) && base is Some && parsed_url(base->0) is Some ==> rebased(Some(v), base)
            == (match joined_url(parsed_url(base->0)->0, v) {
            Some(u) => Ok::<Option<Seq<char>>, ()>(Some(u)),
            None => Err(()),
        }),
        rebased(None, base) == Ok::<Option<Seq<char>>, ()>(None),
{
}

/// One rule of the content rewrite: on each element that `selector`
/// matches, `attribute` is resolved with `rebase_reference` where `rebase`
/// holds, and removed where it does not.
pub struct RewriteRule {
    pub selector: String,
    pub attribute: String,
    pub rebase: bool,
}

pub open spec fn rule_views(rules: Seq<RewriteRule>) -> Seq<(Seq<char>, Seq<char>, bool)> {
    rules.map_values(|r: RewriteRule| (r.selector@, r.attribute@, r.rebase))
}

/// The rules of content normalization: anchors lose their `style`
/// attribute; the `href` of an anchor and the `src` of an image are
/// resolved against the entry's link.
pub open spec fn normalization_rules() -> Seq<(Seq<char>, Seq<char>, bool)> {
    seq![
        (seq!['a', '[', 's', 't', 'y', 'l', 'e', ']'], seq!['s', 't', 'y', 'l', 'e'], false),
        (seq!['a'], seq!['h', 'r', 'e', 'f'], true),
        (seq!['i', 'm', 'g'], seq!['s', 'r', 'c'], true),
    ]
}

fn rule(selector: &str, attribute: &str, rebase: bool) -> (r: RewriteRule)
    ensures
        r.selector@ == selector@,
        r.attribute@ == attribute@,
        r.rebase == rebase,
{
    RewriteRule { selector: String::from_str(selector), attribute: String::from_str(attribute), rebase }
}

/// The rules of content normalization, as values.
pub fn normalization_rule_table() -> (r: Vec<RewriteRule>)
    ensures
        rule_views(r@) == normalization_rules(),
{
    proof {
        reveal_strlit("a[style]");
        reveal_strlit("style");
        reveal_strlit("a");
        reveal_strlit("href");
        reveal_strlit("img");
        reveal_strlit("src");
    }
    let mut r: Vec<RewriteRule> = Vec::new();
    let strip = rule("a[style]", "style", false);
    assert(strip.selector@ =~= seq!['a', '[', 's', 't', 'y', 'l', 'e', ']']);
    assert(strip.attribute@ =~= seq!['s', 't', 'y', 'l', 'e']);
    let anchor = rule("a", "href", true);
    assert(anchor.selector@ =~= seq!['a']);
    assert(anchor.attribute@ =~= seq!['h', 'r', 'e', 'f']);
    let image = rule("img", "src", true);
    assert(image.selector@ =~= seq!['i', 'm', 'g']);
    assert(image.attribute@ =~= seq!['s', 'r', 'c']);
    r.push(strip);
    r.push(anchor);
    r.push(image);
    assert(rule_views(r@) =~= normalization_rules());
    r
}

/// What one streaming rewrite pass applies to `html`: the rules in
/// order, with `base` handed to `rebase_reference`.
pub uninterp spec fn html_rewrite(
    html: Seq<char>,
    base: Option<Seq<char>>,
    rules: Seq<(Seq<char>, Seq<char>, bool)>,
) -> Result<Seq<char>, Seq<char>>;

/// Relies on `lol_html::rewrite_str`, with ESI tags off: one streaming pass
/// over `html` with one element handler per rule; a handler removes its
/// attribute, or sets it to the value that `rebase_reference` gives where
/// that is `Some`. An invalid selector is an error. The rewrite depends on
/// its arguments alone.
#[verifier::external_body]
fn rewrite_html(html: &str, base: Option<&str>, rules: &Vec<RewriteRule>) -> (r: Result<String, String>)
    ensures
        text_result(r) == html_rewrite(html@, opt_view(base), rule_views(rules@)),
{
    let mut element_content_handlers = vec![];
    for rule in rules {
        let (attr, rebase) = (rule.attribute.as_str(), rule.rebase);
        let selector = rule.selector.parse::<Selector>().map_err(|e| e.to_string())?;
        element_content_handlers.push((Cow::Owned(selector), Handlers::default().element(move |el| {
            if !rebase { el.remove_attribute(attr); }
            else if let Some(v) = rebase_reference(el.get_attribute(attr), base)? { el.set_attribute(attr, &v)?; }
            Ok(())
        })));
    }
    let settings = RewriteStrSettings { element_content_handlers, enable_esi_tags: false, ..Default::default() };
    lol_html::rewrite_str(html, settings).map_err(|e| e.to_string())
}

/// Normalizes the HTML body of an entry whose link is `base`.
pub fn normalize_content(html: &str, base: Option<&str>) -> (r: Result<String, String>)
    ensures
        text_result(r) == html_rewrite(html@, opt_view(base), normalization_rules()),
{
    let rules = normalization_rule_table();
    rewrite_html(html, base, &rules)
}

} // verus!
