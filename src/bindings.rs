//! Calls into the HTML parser, the URL parser, the regular-expression engine
//! and std's Unicode case mapping. Each result that takes more than a few
//! lines to state is given a name; the verified code speaks of that name.
use vstd::prelude::*;

use crate::catalog::opt_view;

verus! {

/// What the extraction reads of one HTML element: its `href` and `data-url`
/// attributes, the concatenation of its descendant text nodes and the first
/// of those nodes.
#[derive(Debug, Clone)]
pub struct HtmlElement {
    pub href: Option<String>,
    pub data_url: Option<String>,
    pub text: String,
    pub first_text: Option<String>,
}

pub struct ElementView {
    pub href: Option<Seq<char>>,
    pub data_url: Option<Seq<char>>,
    pub text: Seq<char>,
    pub first_text: Option<Seq<char>>,
}

impl View for HtmlElement {
    type V = ElementView;

    open spec fn view(&self) -> ElementView {
        ElementView {
            href: opt_view(self.href),
            data_url: opt_view(self.data_url),
            text: self.text@,
            first_text: opt_view(self.first_text),
        }
    }
}

pub open spec fn elements_view(v: Seq<HtmlElement>) -> Seq<ElementView> {
    v.map_values(|e: HtmlElement| e@)
}

/// The elements of the document `html` that match the CSS selector group
/// `selector`, in document order; `None` where the selector does not parse.
pub uninterp spec fn html_select(html: Seq<char>, selector: Seq<char>) -> Option<Seq<ElementView>>;

/// Relies on scraper's `Selector::parse`, `Html::parse_document` and
/// `Html::select`: the result depends on the two strings alone.
#[verifier::external_body]
pub(crate) fn select_elements(html: &str, selector: &str) -> (r: Option<Vec<HtmlElement>>)
    ensures
        r matches Some(v) ==> html_select(html@, selector@) == Some(elements_view(v@)),
        r is None ==> html_select(html@, selector@) is None,
{
    let selector = scraper::Selector::parse(selector).ok()?;
    let document = scraper::Html::parse_document(html);
    let elements = document.select(&selector).map(
        |e| HtmlElement {
            href: e.value().attr("href").map(String::from),
            data_url: e.value().attr("data-url").map(String::from),
            text: e.text().collect(),
            first_text: e.text().next().map(String::from),
        },
    ).collect();
    Some(elements)
}

/// The path of the URL `s`, as `url::Url::path` gives it after
/// `url::Url::parse`; `None` where `s` does not parse.
pub uninterp spec fn url_path_of(s: Seq<char>) -> Option<Seq<char>>;

/// Relies on `url::Url::parse` and `url::Url::path`.
#[verifier::external_body]
pub(crate) fn url_path(s: &str) -> (r: Option<String>)
    ensures
        opt_view(r) == url_path_of(s@),
{
    url::Url::parse(s).ok().map(|u| u.path().to_string())
}

/// The leftmost-first match of the regular expression `pattern` in
/// `haystack`; `None` where there is none or the pattern does not compile.
pub uninterp spec fn regex_first_match(pattern: Seq<char>, haystack: Seq<char>) -> Option<Seq<char>>;

/// Relies on `regex::Regex::new` and `regex::Regex::find`.
#[verifier::external_body]
pub(crate) fn first_match(pattern: &str, haystack: &str) -> (r: Option<String>)
    ensures
        opt_view(r) == regex_first_match(pattern@, haystack@),
{
    match regex::Regex::new(pattern) {
        Ok(re) => re.find(haystack).map(|m| m.as_str().to_string()),
        Err(_) => None,
    }
}

/// The lower-case mapping of `s`, as `str::to_lowercase` gives it.
pub uninterp spec fn lower_of(s: Seq<char>) -> Seq<char>;

/// Relies on `str::to_lowercase`: the result depends on the characters alone.
#[verifier::external_body]
pub(crate) fn lowercase(s: &str) -> (r: String)
    ensures
        r@ == lower_of(s@),
{
    s.to_lowercase()
}

/// The upper-case mapping of `c`, as `char::to_uppercase` yields it.
pub uninterp spec fn upper_of(c: char) -> Seq<char>;

/// Relies on `char::to_uppercase`, which yields one or more characters.
#[verifier::external_body]
pub(crate) fn uppercase_char(c: char) -> (r: Vec<char>)
    ensures
        r@ == upper_of(c),
        r@.len() >= 1,
{
    c.to_uppercase().collect()
}

/// `s` percent-encoded as `urlencoding::encode` gives it: every UTF-8 byte
/// but ASCII letters, digits and `-`, `_`, `.`, `~` written as `%XX`.
pub uninterp spec fn percent_encoded(s: Seq<char>) -> Seq<char>;

/// Relies on `urlencoding::encode`.
#[verifier::external_body]
pub(crate) fn url_encode(s: &str) -> (r: String)
    ensures
        r@ == percent_encoded(s@),
{
    urlencoding::encode(s).into_owned()
}

} // verus!
