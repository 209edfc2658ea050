//! What the library takes on trust from the crates it calls.
//!
//! Each function here holds one call to `url`, `regex`, `select` or `std` and
//! hands plain values back. Verus does not read these bodies: it believes the
//! contracts, which say no more than that a call is a function of its
//! arguments.

use vstd::prelude::*;

verus! {

/// The parts of an absolute URL, as text.
#[derive(Clone, Debug)]
pub struct UrlParts {
    /// The whole URL, serialized.
    pub href: String,
    pub scheme: String,
    pub host: Option<String>,
    pub port: Option<u16>,
    pub path: String,
    pub query: Option<String>,
}

/// The parts of an absolute URL, as sequences of characters.
pub struct UrlPartsView {
    pub href: Seq<char>,
    pub scheme: Seq<char>,
    pub host: Option<Seq<char>>,
    pub port: Option<u16>,
    pub path: Seq<char>,
    pub query: Option<Seq<char>>,
}

impl View for UrlParts {
    type V = UrlPartsView;

    open spec fn view(&self) -> UrlPartsView {
        UrlPartsView {
            href: self.href@,
            scheme: self.scheme@,
            host: match self.host {
                Some(h) => Some(h@),
                None => None,
            },
            port: self.port,
            path: self.path@,
            query: match self.query {
                Some(q) => Some(q@),
                None => None,
            },
        }
    }
}

/// What `url::Url::parse` makes of a text: nothing where it returns an error,
/// else the parts of the URL it returns.
pub uninterp spec fn url_parse(text: Seq<char>) -> Option<UrlPartsView>;

/// What `url::Url::set_query` makes of the URL parsed from `href` and a new
/// query, serialized; nothing where `href` does not parse.
pub uninterp spec fn url_with_query(href: Seq<char>, query: Seq<char>) -> Option<Seq<char>>;

/// Whether `regex::Regex::new` accepts the pattern and, where it does, whether
/// `regex::Regex::is_match` finds a match of it in the text.
pub uninterp spec fn regex_match(pattern: Seq<char>, text: Seq<char>) -> Option<bool>;

/// The longest text that is handed to `url::Url::set_query`, in characters.
pub const QUERY_LIMIT: usize = 0x00ff_ffff;

/// `url::Url::parse` on `text`, with the parts of the result copied out:
/// `as_str`, `scheme`, `host_str`, `port`, `path` and `query`. The contract
/// names the result after the text alone.
#[verifier::external_body]
pub(crate) fn parse_url(text: &str) -> (r: Option<UrlParts>)
    ensures
        match r {
            Some(parts) => url_parse(text@) == Some(parts@),
            None => url_parse(text@) is None,
        },
{
    let url = url::Url::parse(text).ok()?;
    Some(UrlParts {
        href: url.as_str().to_string(),
        scheme: url.scheme().to_string(),
        host: url.host_str().map(|h| h.to_string()),
        port: url.port(),
        path: url.path().to_string(),
        query: url.query().map(|q| q.to_string()),
    })
}

/// `url::Url::set_query` on the URL parsed from `href`, with `Some(query)`,
/// then its serialization. The result is there exactly where `href` parses.
/// Both texts are bounded, since the crate counts the bytes of a URL in 32
/// bits and stops the program beyond.
#[verifier::external_body]
pub(crate) fn set_query(href: &str, query: &str) -> (r: Option<String>)
    requires
        href@.len() <= QUERY_LIMIT,
        query@.len() <= QUERY_LIMIT,
    ensures
        match r {
            Some(s) => url_with_query(href@, query@) == Some(s@),
            None => url_with_query(href@, query@) is None,
        },
        r is Some <==> url_parse(href@) is Some,
{
    let mut url = url::Url::parse(href).ok()?;
    url.set_query(Some(query));
    Some(url.as_str().to_string())
}

/// `regex::Regex::new` on the pattern and, where that succeeds,
/// `regex::Regex::is_match` on the text.
#[verifier::external_body]
pub(crate) fn regex_is_match(pattern: &str, text: &str) -> (r: Option<bool>)
    ensures
        r == regex_match(pattern@, text@),
{
    let re = regex::Regex::new(pattern).ok()?;
    Some(re.is_match(text))
}


/// What `str::to_lowercase` makes of a text.
pub uninterp spec fn lowercase_of(text: Seq<char>) -> Seq<char>;

/// What `str::trim` leaves of a text.
pub uninterp spec fn trimmed(text: Seq<char>) -> Seq<char>;

/// `str::to_lowercase`: the text in lower case, as Unicode defines it.
#[verifier::external_body]
pub(crate) fn to_lowercase(text: &str) -> (r: String)
    ensures
        r@ == lowercase_of(text@),
{
    text.to_lowercase()
}

/// `str::trim`: the text without the white space at its two ends.
#[verifier::external_body]
pub(crate) fn trim(text: &str) -> (r: String)
    ensures
        r@ == trimmed(text@),
{
    text.trim().to_string()
}


/// One node of an HTML document: an element with its name and attributes,
/// or a text or a comment, which have neither.
#[derive(Clone, Debug)]
pub struct HtmlNode {
    /// The local name of an element.
    pub name: Option<String>,
    /// The attributes of an element, by local name, in the order of the
    /// document.
    pub attrs: Vec<(String, String)>,
    /// The index of the node that holds this one.
    pub parent: Option<usize>,
    /// The text of the node and of all that it holds.
    pub text: String,
}

/// One node of an HTML document, as sequences of characters.
pub struct HtmlNodeView {
    pub name: Option<Seq<char>>,
    pub attrs: Seq<(Seq<char>, Seq<char>)>,
    pub parent: Option<usize>,
    pub text: Seq<char>,
}

impl View for HtmlNode {
    type V = HtmlNodeView;

    open spec fn view(&self) -> HtmlNodeView {
        HtmlNodeView {
            name: match self.name {
                Some(n) => Some(n@),
                None => None,
            },
            attrs: Seq::new(self.attrs@.len(), |i: int| (self.attrs@[i].0@, self.attrs@[i].1@)),
            parent: self.parent,
            text: self.text@,
        }
    }
}

/// The views of the nodes of a document.
pub open spec fn node_views(nodes: Seq<HtmlNode>) -> Seq<HtmlNodeView> {
    Seq::new(nodes.len(), |i: int| nodes[i]@)
}

/// The nodes that `select::document::Document::from` makes of a text, in the
/// order of the document.
pub uninterp spec fn html_nodes(body: Seq<char>) -> Seq<HtmlNodeView>;

/// The words that `str::split_whitespace` finds in a text.
pub uninterp spec fn words_of(text: Seq<char>) -> Seq<Seq<char>>;

/// `select::document::Document::from` on the text, with every node of the
/// document copied out in order: `name`, `attrs`, the index of `parent`, and
/// `text`.
#[verifier::external_body]
pub(crate) fn parse_html(body: &str) -> (nodes: Vec<HtmlNode>)
    ensures
        node_views(nodes@) == html_nodes(body@),
{
    let document = select::document::Document::from(body);
    let mut nodes = Vec::new();
    for index in 0..document.nodes.len() {
        let node = document.nth(index).unwrap();
        nodes.push(HtmlNode {
            name: node.name().map(|n| n.to_string()),
            attrs: node.attrs().map(|(k, v)| (k.to_string(), v.to_string())).collect(),
            parent: node.parent().map(|p| p.index()),
            text: node.text(),
        });
    }
    nodes
}

/// `str::split_whitespace`: the words of a text, in order.
#[verifier::external_body]
pub(crate) fn words(text: &str) -> (r: Vec<String>)
    ensures
        crate::text::string_views(r@) == words_of(text@),
{
    text.split_whitespace().map(|w| w.to_string()).collect()
}

/// `String::from_iter` over the characters of a vector: the string that holds
/// exactly these characters, in this order.
#[verifier::external_body]
pub(crate) fn string_of(v: &Vec<char>) -> (s: String)
    ensures
        s@ == v@,
{
    String::from_iter(v.iter())
}

} // verus!
