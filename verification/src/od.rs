//! The kinds of open directory: how a page is recognized as one of them, and
//! which of its links are taken from it.

use crate::bindings::{
    html_nodes, HtmlNode, HtmlNodeView, lowercase_of, node_views, parse_html, string_of,
    to_lowercase, trim, trimmed, words, words_of,
};
use crate::parser::{
    any_view_segment, has_view_segment, remove_http_chars, remove_last_slash_chars,
    sanitize_url_chars, sanitized, without_last_slash, without_scheme,
};
use crate::text::{
    begins_with, chars_of, contains, ends_with, finishes_with, includes, same, split, split_on,
    starts_with, string_views, text_is,
};
use vstd::prelude::*;

verus! {

/// The kinds of open directory.
#[derive(Clone, Copy, Debug, PartialEq, Eq, Structural)]
pub enum ODMethod {
    Apache,
    NGINX,
    MicrosoftIIS,
    OLAINDEX,
    AutoIndexPHP,
    AutoIndexPHPNoCrumb,
    DirectoryLister,
    DirectoryListingScript,
    Generic,
}

/// A test on one node of a document.
#[derive(Debug)]
pub enum Selector {
    /// A node that no other node holds.
    Root,
    /// An element of this name.
    Name(&'static str),
    /// An element whose `class` attribute holds this word.
    Class(&'static str),
    /// An element with this attribute.
    Has(&'static str),
    /// An element with this attribute at this value.
    Attr(&'static str, &'static str),
    /// One of the two tests holds.
    Or(Box<Selector>, Box<Selector>),
    /// Both tests hold.
    And(Box<Selector>, Box<Selector>),
    /// The second test holds, and the first holds of the parent.
    Child(Box<Selector>, Box<Selector>),
    /// The second test holds, and the first holds of a node above.
    Descendant(Box<Selector>, Box<Selector>),
}

/// The value of the first attribute of this name.
pub open spec fn attr_in(attrs: Seq<(Seq<char>, Seq<char>)>, key: Seq<char>) -> Option<Seq<char>>
    decreases attrs.len(),
{
    if attrs.len() == 0 {
        None
    } else if attrs[0].0 == key {
        Some(attrs[0].1)
    } else {
        attr_in(attrs.skip(1), key)
    }
}

/// The parent of node `i`, where the document names one before the node.
pub open spec fn parent_of(nodes: Seq<HtmlNodeView>, i: nat) -> Option<nat> {
    if i < nodes.len() && nodes[i as int].parent is Some && nodes[i as int].parent->0 < i {
        Some(nodes[i as int].parent->0 as nat)
    } else {
        None
    }
}

/// The test holds of node `i`.
pub open spec fn matches(nodes: Seq<HtmlNodeView>, i: nat, sel: Selector) -> bool
    decreases sel, 0nat,
{
    i < nodes.len() && match sel {
        Selector::Root => nodes[i as int].parent is None,
        Selector::Name(n) => nodes[i as int].name == Some(n@),
        Selector::Class(c) => attr_in(nodes[i as int].attrs, "class"@) is Some && words_of(
            attr_in(nodes[i as int].attrs, "class"@)->0,
        ).contains(c@),
        Selector::Has(k) => attr_in(nodes[i as int].attrs, k@) is Some,
        Selector::Attr(k, v) => attr_in(nodes[i as int].attrs, k@) == Some(v@),
        Selector::Or(a, b) => matches(nodes, i, *a) || matches(nodes, i, *b),
        Selector::And(a, b) => matches(nodes, i, *a) && matches(nodes, i, *b),
        Selector::Child(a, b) => matches(nodes, i, *b) && parent_of(nodes, i) is Some
            && matches(nodes, parent_of(nodes, i)->0, *a),
        Selector::Descendant(a, b) => matches(nodes, i, *b) && above(nodes, i, *a),
    }
}

/// The test holds of a node above node `i`.
pub open spec fn above(nodes: Seq<HtmlNodeView>, i: nat, sel: Selector) -> bool
    decreases sel, i + 1,
{
    match parent_of(nodes, i) {
        Some(p) => matches(nodes, p, sel) || above(nodes, p, sel),
        None => false,
    }
}

/// The test holds of some node.
pub open spec fn any_match(nodes: Seq<HtmlNodeView>, sel: Selector) -> bool {
    exists|i: nat| #[trigger] matches(nodes, i, sel)
}

/// The index of the first attribute of this name.
pub fn attr_index(node: &HtmlNode, key: &str) -> (r: Option<usize>)
    ensures
        match r {
            Some(k) => k < node.attrs.len() && attr_in(node@.attrs, key@) == Some(
                node.attrs[k as int].1@,
            ),
            None => attr_in(node@.attrs, key@) is None,
        },
{
    let mut k: usize = 0;
    assert(node@.attrs.skip(0) == node@.attrs);
    while k < node.attrs.len()
        invariant
            k <= node.attrs.len(),
            attr_in(node@.attrs, key@) == attr_in(node@.attrs.skip(k as int), key@),
        decreases node.attrs.len() - k,
    {
        proof {
            assert(node@.attrs.skip(k as int).skip(1) == node@.attrs.skip(k + 1));
            assert(node@.attrs.skip(k as int)[0] == node@.attrs[k as int]);
        }
        if text_is(node.attrs[k].0.as_str(), key) {
            return Some(k);
        }
        k += 1;
    }
    None
}

/// Whether a list of words holds a word.
pub fn holds_word(list: &Vec<String>, word: &str) -> (r: bool)
    ensures
        r == string_views(list@).contains(word@),
{
    let mut k: usize = 0;
    while k < list.len()
        invariant
            k <= list.len(),
            forall|j: int| 0 <= j < k ==> string_views(list@)[j] != word@,
        decreases list.len() - k,
    {
        if text_is(list[k].as_str(), word) {
            assert(string_views(list@)[k as int] == word@);
            return true;
        }
        k += 1;
    }
    false
}

/// Whether the test holds of node `i`.
pub fn node_matches(nodes: &Vec<HtmlNode>, i: usize, sel: &Selector) -> (r: bool)
    ensures
        r == matches(node_views(nodes@), i as nat, *sel),
    decreases sel, 0nat,
{
    if i >= nodes.len() {
        return false;
    }
    let node = &nodes[i];
    assert(node_views(nodes@)[i as int] == node@);
    match sel {
        Selector::Root => node.parent.is_none(),
        Selector::Name(n) => match &node.name {
            Some(name) => text_is(name.as_str(), n),
            None => false,
        },
        Selector::Class(c) => match attr_index(node, "class") {
            Some(k) => holds_word(&words(node.attrs[k].1.as_str()), c),
            None => false,
        },
        Selector::Has(k) => attr_index(node, k).is_some(),
        Selector::Attr(k, v) => match attr_index(node, k) {
            Some(at) => text_is(node.attrs[at].1.as_str(), v),
            None => false,
        },
        Selector::Or(a, b) => node_matches(nodes, i, a) || node_matches(nodes, i, b),
        Selector::And(a, b) => node_matches(nodes, i, a) && node_matches(nodes, i, b),
        Selector::Child(a, b) => {
            if !node_matches(nodes, i, b) {
                return false;
            }
            match node.parent {
                Some(p) => p < i && node_matches(nodes, p, a),
                None => false,
            }
        },
        Selector::Descendant(a, b) => node_matches(nodes, i, b) && node_above(nodes, i, a),
    }
}

/// Whether the test holds of a node above node `i`.
pub fn node_above(nodes: &Vec<HtmlNode>, i: usize, sel: &Selector) -> (r: bool)
    ensures
        r == above(node_views(nodes@), i as nat, *sel),
    decreases sel, i + 1,
{
    if i >= nodes.len() {
        return false;
    }
    assert(node_views(nodes@)[i as int] == nodes@[i as int]@);
    match nodes[i].parent {
        Some(p) => p < i && (node_matches(nodes, p, sel) || node_above(nodes, p, sel)),
        None => false,
    }
}

/// Whether the test holds of some node.
pub fn has_match(nodes: &Vec<HtmlNode>, sel: &Selector) -> (r: bool)
    ensures
        r == any_match(node_views(nodes@), *sel),
{
    let mut i: usize = 0;
    while i < nodes.len()
        invariant
            i <= nodes.len(),
            forall|j: nat| j < i ==> !matches(node_views(nodes@), j, *sel),
        decreases nodes.len() - i,
    {
        if node_matches(nodes, i, sel) {
            return true;
        }
        i += 1;
    }
    false
}


/// What more is asked of a node that a test holds of.
#[derive(Clone, Debug)]
pub enum Extra {
    /// Its text is this text.
    TextIs(&'static str),
    /// Its text holds this text.
    TextHolds(&'static str),
    /// It has an `href` that begins with this text.
    HrefStarts(&'static str),
}

/// The node meets what is asked of it.
pub open spec fn fits(node: HtmlNodeView, extra: Extra) -> bool {
    match extra {
        Extra::TextIs(t) => node.text == t@,
        Extra::TextHolds(t) => contains(node.text, t@),
        Extra::HrefStarts(t) => attr_in(node.attrs, "href"@) is Some && starts_with(
            attr_in(node.attrs, "href"@)->0,
            t@,
        ),
    }
}

/// The test holds of some node that meets what is asked of it.
pub open spec fn any_fitting(nodes: Seq<HtmlNodeView>, sel: Selector, extra: Extra) -> bool {
    exists|i: nat| #[trigger] matches(nodes, i, sel) && fits(nodes[i as int], extra)
}

/// One of the two tests.
pub open spec fn either(a: Selector, b: Selector) -> Selector {
    Selector::Or(Box::new(a), Box::new(b))
}

/// Both tests.
pub open spec fn both(a: Selector, b: Selector) -> Selector {
    Selector::And(Box::new(a), Box::new(b))
}

/// The second test, with the first on the parent.
pub open spec fn child(a: Selector, b: Selector) -> Selector {
    Selector::Child(Box::new(a), Box::new(b))
}

/// The second test, with the first on a node above.
pub open spec fn under(a: Selector, b: Selector) -> Selector {
    Selector::Descendant(Box::new(a), Box::new(b))
}

/// A link in a `pre` element.
pub open spec fn pre_link() -> Selector {
    under(Selector::Name("pre"), Selector::Name("a"))
}

/// A link in a cell of a table row.
pub open spec fn row_link() -> Selector {
    under(Selector::Name("tr"), under(Selector::Name("td"), Selector::Name("a")))
}

/// A `div` that is the container of an OLAINDEX page.
pub open spec fn olaindex_container() -> Selector {
    both(
        Selector::Name("div"),
        either(Selector::Class("mdui-container"), Selector::Class("container")),
    )
}

/// An element with one of the two classes of AutoIndex PHP links.
pub open spec fn autoindex_link() -> Selector {
    either(Selector::Class("autoindex_a"), Selector::Class("default_a"))
}

/// The nodes that may hold a link of the listing, for each kind.
pub open spec fn listing_selector(method: ODMethod) -> Selector {
    match method {
        ODMethod::OLAINDEX => under(
            olaindex_container(),
            either(Selector::Name("a"), Selector::Name("li")),
        ),
        ODMethod::AutoIndexPHP | ODMethod::AutoIndexPHPNoCrumb => under(
            Selector::Name("tbody"),
            autoindex_link(),
        ),
        ODMethod::DirectoryLister => under(Selector::Name("ul"), Selector::Name("a")),
        ODMethod::DirectoryListingScript => either(
            under(Selector::Attr("id", "listingcontainer"), Selector::Name("a")),
            under(Selector::Class("table-container"), Selector::Name("a")),
        ),
        ODMethod::Apache => either(
            either(row_link(), pre_link()),
            under(Selector::Name("li"), Selector::Name("a")),
        ),
        ODMethod::MicrosoftIIS => either(pre_link(), row_link()),
        ODMethod::NGINX | ODMethod::Generic => Selector::Name("a"),
    }
}

/// The page is recognized as a directory of this kind.
///
/// Microsoft IIS: a link in a `pre` with the text `[To Parent Directory]`, a
/// page whose text holds `<dir>`, or a server named `Microsoft-IIS`. OLAINDEX: a
/// link or list item with `data-route` in the container of the page.
/// AutoIndex PHP: one of its links in a `tbody`. Directory Lister: a link in
/// a `ul` that lies directly in the `body`. Directory Listing Script: an
/// element with the id `listingcontainer` or the class `table-container`.
/// Apache: a server named `Apache`, or a link in a `pre` that sorts the
/// listing by a column. NGINX: a server named `nginx`, or a link directly in
/// a `pre` that lies directly in the `body`. Generic: every page.
pub open spec fn detects(nodes: Seq<HtmlNodeView>, server: Seq<char>, method: ODMethod) -> bool {
    match method {
        ODMethod::MicrosoftIIS => any_fitting(
            nodes,
            pre_link(),
            Extra::TextIs("[To Parent Directory]"),
        ) || any_fitting(nodes, Selector::Root, Extra::TextHolds("<dir>")) || contains(
            server,
            "Microsoft-IIS"@,
        ),
        ODMethod::OLAINDEX => any_match(
            nodes,
            both(
                Selector::Has("data-route"),
                under(olaindex_container(), either(Selector::Name("a"), Selector::Name("li"))),
            ),
        ),
        ODMethod::AutoIndexPHP => any_match(nodes, under(Selector::Name("tbody"), autoindex_link())),
        ODMethod::AutoIndexPHPNoCrumb => false,
        ODMethod::DirectoryLister => any_match(
            nodes,
            under(child(Selector::Name("body"), Selector::Name("ul")), Selector::Name("a")),
        ),
        ODMethod::DirectoryListingScript => any_match(
            nodes,
            either(Selector::Attr("id", "listingcontainer"), Selector::Class("table-container")),
        ),
        ODMethod::Apache => contains(server, "Apache"@) || any_fitting(
            nodes,
            pre_link(),
            Extra::HrefStarts("?C="),
        ),
        ODMethod::NGINX => contains(server, "nginx"@) || any_match(
            nodes,
            child(child(Selector::Name("body"), Selector::Name("pre")), Selector::Name("a")),
        ),
        ODMethod::Generic => true,
    }
}

/// The kind of directory that a page is taken for: the first that is
/// recognized, the special kinds before the general ones.
pub open spec fn method_of(nodes: Seq<HtmlNodeView>, server: Seq<char>) -> ODMethod {
    if detects(nodes, server, ODMethod::MicrosoftIIS) {
        ODMethod::MicrosoftIIS
    } else if detects(nodes, server, ODMethod::OLAINDEX) {
        ODMethod::OLAINDEX
    } else if detects(nodes, server, ODMethod::AutoIndexPHP) {
        ODMethod::AutoIndexPHP
    } else if detects(nodes, server, ODMethod::DirectoryLister) {
        ODMethod::DirectoryLister
    } else if detects(nodes, server, ODMethod::DirectoryListingScript) {
        ODMethod::DirectoryListingScript
    } else if detects(nodes, server, ODMethod::Apache) {
        ODMethod::Apache
    } else if detects(nodes, server, ODMethod::NGINX) {
        ODMethod::NGINX
    } else {
        ODMethod::Generic
    }
}

/// The link that a node holds: for OLAINDEX its `data-route`, where it has
/// one; else its `href`.
pub open spec fn raw_link(node: HtmlNodeView, method: ODMethod) -> Option<Seq<char>> {
    if method == ODMethod::OLAINDEX && attr_in(node.attrs, "data-route"@) is Some {
        attr_in(node.attrs, "data-route"@)
    } else {
        attr_in(node.attrs, "href"@)
    }
}

/// A link to the directory itself or to the one above.
pub open spec fn is_dot_link(link: Seq<char>) -> bool {
    link == "."@ || link == ".."@ || link == "./"@ || link == "../"@
}

/// A link that leads back to the start of a listing script.
pub open spec fn is_home_navigator(link: Seq<char>) -> bool {
    ends_with(link, "?dir="@)
}

/// The link names the page itself, whatever the scheme and a last `/`.
pub open spec fn names_page(link: Seq<char>, url: Seq<char>) -> bool {
    without_last_slash(without_scheme(link)) == without_last_slash(without_scheme(url))
}

/// The text of an anchor, trimmed and in lower case, names the parent
/// directory: it begins with `parent directory` or `[to parent directory]`.
pub open spec fn is_parent_text(lowered: Seq<char>) -> bool {
    starts_with(lowered, "parent directory"@) || starts_with(lowered, "[to parent directory]"@)
}

/// The link of an anchor leads on from the page at `url`: there is a link, the
/// text of the anchor does not name the parent directory, and the link leads
/// neither to this directory, nor to the one above, nor to the start of the
/// script, nor to this page.
pub open spec fn leads_on(url: Seq<char>, lowered: Seq<char>, href: Option<Seq<char>>) -> bool {
    href is Some && !is_parent_text(lowered) && !is_dot_link(href->0) && !is_home_navigator(
        href->0,
    ) && !names_page(href->0, url)
}

/// A query that sorts an Apache listing by a column.
pub open spec fn has_sort_query(link: Seq<char>) -> bool {
    starts_with(link, "?C="@)
}

/// The link is of use for the kind of directory: it runs no script; for
/// Apache and NGINX it does not sort the listing; for Directory Lister the
/// URL of the page does not hold it; for OLAINDEX and the generic kind it
/// has no segment `view` or `preview` and no bread-crumb number.
pub open spec fn is_useful(url: Seq<char>, link: Seq<char>, method: ODMethod) -> bool {
    !contains(link, "javascript:"@) && ((method == ODMethod::Apache || method == ODMethod::NGINX)
        ==> !has_sort_query(link)) && (method == ODMethod::DirectoryLister ==> !contains(
        url,
        link,
    )) && ((method == ODMethod::OLAINDEX || method == ODMethod::Generic) ==> !has_view_segment(
        split(link, '/'),
    ))
}

/// The link that is taken from a node, given the text of the node trimmed
/// and in lower case: the link of the node, cleaned, where it leads on, is of
/// use, and is no dot link once it is cleaned.
pub open spec fn link_from(
    node: HtmlNodeView,
    lowered: Seq<char>,
    url: Seq<char>,
    method: ODMethod,
) -> Option<Seq<char>> {
    if leads_on(url, lowered, raw_link(node, method)) && is_useful(
        url,
        raw_link(node, method)->0,
        method,
    ) && !is_dot_link(sanitized(raw_link(node, method)->0)) {
        Some(sanitized(raw_link(node, method)->0))
    } else {
        None
    }
}

/// The links taken from the first `n` nodes of a document, in its order.
pub open spec fn links_upto(
    nodes: Seq<HtmlNodeView>,
    n: nat,
    url: Seq<char>,
    method: ODMethod,
) -> Seq<Seq<char>>
    decreases n,
{
    if n == 0 {
        Seq::<Seq<char>>::empty()
    } else {
        let before = links_upto(nodes, (n - 1) as nat, url, method);
        let node = nodes[n - 1];
        let link = link_from(node, lowercase_of(trimmed(node.text)), url, method);
        if matches(nodes, (n - 1) as nat, listing_selector(method)) && link is Some {
            before.push(link->0)
        } else {
            before
        }
    }
}

/// The links taken from a document for a kind of directory.
pub open spec fn links_of(nodes: Seq<HtmlNodeView>, url: Seq<char>, method: ODMethod) -> Seq<
    Seq<char>,
> {
    links_upto(nodes, nodes.len(), url, method)
}

fn either_of(a: Selector, b: Selector) -> (r: Selector)
    ensures
        r == either(a, b),
{
    Selector::Or(Box::new(a), Box::new(b))
}

fn both_of(a: Selector, b: Selector) -> (r: Selector)
    ensures
        r == both(a, b),
{
    Selector::And(Box::new(a), Box::new(b))
}

fn child_of(a: Selector, b: Selector) -> (r: Selector)
    ensures
        r == child(a, b),
{
    Selector::Child(Box::new(a), Box::new(b))
}

fn under_of(a: Selector, b: Selector) -> (r: Selector)
    ensures
        r == under(a, b),
{
    Selector::Descendant(Box::new(a), Box::new(b))
}

fn pre_link_selector() -> (r: Selector)
    ensures
        r == pre_link(),
{
    under_of(Selector::Name("pre"), Selector::Name("a"))
}

fn row_link_selector() -> (r: Selector)
    ensures
        r == row_link(),
{
    under_of(Selector::Name("tr"), under_of(Selector::Name("td"), Selector::Name("a")))
}

fn olaindex_container_selector() -> (r: Selector)
    ensures
        r == olaindex_container(),
{
    both_of(
        Selector::Name("div"),
        either_of(Selector::Class("mdui-container"), Selector::Class("container")),
    )
}

fn autoindex_link_selector() -> (r: Selector)
    ensures
        r == autoindex_link(),
{
    either_of(Selector::Class("autoindex_a"), Selector::Class("default_a"))
}

/// The nodes that may hold a link of the listing, for a kind of directory.
pub fn selector_for(method: ODMethod) -> (r: Selector)
    ensures
        r == listing_selector(method),
{
    match method {
        ODMethod::OLAINDEX => under_of(
            olaindex_container_selector(),
            either_of(Selector::Name("a"), Selector::Name("li")),
        ),
        ODMethod::AutoIndexPHP | ODMethod::AutoIndexPHPNoCrumb => under_of(
            Selector::Name("tbody"),
            autoindex_link_selector(),
        ),
        ODMethod::DirectoryLister => under_of(Selector::Name("ul"), Selector::Name("a")),
        ODMethod::DirectoryListingScript => either_of(
            under_of(Selector::Attr("id", "listingcontainer"), Selector::Name("a")),
            under_of(Selector::Class("table-container"), Selector::Name("a")),
        ),
        ODMethod::Apache => either_of(
            either_of(row_link_selector(), pre_link_selector()),
            under_of(Selector::Name("li"), Selector::Name("a")),
        ),
        ODMethod::MicrosoftIIS => either_of(pre_link_selector(), row_link_selector()),
        ODMethod::NGINX | ODMethod::Generic => Selector::Name("a"),
    }
}

/// Whether a node meets what is asked of it.
fn node_fits(node: &HtmlNode, extra: &Extra) -> (r: bool)
    ensures
        r == fits(node@, *extra),
{
    match extra {
        Extra::TextIs(t) => text_is(node.text.as_str(), t),
        Extra::TextHolds(t) => includes(&chars_of(node.text.as_str()), &chars_of(t)),
        Extra::HrefStarts(t) => match attr_index(node, "href") {
            Some(k) => begins_with(&chars_of(node.attrs[k].1.as_str()), &chars_of(t)),
            None => false,
        },
    }
}

/// Whether the test holds of some node that meets what is asked of it.
pub fn has_fitting(nodes: &Vec<HtmlNode>, sel: &Selector, extra: &Extra) -> (r: bool)
    ensures
        r == any_fitting(node_views(nodes@), *sel, *extra),
{
    let mut i: usize = 0;
    while i < nodes.len()
        invariant
            i <= nodes.len(),
            forall|j: nat|
                j < i ==> !(#[trigger] matches(node_views(nodes@), j, *sel) && fits(
                    node_views(nodes@)[j as int],
                    *extra,
                )),
        decreases nodes.len() - i,
    {
        assert(node_views(nodes@)[i as int] == nodes@[i as int]@);
        if node_matches(nodes, i, sel) && node_fits(&nodes[i], extra) {
            return true;
        }
        i += 1;
    }
    false
}

/// Whether a page, given as its nodes and the name of its server, is
/// recognized as a directory of a kind.
pub fn detects_in(nodes: &Vec<HtmlNode>, server: &str, method: ODMethod) -> (r: bool)
    ensures
        r == detects(node_views(nodes@), server@, method),
{
    let named = chars_of(server);
    match method {
        ODMethod::MicrosoftIIS => has_fitting(
            nodes,
            &pre_link_selector(),
            &Extra::TextIs("[To Parent Directory]"),
        ) || has_fitting(nodes, &Selector::Root, &Extra::TextHolds("<dir>")) || includes(
            &named,
            &chars_of("Microsoft-IIS"),
        ),
        ODMethod::OLAINDEX => has_match(
            nodes,
            &both_of(
                Selector::Has("data-route"),
                under_of(
                    olaindex_container_selector(),
                    either_of(Selector::Name("a"), Selector::Name("li")),
                ),
            ),
        ),
        ODMethod::AutoIndexPHP => has_match(
            nodes,
            &under_of(Selector::Name("tbody"), autoindex_link_selector()),
        ),
        ODMethod::AutoIndexPHPNoCrumb => false,
        ODMethod::DirectoryLister => has_match(
            nodes,
            &under_of(child_of(Selector::Name("body"), Selector::Name("ul")), Selector::Name("a")),
        ),
        ODMethod::DirectoryListingScript => has_match(
            nodes,
            &either_of(Selector::Attr("id", "listingcontainer"), Selector::Class("table-container")),
        ),
        ODMethod::Apache => includes(&named, &chars_of("Apache")) || has_fitting(
            nodes,
            &pre_link_selector(),
            &Extra::HrefStarts("?C="),
        ),
        ODMethod::NGINX => includes(&named, &chars_of("nginx")) || has_match(
            nodes,
            &child_of(child_of(Selector::Name("body"), Selector::Name("pre")), Selector::Name("a")),
        ),
        ODMethod::Generic => true,
    }
}

/// The kind of directory that a page, given as its nodes and the name of
/// its server, is taken for.
pub fn detect_in(nodes: &Vec<HtmlNode>, server: &str) -> (r: ODMethod)
    ensures
        r == method_of(node_views(nodes@), server@),
{
    if detects_in(nodes, server, ODMethod::MicrosoftIIS) {
        ODMethod::MicrosoftIIS
    } else if detects_in(nodes, server, ODMethod::OLAINDEX) {
        ODMethod::OLAINDEX
    } else if detects_in(nodes, server, ODMethod::AutoIndexPHP) {
        ODMethod::AutoIndexPHP
    } else if detects_in(nodes, server, ODMethod::DirectoryLister) {
        ODMethod::DirectoryLister
    } else if detects_in(nodes, server, ODMethod::DirectoryListingScript) {
        ODMethod::DirectoryListingScript
    } else if detects_in(nodes, server, ODMethod::Apache) {
        ODMethod::Apache
    } else if detects_in(nodes, server, ODMethod::NGINX) {
        ODMethod::NGINX
    } else {
        ODMethod::Generic
    }
}

/// The kind of directory that a page is taken for, from its body and the
/// `Server` header it came with.
pub fn detect(body: &str, server: &str) -> (r: ODMethod)
    ensures
        r == method_of(html_nodes(body@), server@),
{
    detect_in(&parse_html(body), server)
}

/// Whether a link leads to the directory itself or to the one above.
pub fn dot_link(link: &Vec<char>) -> (r: bool)
    ensures
        r == is_dot_link(link@),
{
    same(link, &chars_of(".")) || same(link, &chars_of("..")) || same(link, &chars_of("./"))
        || same(link, &chars_of("../"))
}

/// Whether the link of an anchor leads on from the page at `url`, given the
/// text of the anchor trimmed and in lower case.
pub fn leads_on_from(url: &str, lowered: &str, href: Option<&str>) -> (r: bool)
    ensures
        r == leads_on(
            url@,
            lowered@,
            match href {
                Some(h) => Some(h@),
                None => None,
            },
        ),
{
    match href {
        None => false,
        Some(link) => {
            let l = chars_of(link);
            let text = chars_of(lowered);
            let not_parent = !(begins_with(&text, &chars_of("parent directory")) || begins_with(
                &text,
                &chars_of("[to parent directory]"),
            ));
            let no_back_path = !dot_link(&l);
            let no_home_navigator = !finishes_with(&l, &chars_of("?dir="));
            let new_link = remove_last_slash_chars(&remove_http_chars(&l));
            let new_url = remove_last_slash_chars(&remove_http_chars(&chars_of(url)));
            let no_home_url = !same(&new_link, &new_url);
            not_parent && no_back_path && no_home_navigator && no_home_url
        },
    }
}

/// Whether the link of an anchor with this text leads on from the page at
/// `url`, and not back to its parent directory or to itself.
pub fn no_parent_dir(url: &str, content: &str, href: Option<&str>) -> (r: bool)
    ensures
        r == leads_on(
            url@,
            lowercase_of(trimmed(content@)),
            match href {
                Some(h) => Some(h@),
                None => None,
            },
        ),
{
    let lowered = to_lowercase(trim(content).as_str());
    leads_on_from(url, lowered.as_str(), href)
}

/// Whether a link is of use for a kind of directory.
pub fn useful(url: &str, link: &str, method: ODMethod) -> (r: bool)
    ensures
        r == is_useful(url@, link@, method),
{
    let l = chars_of(link);
    if includes(&l, &chars_of("javascript:")) {
        return false;
    }
    match method {
        ODMethod::Apache | ODMethod::NGINX => !begins_with(&l, &chars_of("?C=")),
        ODMethod::DirectoryLister => !includes(&chars_of(url), &l),
        ODMethod::OLAINDEX | ODMethod::Generic => !any_view_segment(&split_on(&l, '/')),
        _ => true,
    }
}

/// The index of the attribute that holds the link of a node.
fn link_index(node: &HtmlNode, method: ODMethod) -> (r: Option<usize>)
    ensures
        match r {
            Some(k) => k < node.attrs.len() && raw_link(node@, method) == Some(
                node.attrs[k as int].1@,
            ),
            None => raw_link(node@, method) is None,
        },
{
    if let ODMethod::OLAINDEX = method {
        let route = attr_index(node, "data-route");
        if route.is_some() {
            return route;
        }
    }
    attr_index(node, "href")
}

/// The link that is taken from a node, given the text of the node trimmed
/// and in lower case.
pub fn link_of(node: &HtmlNode, lowered: &str, url: &str, method: ODMethod) -> (r: Option<String>)
    ensures
        match r {
            Some(link) => link_from(node@, lowered@, url@, method) == Some(link@),
            None => link_from(node@, lowered@, url@, method) is None,
        },
{
    match link_index(node, method) {
        Some(k) => {
            let link = node.attrs[k].1.as_str();
            if leads_on_from(url, lowered, Some(link)) && useful(url, link, method) {
                let cleaned = sanitize_url_chars(&chars_of(link));
                if dot_link(&cleaned) {
                    None
                } else {
                    Some(string_of(&cleaned))
                }
            } else {
                None
            }
        },
        None => None,
    }
}

/// The links taken from a document, given as its nodes, for a kind of
/// directory.
pub fn links_in(nodes: &Vec<HtmlNode>, url: &str, method: ODMethod) -> (r: Vec<String>)
    ensures
        string_views(r@) == links_of(node_views(nodes@), url@, method),
{
    let sel = selector_for(method);
    let mut links: Vec<String> = Vec::new();
    let mut i: usize = 0;
    assert(string_views(links@) == Seq::<Seq<char>>::empty());
    while i < nodes.len()
        invariant
            i <= nodes.len(),
            sel == listing_selector(method),
            string_views(links@) == links_upto(node_views(nodes@), i as nat, url@, method),
        decreases nodes.len() - i,
    {
        assert(node_views(nodes@)[i as int] == nodes@[i as int]@);
        if node_matches(nodes, i, &sel) {
            let lowered = to_lowercase(trim(nodes[i].text.as_str()).as_str());
            match link_of(&nodes[i], lowered.as_str(), url, method) {
                Some(link) => {
                    let ghost before = string_views(links@);
                    let ghost added = link@;
                    links.push(link);
                    assert(string_views(links@) == before.push(added));
                },
                None => {},
            }
        }
        i += 1;
    }
    links
}

/// The links of a listing: those that the page of a directory of this kind
/// holds, in the order of the page, each one cleaned.
pub fn filtered_links(res: &str, url: &str, od_type: &ODMethod) -> (r: Vec<String>)
    ensures
        string_views(r@) == links_of(html_nodes(res@), url@, *od_type),
{
    links_in(&parse_html(res), url, *od_type)
}

/// The Microsoft IIS kind of directory.
pub struct MicrosoftIIS;

impl MicrosoftIIS {
    /// Whether a page is a Microsoft IIS directory.
    pub fn is_od(res: &str, server_name: &str) -> (r: bool)
        ensures
            r == detects(html_nodes(res@), server_name@, ODMethod::MicrosoftIIS),
    {
        detects_in(&parse_html(res), server_name, ODMethod::MicrosoftIIS)
    }

    /// Whether the `Server` header names Microsoft IIS.
    pub fn header_id(server_name: &str) -> (r: bool)
        ensures
            r == contains(server_name@, "Microsoft-IIS"@),
    {
        includes(&chars_of(server_name), &chars_of("Microsoft-IIS"))
    }

    /// The links of a Microsoft IIS listing.
    pub fn search(res: &str, url: &str) -> (r: Vec<String>)
        ensures
            string_views(r@) == links_of(html_nodes(res@), url@, ODMethod::MicrosoftIIS),
    {
        links_in(&parse_html(res), url, ODMethod::MicrosoftIIS)
    }
}

} // verus!
