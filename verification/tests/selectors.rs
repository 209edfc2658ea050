use select::document::Document;
use select::predicate::{And, Attr, Child, Class, Descendant, Name, Or, Predicate};
use zeiver::bindings::HtmlNode;
use zeiver::od::{node_matches, selector_for, ODMethod, Selector};

const PAGES: [&str; 4] = [
    "<html><head><title>t</title></head><body><h1>Index</h1><pre><a href=\"?C=N;O=D\">Name</a>\
     <a href=\"../\">Parent Directory</a><a href=\"a.txt\">a.txt</a></pre>\
     <ul><li><a href=\"b/\">b</a></li><li class=\"x\tcontainer\ny\">c</li></ul></body></html>",
    "<div class=\"mdui-container wide\"><div><a data-route=\"/r\" class=\"autoindex_a\">r</a>\
     <li id=\"listingcontainer\"><a href=\"s\">s</a></li></div></div>\
     <table><tbody><tr><td><a class=\"default_a extra\" href=\"t\">t</a></td>\
     <th><a href=\"u\">u</a></th></tr></tbody></table><!-- note -->",
    "<pre>plain <b>bold <a href=\"v\">v</a></b></pre><div class=\"table-container\">\
     <p><a href=\"w\">w</a></p></div><a class=\"\" id=\"\">empty</a>",
    "",
];

fn nodes_of(document: &Document) -> Vec<HtmlNode> {
    let mut nodes = Vec::new();
    for index in 0..document.nodes.len() {
        let node = document.nth(index).unwrap();
        nodes.push(HtmlNode {
            name: node.name().map(|n| n.to_string()),
            attrs: node.attrs().map(|(k, v)| (k.to_string(), v.to_string())).collect(),
            parent: node.parent().map(|p| p.index()),
            text: node.text(),
        });
    }
    nodes
}

fn agree<P: Predicate>(mine: &Selector, theirs: P) {
    for page in PAGES {
        let document = Document::from(page);
        let nodes = nodes_of(&document);
        for index in 0..nodes.len() {
            let node = document.nth(index).unwrap();
            assert_eq!(
                node_matches(&nodes, index, mine),
                theirs.matches(&node),
                "{:?} on node {} of {:?}",
                mine,
                index,
                page
            );
        }
        assert!(!node_matches(&nodes, nodes.len(), mine));
    }
}

fn name(n: &'static str) -> Box<Selector> {
    Box::new(Selector::Name(n))
}

fn class(c: &'static str) -> Box<Selector> {
    Box::new(Selector::Class(c))
}

#[test]
fn simple_tests_agree_with_the_predicates() {
    for n in ["a", "li", "pre", "div", "html", "x"] {
        agree(&Selector::Name(n), Name(n));
    }
    for c in ["container", "x", "y", "mdui-container", "wide", "default_a", "", "cont"] {
        agree(&Selector::Class(c), Class(c));
    }
    for k in ["href", "class", "id", "data-route", "none"] {
        agree(&Selector::Has(k), Attr(k, ()));
    }
    agree(&Selector::Attr("id", "listingcontainer"), Attr("id", "listingcontainer"));
    agree(&Selector::Attr("href", "s"), Attr("href", "s"));
    agree(&Selector::Attr("id", ""), Attr("id", ""));
    agree(&Selector::Attr("class", "default_a"), Attr("class", "default_a"));
}

#[test]
fn joined_tests_agree_with_the_predicates() {
    agree(&Selector::Or(name("a"), name("li")), Or(Name("a"), Name("li")));
    agree(&Selector::And(name("a"), class("default_a")), And(Name("a"), Class("default_a")));
    agree(&Selector::Child(name("li"), name("a")), Child(Name("li"), Name("a")));
    agree(&Selector::Child(name("body"), name("pre")), Child(Name("body"), Name("pre")));
    agree(&Selector::Descendant(name("pre"), name("a")), Descendant(Name("pre"), Name("a")));
    agree(&Selector::Descendant(name("div"), name("a")), Descendant(Name("div"), Name("a")));
    agree(
        &Selector::Descendant(name("tr"), Box::new(Selector::Descendant(name("td"), name("a")))),
        Name("tr").descendant(Name("td").descendant(Name("a"))),
    );
    agree(
        &Selector::Child(Box::new(Selector::Child(name("body"), name("pre"))), name("a")),
        Child(Child(Name("body"), Name("pre")), Name("a")),
    );
}

#[test]
fn selectors_of_the_kinds_agree_with_the_predicates() {
    agree(&selector_for(ODMethod::Generic), Name("a"));
    agree(&selector_for(ODMethod::NGINX), Name("a"));
    agree(
        &selector_for(ODMethod::Apache),
        Name("tr")
            .descendant(Name("td").descendant(Name("a")))
            .or(Name("pre").descendant(Name("a")))
            .or(Name("li").descendant(Name("a"))),
    );
    agree(&selector_for(ODMethod::DirectoryLister), Name("ul").descendant(Name("a")));
    agree(
        &selector_for(ODMethod::DirectoryListingScript),
        Attr("id", "listingcontainer")
            .descendant(Name("a"))
            .or(Class("table-container").descendant(Name("a"))),
    );
    agree(
        &selector_for(ODMethod::AutoIndexPHP),
        Name("tbody").descendant(Class("autoindex_a").or(Class("default_a"))),
    );
    agree(
        &selector_for(ODMethod::OLAINDEX),
        Name("div")
            .and(Class("mdui-container").or(Class("container")))
            .descendant(Name("a").or(Name("li"))),
    );
    agree(
        &selector_for(ODMethod::MicrosoftIIS),
        Or(
            Name("pre").descendant(Name("a")),
            Name("tr").descendant(Name("td").descendant(Name("a"))),
        ),
    );
}
