use zeiver::bindings::HtmlNode;
use zeiver::od::{
    attr_index, detect, detect_in, filtered_links, has_match, leads_on_from, link_of, links_in,
    node_matches, selector_for, useful, MicrosoftIIS, ODMethod, Selector,
};

fn element(name: &str, attrs: &[(&str, &str)], parent: Option<usize>, text: &str) -> HtmlNode {
    HtmlNode {
        name: Some(name.to_string()),
        attrs: attrs.iter().map(|(k, v)| (k.to_string(), v.to_string())).collect(),
        parent,
        text: text.to_string(),
    }
}

fn small_document() -> Vec<HtmlNode> {
    vec![
        element("html", &[], None, "Up a.txt"),
        element("body", &[], Some(0), "Up a.txt"),
        element("div", &[("class", "box  container wide"), ("id", "main")], Some(1), "Up a.txt"),
        element("a", &[("href", "../")], Some(2), "Up"),
        element("a", &[("href", "a.txt"), ("href", "second"), ("data-route", "/r/a.txt")], Some(2), "a.txt"),
        HtmlNode { name: None, attrs: vec![], parent: Some(4), text: "a.txt".to_string() },
    ]
}

#[test]
fn selectors_on_a_small_document() {
    let nodes = small_document();
    assert!(node_matches(&nodes, 2, &Selector::Name("div")));
    assert!(!node_matches(&nodes, 5, &Selector::Name("a")));
    assert!(!node_matches(&nodes, 6, &Selector::Name("a")));
    assert!(node_matches(&nodes, 2, &Selector::Class("container")));
    assert!(node_matches(&nodes, 2, &Selector::Class("wide")));
    assert!(!node_matches(&nodes, 2, &Selector::Class("contain")));
    assert!(!node_matches(&nodes, 3, &Selector::Class("container")));
    assert!(node_matches(&nodes, 2, &Selector::Attr("id", "main")));
    assert!(!node_matches(&nodes, 2, &Selector::Attr("id", "other")));
    assert!(node_matches(&nodes, 4, &Selector::Has("data-route")));
    assert!(!node_matches(&nodes, 3, &Selector::Has("data-route")));
    let in_div = Selector::Descendant(Box::new(Selector::Name("div")), Box::new(Selector::Name("a")));
    assert!(node_matches(&nodes, 3, &in_div));
    assert!(!node_matches(&nodes, 2, &in_div));
    let in_html = Selector::Descendant(Box::new(Selector::Name("html")), Box::new(Selector::Name("a")));
    assert!(node_matches(&nodes, 4, &in_html));
    let child_of_body = Selector::Child(Box::new(Selector::Name("body")), Box::new(Selector::Name("a")));
    assert!(!node_matches(&nodes, 4, &child_of_body));
    let child_of_div = Selector::Child(Box::new(Selector::Name("div")), Box::new(Selector::Name("a")));
    assert!(node_matches(&nodes, 4, &child_of_div));
    let both = Selector::And(Box::new(Selector::Name("a")), Box::new(Selector::Has("data-route")));
    assert!(node_matches(&nodes, 4, &both));
    assert!(!node_matches(&nodes, 3, &both));
    let either = Selector::Or(Box::new(Selector::Name("p")), Box::new(Selector::Name("body")));
    assert!(node_matches(&nodes, 1, &either));
    assert!(has_match(&nodes, &either));
    assert!(!has_match(&nodes, &Selector::Name("table")));
}

#[test]
fn parent_that_does_not_stand_before_is_no_parent() {
    let nodes = vec![
        element("a", &[("href", "x")], Some(1), "x"),
        element("pre", &[], Some(0), "x"),
    ];
    let in_pre = Selector::Descendant(Box::new(Selector::Name("pre")), Box::new(Selector::Name("a")));
    assert!(!node_matches(&nodes, 0, &in_pre));
}

#[test]
fn first_attribute_of_a_name_counts() {
    let nodes = small_document();
    assert_eq!(attr_index(&nodes[4], "href"), Some(0));
    assert_eq!(attr_index(&nodes[4], "data-route"), Some(2));
    assert_eq!(attr_index(&nodes[4], "class"), None);
}

#[test]
fn links_of_a_given_document() {
    let nodes = small_document();
    assert_eq!(links_in(&nodes, "http://x/", ODMethod::Generic), vec!["a.txt".to_string()]);
    assert_eq!(links_in(&nodes, "http://x/", ODMethod::OLAINDEX), vec!["/r/a.txt".to_string()]);
    assert!(links_in(&nodes, "http://x/", ODMethod::Apache).is_empty());
    assert_eq!(
        link_of(&nodes[4], "a.txt", "http://x/", ODMethod::Generic),
        Some("a.txt".to_string())
    );
    assert_eq!(link_of(&nodes[4], "parent directory", "http://x/", ODMethod::Generic), None);
    assert_eq!(link_of(&nodes[3], "up", "http://x/", ODMethod::Generic), None);
    assert_eq!(link_of(&nodes[2], "up a.txt", "http://x/", ODMethod::Generic), None);
}

#[test]
fn links_that_do_not_lead_on() {
    assert!(leads_on_from("http://x/", "a", Some("a.txt")));
    assert!(!leads_on_from("http://x/", "a", None));
    assert!(!leads_on_from("http://x/", "parent directory", Some("a.txt")));
    assert!(!leads_on_from("http://x/", "[to parent directory]", Some("/pub/")));
    assert!(!leads_on_from("http://x/", "a", Some("http://x")));
    assert!(!leads_on_from("http://x/", "a", Some("https://x/")));
    assert!(!leads_on_from("http://x/", "a", Some("index.php?dir=")));
}

#[test]
fn links_of_no_use_for_a_kind() {
    assert!(!useful("http://x/", "javascript:void(0)", ODMethod::Generic));
    assert!(!useful("http://x/", "javascript:history.back()", ODMethod::MicrosoftIIS));
    assert!(!useful("http://x/", "?C=M;O=A", ODMethod::Apache));
    assert!(!useful("http://x/", "?C=M;O=A", ODMethod::NGINX));
    assert!(useful("http://x/", "?C=M;O=A", ODMethod::Generic));
    assert!(!useful("http://x/pub/files/", "/pub", ODMethod::DirectoryLister));
    assert!(useful("http://x/pub/files/", "/pub", ODMethod::Apache));
    assert!(!useful("http://x/", "/view/a", ODMethod::OLAINDEX));
    assert!(!useful("http://x/", "/preview/a", ODMethod::Generic));
    assert!(!useful("http://x/", "/0/a", ODMethod::Generic));
    assert!(useful("http://x/", "/home/a", ODMethod::Generic));
    assert!(useful("http://x/", "/download/a", ODMethod::OLAINDEX));
    assert!(useful("http://x/", "/view/a", ODMethod::Apache));
}

#[test]
fn empty_body_has_no_links() {
    assert!(filtered_links("", "http://x/", &ODMethod::Generic).is_empty());
    assert!(filtered_links("", "http://x/", &ODMethod::Apache).is_empty());
    assert!(MicrosoftIIS::search("", "http://x/").is_empty());
    assert_eq!(detect("", ""), ODMethod::Generic);
}

#[test]
fn body_with_parent_anchors_only_has_no_links() {
    let body = "<html><body><pre><a href=\"../\">Parent Directory</a> \
                <a href=\"/up/\">  PARENT directory/ </a> <a href=\"..\">up</a></pre></body></html>";
    assert!(filtered_links(body, "http://x/dir/", &ODMethod::Apache).is_empty());
    assert!(filtered_links(body, "http://x/dir/", &ODMethod::Generic).is_empty());
}

#[test]
fn anchor_without_href_is_left_out() {
    let body = "<html><body><a name=\"top\">top</a><a href=\"a.txt\">a.txt</a></body></html>";
    assert_eq!(filtered_links(body, "http://x/", &ODMethod::Generic), vec!["a.txt".to_string()]);
}

#[test]
fn olaindex_data_route() {
    let body = "<html><body><div class=\"mdui-container\"><ul>\
                <li data-route=\"/download/foo/clip.mov\">clip.mov</li>\
                <a data-route=\"/foo/bar.mp4\">bar.mp4</a>\
                <a href=\"/home/foo/baz.mp4?preview\">baz.mp4</a>\
                <a href=\"/view/foo/qux.mp4\">qux.mp4</a>\
                </ul></div></body></html>";
    assert_eq!(detect(body, ""), ODMethod::OLAINDEX);
    assert_eq!(
        filtered_links(body, "http://x/", &ODMethod::OLAINDEX),
        vec!["/foo/clip.mov".to_string(), "/foo/bar.mp4".to_string(), "/foo/baz.mp4".to_string()]
    );
}

#[test]
fn kinds_are_recognized_by_their_pages() {
    let autoindex = "<html><body><table><tbody><tr><td>\
                     <a class=\"autoindex_a\" href=\"a.txt\">a.txt</a>\
                     <a class=\"other\" href=\"b.txt\">b.txt</a></td></tr></tbody></table></body></html>";
    assert_eq!(detect(autoindex, ""), ODMethod::AutoIndexPHP);
    assert_eq!(filtered_links(autoindex, "http://x/", &ODMethod::AutoIndexPHP), vec!["a.txt".to_string()]);
    assert_eq!(
        filtered_links(autoindex, "http://x/", &ODMethod::AutoIndexPHPNoCrumb),
        vec!["a.txt".to_string()]
    );

    let lister = "<html><body><ul id=\"directory-listing\"><li><a href=\"/pub/a.txt\">a.txt</a></li>\
                  <li><a href=\"/pub\">pub</a></li></ul></body></html>";
    assert_eq!(detect(lister, ""), ODMethod::DirectoryLister);
    assert_eq!(
        filtered_links(lister, "http://x/pub/", &ODMethod::DirectoryLister),
        vec!["/pub/a.txt".to_string()]
    );

    let script = "<html><body><div id=\"listingcontainer\"><a href=\"a.txt\">a.txt</a></div>\
                  <a href=\"outside.txt\">outside</a></body></html>";
    assert_eq!(detect(script, ""), ODMethod::DirectoryListingScript);
    assert_eq!(
        filtered_links(script, "http://x/", &ODMethod::DirectoryListingScript),
        vec!["a.txt".to_string()]
    );

    let nginx = "<html><head><title>Index of /</title></head><body><h1>Index of /</h1><hr>\
                 <pre><a href=\"../\">../</a>\n<a href=\"file.txt\">file.txt</a></pre><hr></body></html>";
    assert_eq!(detect(nginx, ""), ODMethod::NGINX);
    assert_eq!(detect("<html></html>", "nginx/1.18.0"), ODMethod::NGINX);
    assert_eq!(filtered_links(nginx, "http://x/", &ODMethod::NGINX), vec!["file.txt".to_string()]);

    assert_eq!(detect("<html><body><p>hello</p></body></html>", ""), ODMethod::Generic);
    assert_eq!(detect("<html><body><p>hello</p></body></html>", "Apache"), ODMethod::Apache);
}

#[test]
fn special_kinds_come_before_general_ones() {
    let body = "<html><body><pre><a href=\"/\">[To Parent Directory]</a></pre></body></html>";
    assert_eq!(detect(body, "Apache"), ODMethod::MicrosoftIIS);
    assert_eq!(detect("<html></html>", "Microsoft-IIS/8.5 nginx"), ODMethod::MicrosoftIIS);
    let nodes = small_document();
    assert_eq!(detect_in(&nodes, "nginx"), ODMethod::OLAINDEX);
    assert!(MicrosoftIIS::header_id("Microsoft-IIS/10.0"));
    assert!(!MicrosoftIIS::header_id("microsoft-iis"));
}

#[test]
fn each_kind_has_its_selector() {
    let nodes = small_document();
    assert!(node_matches(&nodes, 3, &selector_for(ODMethod::Generic)));
    assert!(node_matches(&nodes, 3, &selector_for(ODMethod::NGINX)));
    assert!(node_matches(&nodes, 3, &selector_for(ODMethod::OLAINDEX)));
    assert!(!node_matches(&nodes, 3, &selector_for(ODMethod::Apache)));
    assert!(!node_matches(&nodes, 3, &selector_for(ODMethod::MicrosoftIIS)));
    assert!(!node_matches(&nodes, 3, &selector_for(ODMethod::DirectoryLister)));
    assert!(!node_matches(&nodes, 3, &selector_for(ODMethod::AutoIndexPHP)));
    assert!(!node_matches(&nodes, 3, &selector_for(ODMethod::DirectoryListingScript)));
}

#[test]
fn page_that_holds_dir_is_microsoft_iis() {
    assert!(MicrosoftIIS::is_od("<html><body><p>12/1/2020 &lt;dir&gt; docs</p></body></html>", ""));
    assert_eq!(detect("<p>&lt;dir&gt;</p>", "nginx"), ODMethod::MicrosoftIIS);
    assert!(!MicrosoftIIS::is_od("<html><body><p>dir</p><dir></dir></body></html>", ""));
    let nodes = vec![element("p", &[], None, "<dir>")];
    assert_eq!(detect_in(&nodes, ""), ODMethod::MicrosoftIIS);
    let held = vec![element("p", &[], Some(0), "<dir>")];
    assert_eq!(detect_in(&held, ""), ODMethod::Generic);
    assert!(node_matches(&nodes, 0, &Selector::Root));
    assert!(!node_matches(&small_document(), 1, &Selector::Root));
}

#[test]
fn link_that_is_a_dot_link_once_cleaned_is_left_out() {
    let body = "<html><body><a href=\"..?preview\">up</a><a href=\"./?preview\">here</a>\
                <a href=\"a.txt?preview\">a</a></body></html>";
    assert_eq!(filtered_links(body, "http://x/d/", &ODMethod::Generic), vec!["a.txt".to_string()]);
}
