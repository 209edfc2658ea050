use zeiver::parser::UrlError;
use zeiver::scraper::{classify, filter_keeps, step_on, Action, Entry, Scraper};

fn texts(list: &Vec<String>) -> Vec<&str> {
    list.iter().map(|s| s.as_str()).collect()
}

fn queue(scraper: &Scraper) -> Vec<(&str, usize, usize)> {
    scraper.frontier().iter().map(|e| (e.url.as_str(), e.depth, e.page)).collect()
}

const APACHE_PAGE: &str = "<html><body><h1>Index of /</h1><pre>\
    <a href=\"?C=N;O=D\">Name</a> <a href=\"../\">Parent Directory</a> \
    <a href=\"a.txt\">a.txt</a> <a href=\"b.zip\">b.zip</a> <a href=\"sub/\">sub/</a>\
    </pre></body></html>";

#[test]
fn apache_two_files_one_subdir() {
    let mut scraper = Scraper::new("http://x/", 20, 0, None, None).ok().unwrap();
    let first = scraper.next_target().unwrap();
    assert_eq!((first.url.as_str(), first.depth, first.page), ("http://x/", 0, 0));
    scraper.visit(APACHE_PAGE, "Apache/2.4.41");
    assert_eq!(texts(scraper.files()), vec!["http://x/a.txt", "http://x/b.zip"]);
    assert_eq!(queue(&scraper), vec![("http://x/sub/", 1, 0)]);
    assert_eq!(texts(scraper.dirs()), vec!["http://x/sub/"]);
    assert_eq!(texts(scraper.visited()), vec!["http://x/"]);
}

#[test]
fn seed_that_is_no_url_is_malformed() {
    assert!(matches!(Scraper::new("exa mple.com", 20, 0, None, None), Err(UrlError::MalformedUrl)));
}

#[test]
fn seed_is_normalized() {
    let mut scraper = Scraper::new("x.org/pub//files", 3, 0, None, None).ok().unwrap();
    assert_eq!(scraper.seed(), "http://x.org/pub/files");
    assert!(!scraper.is_done());
    let first = scraper.next_target().unwrap();
    assert_eq!(first.url, "http://x.org/pub/files");
    assert!(scraper.is_done());
}

#[test]
fn pagination_is_followed_upwards_only() {
    let mut scraper = Scraper::new("http://x/dir/?page=1", 20, 3, None, None).ok().unwrap();
    let seed = scraper.next_target().unwrap();
    assert_eq!(seed.url, "http://x/dir/?page=1");
    scraper.absorb(&vec!["?page=2".to_string(), "?page=5".to_string()]);
    assert_eq!(
        queue(&scraper),
        vec![("http://x/dir/?page=2", 0, 2), ("http://x/dir/?page=5", 0, 5)]
    );
    let second = scraper.next_target().unwrap();
    assert_eq!((second.url.as_str(), second.depth, second.page), ("http://x/dir/?page=2", 0, 2));
    scraper.absorb(&vec!["?page=2".to_string()]);
    let fifth = scraper.next_target().unwrap();
    assert_eq!((fifth.url.as_str(), fifth.depth, fifth.page), ("http://x/dir/?page=5", 0, 5));
    scraper.absorb(&vec!["?page=2".to_string()]);
    assert!(scraper.next_target().is_none());
    assert!(scraper.is_done());
    assert_eq!(
        texts(scraper.visited()),
        vec!["http://x/dir/?page=1", "http://x/dir/?page=2", "http://x/dir/?page=5"]
    );
}

#[test]
fn pagination_is_off_without_a_page_limit() {
    let mut scraper = Scraper::new("http://x/dir/", 20, 0, None, None).ok().unwrap();
    scraper.next_target();
    scraper.absorb(&vec!["?page=2".to_string()]);
    assert_eq!(queue(&scraper), vec![("http://x/dir/?page=2", 1, 0)]);
}

#[test]
fn accept_wins_over_reject() {
    let mut scraper = Scraper::new(
        "http://x/",
        20,
        0,
        Some(r"\.mp4$".to_string()),
        Some(r"\.mp4$".to_string()),
    )
    .ok()
    .unwrap();
    scraper.next_target();
    scraper.absorb(&vec!["video.mp4".to_string(), "notes.txt".to_string()]);
    assert_eq!(texts(scraper.files()), vec!["http://x/video.mp4"]);
}

#[test]
fn reject_alone_drops_what_matches() {
    let mut scraper =
        Scraper::new("http://x/", 20, 0, None, Some(r"\.mp4$".to_string())).ok().unwrap();
    scraper.next_target();
    scraper.absorb(&vec!["video.mp4".to_string(), "notes.txt".to_string()]);
    assert_eq!(texts(scraper.files()), vec!["http://x/notes.txt"]);
}

#[test]
fn accept_that_does_not_compile_keeps_nothing() {
    let mut scraper = Scraper::new("http://x/", 20, 0, Some("(".to_string()), None).ok().unwrap();
    scraper.next_target();
    scraper.absorb(&vec!["video.mp4".to_string()]);
    assert!(scraper.files().is_empty());
}

#[test]
fn filter_decision() {
    assert!(filter_keeps(None, None));
    assert!(filter_keeps(Some(Some(true)), Some(Some(true))));
    assert!(!filter_keeps(Some(Some(false)), None));
    assert!(!filter_keeps(Some(Some(false)), Some(Some(false))));
    assert!(!filter_keeps(Some(None), None));
    assert!(!filter_keeps(None, Some(Some(true))));
    assert!(filter_keeps(None, Some(Some(false))));
    assert!(filter_keeps(None, Some(None)));
}

#[test]
fn depth_is_bounded() {
    let mut scraper = Scraper::new("http://x/", 1, 0, None, None).ok().unwrap();
    scraper.next_target();
    scraper.absorb(&vec!["a/".to_string()]);
    assert_eq!(queue(&scraper), vec![("http://x/a/", 1, 0)]);
    let below = scraper.next_target().unwrap();
    assert_eq!(below.depth, 1);
    scraper.absorb(&vec!["b/".to_string(), "c.txt".to_string()]);
    assert!(queue(&scraper).is_empty());
    assert_eq!(texts(scraper.files()), vec!["http://x/a/c.txt"]);
    assert!(scraper.frontier().iter().all(|e| e.depth <= 1));
}

#[test]
fn depth_zero_takes_files_only() {
    let mut scraper = Scraper::new("http://x/", 0, 0, None, None).ok().unwrap();
    scraper.next_target();
    scraper.absorb(&vec!["a/".to_string(), "c.txt".to_string()]);
    assert!(scraper.is_done());
    assert_eq!(texts(scraper.files()), vec!["http://x/c.txt"]);
}

#[test]
fn visited_pages_are_not_fetched_twice() {
    let mut scraper = Scraper::new("http://x/", 20, 0, None, None).ok().unwrap();
    scraper.next_target();
    scraper.absorb(&vec!["a/".to_string(), "a/".to_string(), "b/".to_string()]);
    assert_eq!(queue(&scraper).len(), 3);
    let mut seen = 1;
    while let Some(_) = scraper.next_target() {
        seen += 1;
        assert_eq!(scraper.visited().len(), seen);
    }
    assert_eq!(texts(scraper.visited()), vec!["http://x/", "http://x/a/", "http://x/b/"]);
}

#[test]
fn links_that_lead_nowhere_new_are_skipped() {
    let mut scraper = Scraper::new("http://x/pub/", 20, 0, None, None).ok().unwrap();
    scraper.next_target();
    scraper.absorb(&vec![
        "../".to_string(),
        "/".to_string(),
        "?sortby=name".to_string(),
        "/pub/".to_string(),
        "/pub".to_string(),
        "./here.txt".to_string(),
        "word".to_string(),
    ]);
    assert_eq!(texts(scraper.files()), vec!["http://x/pub/here.txt"]);
    assert_eq!(queue(&scraper), vec![("http://x/pub/word", 1, 0)]);
}

#[test]
fn nothing_is_taken_in_without_a_current_page() {
    let mut scraper = Scraper::new("http://x/", 20, 0, None, None).ok().unwrap();
    scraper.absorb(&vec!["a.txt".to_string()]);
    scraper.visit(APACHE_PAGE, "");
    assert!(scraper.files().is_empty());
    assert_eq!(queue(&scraper), vec![("http://x/", 0, 0)]);
}

#[test]
fn skip_gives_up_the_current_page() {
    let mut scraper = Scraper::new("http://x/", 20, 0, None, None).ok().unwrap();
    scraper.next_target();
    scraper.skip();
    scraper.absorb(&vec!["a.txt".to_string()]);
    assert!(scraper.files().is_empty());
    assert_eq!(texts(scraper.visited()), vec!["http://x/"]);
}

#[test]
fn empty_page_adds_nothing() {
    let mut scraper = Scraper::new("http://x/", 20, 0, None, None).ok().unwrap();
    scraper.next_target();
    scraper.visit("", "");
    assert!(scraper.files().is_empty());
    assert!(scraper.is_done());
}

#[test]
fn classify_takes_the_resolved_link() {
    let abs = Some("http://x/a/b.txt".to_string());
    assert!(matches!(
        classify(&abs, "b.txt", false, "b.txt", "http://x/a/", 0, 0),
        Action::File(url) if url == "http://x/a/b.txt"
    ));
    assert!(matches!(classify(&None, "b.txt", false, "b.txt", "http://x/a/", 0, 0), Action::Skip));
    assert!(matches!(classify(&abs, "b.txt", true, "b.txt", "http://x/a/", 0, 0), Action::Skip));
    assert!(matches!(classify(&abs, "b.txt", false, "b.txt", "http://y/", 0, 0), Action::Skip));
    let page = Some("http://x/a/?page=3".to_string());
    assert!(matches!(
        classify(&page, "?page=3", false, "?page=3", "http://x/a/", 1, 5),
        Action::Page(url, 3) if url == "http://x/a/?page=3"
    ));
    let dir = Some("http://x/a/sub/".to_string());
    assert!(matches!(
        classify(&dir, "sub/", false, "sub/", "http://x/a/", 0, 0),
        Action::Dir(url) if url == "http://x/a/sub/"
    ));
}

#[test]
fn step_on_resolves_against_the_current_page() {
    let cur = Entry { url: "http://x/a/".to_string(), depth: 2, page: 0 };
    assert!(matches!(
        step_on(&cur, "SORTBY.txt", "http://x/", 0),
        Action::Skip
    ));
    assert!(matches!(
        step_on(&cur, "b.txt", "http://x/", 0),
        Action::File(url) if url == "http://x/a/b.txt"
    ));
}

#[test]
fn links_are_read_below_the_current_page() {
    let mut scraper = Scraper::new("http://x/pub/", 20, 0, None, None).ok().unwrap();
    scraper.next_target();
    scraper.absorb(&vec![
        "/pub/docs/a.txt".to_string(),
        "/etc/passwd.txt".to_string(),
        "http://other/file.txt".to_string(),
    ]);
    assert_eq!(
        texts(scraper.files()),
        vec![
            "http://x/pub/docs/a.txt",
            "http://x/pub/etc/passwd.txt",
            "http://x/pub/http://other/file.txt"
        ]
    );
}

#[test]
fn files_lie_under_the_seed() {
    let mut scraper = Scraper::new("http://x/pub/", 20, 0, None, None).ok().unwrap();
    scraper.next_target();
    scraper.absorb(&vec![
        "a.txt".to_string(),
        "./b/c.bin".to_string(),
        "/pub/d/e.iso".to_string(),
        "?sort=name".to_string(),
    ]);
    assert_eq!(scraper.files().len(), 3);
    for file in scraper.files() {
        assert!(zeiver::parser::sub_dir_check(file, scraper.seed()), "{}", file);
    }
}

#[test]
fn olaindex_route_becomes_a_file_of_the_walk() {
    let body = "<html><body><div class=\"container\">\
                <a data-route=\"/foo/bar.mp4\">bar.mp4</a>\
                <a href=\"/download/foo/baz.mp4\">baz.mp4</a>\
                </div></body></html>";
    let mut scraper = Scraper::new("http://x/", 20, 0, None, None).ok().unwrap();
    scraper.next_target();
    scraper.visit(body, "");
    assert_eq!(texts(scraper.files()), vec!["http://x/foo/bar.mp4", "http://x/foo/baz.mp4"]);
}

#[test]
fn iis_parent_link_is_not_walked() {
    let body = "<html><body><pre><a href=\"/pub/\">[To Parent Directory]</a><br>\
                <a href=\"/pub/files/a.iso\">a.iso</a><br>\
                &lt;dir&gt; <a href=\"/pub/files/docs/\">docs</a></pre></body></html>";
    let mut scraper = Scraper::new("http://x/pub/files/", 20, 0, None, None).ok().unwrap();
    scraper.next_target();
    scraper.visit(body, "Microsoft-IIS/10.0");
    assert_eq!(texts(scraper.files()), vec!["http://x/pub/files/a.iso"]);
    assert_eq!(queue(&scraper), vec![("http://x/pub/files/docs/", 1, 0)]);
}
