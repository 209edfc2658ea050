use regex::Regex;
use zeiver::parser::{
    has_page_query, is_back_url, is_file_ext, is_not_symbol, is_uri, remove_last_slash,
    remove_preview_query,
};
use zeiver::patterns::{file_tail, first_query_segment, page_at_end};

/// Every text over an alphabet, up to a length.
fn texts(alphabet: &[char], longest: usize) -> Vec<String> {
    let mut all = vec![String::new()];
    let mut last = vec![String::new()];
    for _ in 0..longest {
        let mut next = Vec::new();
        for text in &last {
            for c in alphabet {
                let mut longer = text.clone();
                longer.push(*c);
                next.push(longer);
            }
        }
        all.extend(next.iter().cloned());
        last = next;
    }
    all
}

fn chars(text: &str) -> Vec<char> {
    text.chars().collect()
}

/// The index of a character, from the index of its first byte.
fn char_index(text: &str, byte: usize) -> usize {
    text[..byte].chars().count()
}

#[test]
fn back_link_is_the_pattern_dot_dot_slash() {
    let pattern = Regex::new(r"(?:\.\./)").unwrap();
    for text in texts(&['.', '/', 'a'], 6) {
        assert_eq!(is_back_url(&text), pattern.is_match(&text), "{:?}", text);
    }
}

#[test]
fn file_extension_is_its_pattern() {
    let pattern = Regex::new(r"\.[a-zA-Z0-9][a-zA-Z]([a-zA-Z0-9]{1,5})?/?$").unwrap();
    for text in texts(&['.', '/', 'a', '1'], 6) {
        assert_eq!(is_file_ext(&text), pattern.is_match(&text), "{:?}", text);
    }
    for text in texts(&['a', '1', '/'], 9) {
        let text = format!("x.{}", text);
        assert_eq!(is_file_ext(&text), pattern.is_match(&text), "{:?}", text);
    }
}

#[test]
fn file_link_is_its_pattern() {
    let file = Regex::new(
        r"\w/[a-zA-Z0-9~\+\-%\[\]\$_\.!‘\(\)= ]+\.[a-zA-Z0-9][a-zA-Z]([a-zA-Z0-9]{1,5})?/?$",
    )
    .unwrap();
    let page =
        Regex::new(r"[a-zA-Z0-9~\+\-%\[\]\$_\.!‘\(\)=]+\.(html?|aspx?|php)/?$").unwrap();
    for text in texts(&['.', '/', 'a', '1', ' ', '*'], 7) {
        assert_eq!(is_uri(&text), file.is_match(&text) && !page.is_match(&text), "{:?}", text);
    }
    for head in ["a", "_", "-", "\u{e9}", "\u{4e2d}", "\u{2018}", "\u{2014}", " ", "\u{661}"] {
        for name in ["a", "a b", "a*b", "\u{2018}", "a.b", "", "\u{e9}"] {
            for tail in [".txt", ".t", ".1a", ".a1", ".html", ".htm", ".php/", ".aspx", ".asp", ".abcdefg", ".abcdefgh", ".tx\u{e9}"] {
                let text = format!("{}/{}{}", head, name, tail);
                assert_eq!(
                    is_uri(&text),
                    file.is_match(&text) && !page.is_match(&text),
                    "{:?}",
                    text
                );
            }
        }
    }
}

#[test]
fn web_page_name_begins_where_its_pattern_matches() {
    let page =
        Regex::new(r"[a-zA-Z0-9~\+\-%\[\]\$_\.!‘\(\)=]+\.(html?|aspx?|php)/?$").unwrap();
    let mut samples = texts(&['.', '/', 'a', 'h', ' '], 5);
    let tails = [".html", ".htm", ".php", ".asp", ".aspx", ".html/", ".htmx", ".php//", "html"];
    let heads: Vec<String> = samples.drain(..).collect();
    for head in &heads {
        for tail in tails {
            let text = format!("{}{}", head, tail);
            let found = page.find(&text).map(|m| char_index(&text, m.start()));
            assert_eq!(page_at_end(&chars(&text)), found, "{:?}", text);
        }
    }
}

#[test]
fn plain_link_is_its_pattern() {
    let pattern = Regex::new(r"/?[a-zA-Z0-9\*~\+\-%\?\[\]\$_\.!‘\(\)=]+/").unwrap();
    for text in texts(&['/', 'a', ' ', '?', '\u{9996}', '&'], 5) {
        assert_eq!(is_not_symbol(&text), pattern.is_match(&text), "{:?}", text);
    }
}

#[test]
fn ends_are_cut_as_their_patterns_say() {
    let preview = Regex::new(r"\?preview$").unwrap();
    let slash = Regex::new(r"/$").unwrap();
    for text in ["", "a", "a?preview", "?preview", "a?preview?preview", "a?preview/", "?previe"] {
        let expected = if text.ends_with("?preview") {
            preview.replace(text, "").to_string()
        } else {
            text.to_string()
        };
        assert_eq!(remove_preview_query(text), expected);
    }
    for text in texts(&['/', 'a'], 5) {
        let expected =
            if text.ends_with('/') { slash.replace(&text, "").to_string() } else { text.clone() };
        assert_eq!(remove_last_slash(&text), expected);
    }
}

#[test]
fn page_query_is_its_pattern() {
    let pattern = Regex::new(r"\?page=([0-9]{1,3})$").unwrap();
    let mut samples = Vec::new();
    for head in ["", "a", "?page=", "?page", "page=", "??page=", "x?page=1", "?Page="] {
        for digits in texts(&['0', '1', '9', 'a'], 4) {
            samples.push(format!("{}{}", head, digits));
        }
    }
    for text in samples {
        let expected = match pattern.captures(&text) {
            Some(found) => {
                let number: usize = found.get(1).unwrap().as_str().parse().unwrap();
                if number > 0 {
                    (true, number)
                } else {
                    (false, 0)
                }
            }
            None => (false, 0),
        };
        assert_eq!(has_page_query(&text, 0, 1), expected, "{:?}", text);
    }
}

#[test]
fn file_at_the_end_of_a_path_is_its_pattern() {
    let pattern =
        Regex::new(r"/[a-zA-Z0-9\*~\+\-%\?\[\]\$_\.!‘\(\)= ]+\.[\w]{2,4}/?$").unwrap();
    for text in texts(&['.', '/', 'a', '_', ' ', '&'], 7) {
        let found = pattern.find(&text).map(|m| char_index(&text, m.start()));
        assert_eq!(file_tail(&chars(&text)), found, "{:?}", text);
    }
    for text in ["/a/b.tx\u{e9}", "/a/\u{e9}.txt", "/a/b.\u{4e2d}\u{6587}", "/a.abcde", "/a.abcd/"] {
        let found = pattern.find(text).map(|m| char_index(text, m.start()));
        assert_eq!(file_tail(&chars(text)), found, "{:?}", text);
    }
}

#[test]
fn key_value_segment_is_its_pattern() {
    let pattern = Regex::new(r"/\?\w+=\w+/").unwrap();
    for text in texts(&['/', '?', 'a', '='], 8) {
        let found = pattern
            .find(&text)
            .map(|m| (char_index(&text, m.start()), char_index(&text, m.end())));
        assert_eq!(first_query_segment(&chars(&text)), found, "{:?}", text);
    }
    for text in ["/?\u{e9}=\u{4e2d}/x", "/?a=\u{2014}/", "x/?a_1=b_2/y/?c=d/"] {
        let found = pattern
            .find(text)
            .map(|m| (char_index(text, m.start()), char_index(text, m.end())));
        assert_eq!(first_query_segment(&chars(text)), found, "{:?}", text);
    }
}
