use zeiver::file::{same_file, File};

#[test]
fn file_from_a_plain_link() {
    let file = File::new("http://example.com/pub/docs/report.pdf");
    assert_eq!(file.link, "http://example.com/pub/docs/report.pdf");
    assert_eq!(file.name, "report.pdf");
    assert_eq!(file.short_name, Some("report".to_string()));
    assert_eq!(file.ext, Some("pdf".to_string()));
    assert_eq!(file.dir_path, "/pub/docs/");
}

#[test]
fn file_name_with_two_dots_has_no_parts() {
    let file = File::new("http://example.com/pub/archive.tar.gz");
    assert_eq!(file.name, "archive.tar.gz");
    assert_eq!(file.short_name, None);
    assert_eq!(file.ext, None);
    assert_eq!(file.dir_path, "/pub/");
}

#[test]
fn file_of_a_directory_link() {
    let file = File::new("http://example.com/pub/docs/");
    assert_eq!(file.name, "docs");
    assert_eq!(file.short_name, None);
    assert_eq!(file.ext, None);
    assert_eq!(file.dir_path, "/pub/docs/");
}

#[test]
fn file_without_a_name_is_untitled() {
    let file = File::new("http://example.com/");
    assert_eq!(file.name, "untitled");
    assert_eq!(file.dir_path, "/");
    let file = File::new("http://example.com/?a=b");
    assert_eq!(file.name, "untitled");
}

#[test]
fn file_name_from_a_query_that_is_a_path() {
    let file = File::new("http://example.com/?/music/song.mp3");
    assert_eq!(file.name, "song.mp3");
    assert_eq!(file.ext, Some("mp3".to_string()));
    assert_eq!(file.dir_path, "/music/");
}

#[test]
fn file_name_behind_a_key_value_segment() {
    let file = File::new("http://example.com/?dir=pub/music/song.mp3");
    assert_eq!(file.name, "song.mp3");
    let file = File::new("http://example.com/pub/?sort=name/");
    assert_eq!(file.name, "untitled");
}

#[test]
fn file_name_is_cut_to_its_last_160_characters() {
    let segment: String = (0..400).map(|i| char::from(b'a' + (i % 26) as u8)).collect();
    let link = format!("http://example.com/pub/{}", segment);
    let file = File::new(&link);
    assert_eq!(file.name.len(), 160);
    assert_eq!(file.name, &segment[240..]);
}

#[test]
fn cut_name_keeps_short_names() {
    assert_eq!(File::cut_name("a.txt"), "a.txt");
    let exact: String = "x".repeat(160);
    assert_eq!(File::cut_name(&exact), exact);
    let longer: String = format!("y{}", exact);
    assert_eq!(File::cut_name(&longer), exact);
}

#[test]
fn part_of_name_needs_exactly_one_dot() {
    assert_eq!(File::part_of_name("a.txt", true), Some("txt".to_string()));
    assert_eq!(File::part_of_name("a.txt", false), Some("a".to_string()));
    assert_eq!(File::part_of_name("a", true), None);
    assert_eq!(File::part_of_name("a.b.c", false), None);
    assert_eq!(File::part_of_name(".hidden", false), Some("".to_string()));
    assert_eq!(File::part_of_name("trailing.", true), Some("".to_string()));
}

#[test]
fn files_are_equal_by_link_alone() {
    let a = File::new("http://example.com/pub/a.txt");
    let mut b = File::new("http://example.com/pub/a.txt");
    b.name = "other".to_string();
    b.dir_path = "/elsewhere/".to_string();
    let c = File::new("http://example.com/pub/A.txt");
    assert!(a == b);
    assert!(same_file(&a, &b));
    assert!(a != c);
    assert!(!same_file(&a, &c));
}

#[test]
fn try_new_says_when_the_link_is_no_url() {
    assert!(File::try_new("no url").is_none());
    assert_eq!(File::try_new("http://example.com/a.txt").unwrap().name, "a.txt");
}

#[test]
fn from_paths_names_and_places_the_file() {
    let file = File::from_paths("L", &Some("/x/y/z.bin".to_string()), "/x/y/z.bin");
    assert_eq!(file.link, "L");
    assert_eq!(file.name, "z.bin");
    assert_eq!(file.dir_path, "/x/y/");
    let file = File::from_paths("L", &None, "/x/y/");
    assert_eq!(file.name, "untitled");
    assert_eq!(file.dir_path, "/x/y/");
}
