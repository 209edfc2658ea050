use zeiver::od::{detect, filtered_links, no_parent_dir, MicrosoftIIS, ODMethod};

#[test]
fn no_parent_test() {
    const HOME_URL: &str = "https://ftp.example.jp";
    assert_eq!(no_parent_dir(HOME_URL, "Parent directory/", Some("../")), false);
    assert_eq!(no_parent_dir(HOME_URL, "Parent Directory", Some("..")), false);
    assert_eq!(no_parent_dir(HOME_URL, "Parent Directory", Some("./")), false);
    assert_eq!(no_parent_dir(HOME_URL, "parent directory", Some(".")), false);
    assert_eq!(no_parent_dir(HOME_URL, "Carrots and java", Some("../")), false);
    assert_eq!(no_parent_dir(HOME_URL, "Carrots and java", Some("./")), false);
    assert_eq!(no_parent_dir(HOME_URL, "Carrots and java", Some("..")), false);
    assert_eq!(no_parent_dir(HOME_URL, "Carrots and java", Some(".")), false);
    assert_eq!(
        no_parent_dir(
            HOME_URL,
            "Carrots and java",
            Some("https://www.example.com/path/index.php?dir=")
        ),
        false
    );
    assert_eq!(no_parent_dir(HOME_URL, "Drink Soda", Some("https://ftp.example.jp")), false);

    assert_eq!(no_parent_dir(HOME_URL, "Carrots and java", Some("./Carrots%20and%20java")), true);
    assert_eq!(no_parent_dir(HOME_URL, "Drink Soda", Some("Drink%20Soda")), true);
    assert_eq!(
        no_parent_dir(
            HOME_URL,
            "Carrots and java",
            Some("https://www.example.com/path/index.php?dir=Outboards%2F5-27")
        ),
        true
    );
    assert_eq!(no_parent_dir(HOME_URL, "Drink Soda", Some("https://example.me")), true);
}

#[test]
fn apache_listing_links() {
    let body = "<html><body><h1>Index of /</h1><pre><a href=\"?C=N;O=D\">Name</a> \
                <a href=\"../\">Parent Directory</a> <a href=\"a.txt\">a.txt</a> \
                <a href=\"b.zip\">b.zip</a> <a href=\"sub/\">sub/</a></pre></body></html>";
    assert_eq!(detect(body, "Apache/2.4.41 (Ubuntu)"), ODMethod::Apache);
    assert_eq!(detect(body, ""), ODMethod::Apache);
    let links = filtered_links(body, "http://x/", &ODMethod::Apache);
    assert_eq!(links, vec!["a.txt".to_string(), "b.zip".to_string(), "sub/".to_string()]);
}

#[test]
fn iis_parent_directory_is_left_out() {
    let body = "<html><body><pre><a href=\"/pub/\">[To Parent Directory]</a><br><br> \
                1/1/2020 &lt;dir&gt; <a href=\"/pub/files/docs/\">docs</a><br> \
                <a href=\"/pub/files/a.iso\">a.iso</a></pre></body></html>";
    assert!(MicrosoftIIS::is_od(body, ""));
    assert!(MicrosoftIIS::is_od("<html></html>", "Microsoft-IIS/10.0"));
    assert!(!MicrosoftIIS::is_od("<html></html>", "nginx"));
    assert_eq!(detect(body, ""), ODMethod::MicrosoftIIS);
    let links = MicrosoftIIS::search(body, "http://x/pub/files/");
    assert_eq!(links, vec!["/pub/files/docs/".to_string(), "/pub/files/a.iso".to_string()]);
}
