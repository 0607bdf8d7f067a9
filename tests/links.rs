use rget::{find_https_links_with_parser, links_from_attrs};

#[test]
fn absolute_links_in_document_order() {
    let html = r#"<a href="https://a/1">x</a><img src="/local.png"><a href="http://a/2">y</a>"#;
    assert_eq!(
        find_https_links_with_parser(html),
        vec!["https://a/1".to_string(), "http://a/2".to_string()]
    );
}

#[test]
fn image_sources_and_duplicates_are_kept() {
    let html = r#"<html><body><img src="http://i/1.png"><a href="https://x/">a</a><a href="https://x/">b</a><img src="https://i/2.png"></body></html>"#;
    assert_eq!(
        find_https_links_with_parser(html),
        vec![
            "http://i/1.png".to_string(),
            "https://x/".to_string(),
            "https://x/".to_string(),
            "https://i/2.png".to_string()
        ]
    );
}

#[test]
fn other_schemes_and_relative_links_are_dropped() {
    let html = r#"<a href="mailto:me@x">m</a><a href="ftp://f/">f</a><a href="page.html">p</a><a href="//cdn/x">c</a><link href="https://style/">"#;
    assert!(find_https_links_with_parser(html).is_empty());
}

#[test]
fn page_without_links() {
    assert!(find_https_links_with_parser("<p>nothing here</p>").is_empty());
    assert!(find_https_links_with_parser("").is_empty());
}

#[test]
fn anchors_give_href_and_images_give_src() {
    let s = |t: &str| Some(t.to_string());
    let row = |n: &str, h: Option<String>, src: Option<String>| (n.to_string(), vec![h, src]);
    let rows = vec![
        row("a", s("https://h/"), s("https://ignored/")),
        row("img", s("https://ignored-too/"), s("http://s2/")),
        row("a", s("relative"), s("https://not-an-image/")),
        row("img", None, s("data:image/png")),
        row("link", s("https://style/"), None),
        ("a".to_string(), vec![]),
        ("a".to_string(), vec![s("http://only-href/")]),
    ];
    assert_eq!(
        links_from_attrs(&rows),
        vec!["https://h/".to_string(), "http://s2/".to_string(), "http://only-href/".to_string()]
    );
}

#[test]
fn image_with_href_gives_its_src() {
    let html = r#"<img href="https://h/" src="https://s/"><img href="https://only-href/">"#;
    assert_eq!(find_https_links_with_parser(html), vec!["https://s/".to_string()]);
}
