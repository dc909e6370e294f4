use sitescrape::output::{hash8, is_path_traversal, page_content, segment_to_name, url_to_filepath};

#[test]
fn segment_names() {
    assert_eq!(segment_to_name("getting-started"), "Getting-Started");
    assert_eq!(segment_to_name(""), "Index");
    assert_eq!(segment_to_name("index.html"), "Index");
    assert_eq!(segment_to_name(".html"), "Index");
    assert_eq!(segment_to_name("FooBar"), "FooBar");
    assert_eq!(segment_to_name("my-Page"), "My-Page");
    assert_eq!(segment_to_name("api-v2.php"), "Api-V2");
    assert_eq!(segment_to_name("page.html.html"), "Page");
    assert_eq!(segment_to_name("a--b"), "A--B");
    assert_eq!(segment_to_name("ärger-über"), "Ärger-Über");
    assert_eq!(segment_to_name("ßtraße"), "SStraße");
}

#[test]
fn readme_path_example() {
    assert_eq!(
        url_to_filepath("https://docs.internal.example.com/guide/getting-started", "https://docs.internal.example.com/"),
        "Guide/Getting-Started.md"
    );
}

#[test]
fn paths_below_the_base() {
    let base = "https://docs.example.com/guide/";
    assert_eq!(url_to_filepath("https://docs.example.com/guide/getting-started", base), "Getting-Started.md");
    assert_eq!(url_to_filepath("https://docs.example.com/guide/", base), "Index.md");
    assert_eq!(url_to_filepath("https://docs.example.com/guide/a/b-c/d.html", base), "A/B-C/D.md");
    assert_eq!(url_to_filepath("https://docs.example.com/other/x", base), "Other/X.md");
    assert_eq!(url_to_filepath("https://docs.example.com/a/../b/./c", "https://docs.example.com/"), "B/C.md");
    assert_eq!(url_to_filepath("not a url", base), "Index.md");
    assert_eq!(url_to_filepath("https://docs.example.com/x", "::"), "Index.md");
}

#[test]
fn query_gets_a_hash_tag() {
    let p = url_to_filepath("https://x.com/search?q=rust", "https://x.com/");
    assert_eq!(p, format!("Search_{}.md", hash8("q=rust")));
    assert_eq!(p.len(), "Search_".len() + 8 + 3);
}

#[test]
fn hash_tags_are_eight_hex_digits() {
    for s in ["", "a", "q=rust", "page=2&sort=desc"] {
        let h = hash8(s);
        assert_eq!(h.len(), 8);
        assert!(h.chars().all(|c| c.is_ascii_hexdigit() && !c.is_ascii_uppercase()));
        assert_eq!(h, hash8(s));
    }
    assert_ne!(hash8("a"), hash8("b"));
}

#[test]
fn a_dotted_segment_can_name_the_parent_directory() {
    let p = url_to_filepath("https://x.com/...html/x", "https://x.com/");
    assert_eq!(p, "../X.md");
    assert!(is_path_traversal("./output", &p));
}

#[test]
fn traversal_checks() {
    assert!(is_path_traversal("./output", "../x.md"));
    assert!(is_path_traversal("./output", "a/../../x.md"));
    assert!(!is_path_traversal("./output", "a/b.md"));
    assert!(!is_path_traversal("./output", "a..b/c.md"));
    assert!(is_path_traversal("../output", "a.md"));
    assert!(!is_path_traversal("../output", "/abs/a.md"));
}

#[test]
fn page_file_layout() {
    assert_eq!(
        page_content("Say \"hi\"", "https://x.com/a", "# Hi\n\ntext"),
        "---\ntitle: \"Say \\\"hi\\\"\"\nurl: \"https://x.com/a\"\n---\n\n# Hi\n\ntext"
    );
    assert_eq!(page_content("", "u", ""), "---\ntitle: \"\"\nurl: \"u\"\n---\n\n");
}
