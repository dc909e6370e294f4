use sitescrape::converter::{extract_content, extract_title, html_to_markdown};
use sitescrape::engine::{check_render_again, check_status, checked_links, checked_title, title_fits, extract_links, reported_links, wrap_inner_html};

fn content(html: &str, selector: &str) -> Option<String> {
    let chars: Vec<char> = html.chars().collect();
    extract_content(&chars, selector).map(|v| v.into_iter().collect())
}

#[test]
fn converter_titles() {
    assert_eq!(extract_title("<html><head><title> My Page </title></head></html>"), "My Page");
    assert_eq!(extract_title("<title lang=\"en\">Guide</title>"), "Guide");
    assert_eq!(extract_title("<body><h1 class=\"t\">Heading</h1></body>"), "Heading");
    assert_eq!(extract_title("<title>  </title><h1>Fallback</h1>"), "Fallback");
    assert_eq!(extract_title("<TITLE>Upper</TITLE>"), "");
    assert_eq!(extract_title("<p>none</p>"), "");
}

#[test]
fn content_by_selector() {
    let page = "<html><body><div class=\"content\"><p>Inside</p></div><p>Outside</p></body></html>";
    assert_eq!(content(page, ".content"), Some("<p>Inside</p>".to_string()));
    let body = "<div class=\"content\"><p>Inside</p></div><p>Outside</p>";
    assert_eq!(content(page, "body"), Some(body.to_string()));
    assert_eq!(content(page, "<body"), Some(body.to_string()));
    assert_eq!(content("<div role=\"main\">M</div>", "[role=\"main\"]"), Some("M".to_string()));
    assert_eq!(content("<div><MAIN id=x>Big</MAIN></div>", "main"), Some("Big".to_string()));
    assert_eq!(content("<MAIN id=x>Big</MAIN>", "main"), Some("Big".to_string()));
    assert_eq!(content(page, "article"), None);
    assert_eq!(content("<div><main>never closed", "main"), None);
}

#[test]
fn content_of_the_first_matching_element_itself() {
    assert_eq!(content("<div><main><p>Hi</p></main></div>", "<main"), Some("<p>Hi</p>".to_string()));
    assert_eq!(
        content("<section role=\"main\"><p>Y</p></section>", "[role=\"main\"]"),
        Some("<p>Y</p>".to_string())
    );
}

#[test]
fn class_selectors_match_whole_words() {
    let page = "<div class=\"content-nav\">N</div><div class=\"content\">C</div>";
    assert_eq!(content(page, ".content"), Some("C".to_string()));
    assert_eq!(content("<div class=\"content main\">W</div>", ".content"), Some("W".to_string()));
    assert_eq!(content("<div class=\"contents\">S</div>", ".content"), None);
}

#[test]
fn case_folding_keeps_positions() {
    let page = "<p>İstanbul</p><DIV class=\"content\">X</DIV>";
    assert_eq!(content(page, ".content"), Some("X".to_string()));
    assert_eq!(
        extract_links("<p>İ</p><A HREF=\"/x\">x</A>", "https://k.com/"),
        vec!["https://k.com/x"]
    );
}

#[test]
fn markdown_from_the_default_selectors() {
    let page = "<html><body><div><main><p>Main text</p></main></div><footer>Foot</footer></body></html>";
    let p = html_to_markdown(page, None).unwrap();
    assert!(p.markdown.contains("Main text"));
    assert!(!p.markdown.contains("Foot"));
    assert_eq!(p.title, "");
}

#[test]
fn markdown_skips_scripts() {
    let page = "<html><head><title>T</title></head><body><nav>Menu</nav><main><h1>Hello</h1><p>World</p>\
                <script>var hidden = 1;</script></main></body></html>";
    let p = html_to_markdown(page, None).unwrap();
    assert_eq!(p.title, "T");
    assert!(p.markdown.contains("# Hello"));
    assert!(p.markdown.contains("World"));
    assert!(!p.markdown.contains("hidden"));
}

#[test]
fn markdown_with_a_selector() {
    let page = "<html><body><div class=\"content\"><p>Inside</p></div><p>Outside</p></body></html>";
    let p = html_to_markdown(page, Some(".content")).unwrap();
    assert!(p.markdown.contains("Inside"));
    assert!(!p.markdown.contains("Outside"));
    assert_eq!(p.title, "");
    let whole = html_to_markdown(page, Some("#missing")).unwrap();
    assert!(whole.markdown.contains("Inside"));
    assert!(whole.markdown.contains("Outside"));
}

#[test]
fn fetcher_title_ignores_case() {
    assert_eq!(sitescrape::engine::extract_title("<TITLE> Up </TITLE>"), "Up");
    assert_eq!(sitescrape::engine::extract_title("<h1>No title</h1>"), "");
}

#[test]
fn links_resolve_against_the_page() {
    let html = "<a href=\"/a\">x</a> <A HREF=\"c\">z</A> <a href='b#frag'>y</a>";
    assert_eq!(
        extract_links(html, "https://x.com/dir/page"),
        vec!["https://x.com/a", "https://x.com/dir/c", "https://x.com/dir/b#frag"]
    );
    assert!(extract_links(html, "not a base").is_empty());
    assert!(extract_links("<a href=\"unterminated", "https://x.com/").is_empty());
}

#[test]
fn status_verdicts() {
    assert_eq!(check_status(200, "https://x.com"), Ok(()));
    assert_eq!(check_status(204, "https://x.com"), Ok(()));
    assert_eq!(check_status(401, "https://x.com"), Err("AUTH:401".to_string()));
    assert_eq!(check_status(403, "https://x.com"), Err("AUTH:403".to_string()));
    assert_eq!(check_status(404, "https://x.com/a"), Err("HTTP 404: https://x.com/a".to_string()));
    assert_eq!(check_status(301, "u"), Err("HTTP 301: u".to_string()));
}

#[test]
fn inner_html_wrapping() {
    assert_eq!(wrap_inner_html(Some("<p>x</p>".to_string())), Some("<html><body><p>x</p></body></html>".to_string()));
    assert_eq!(wrap_inner_html(Some(" \n\t ".to_string())), None);
    assert_eq!(wrap_inner_html(None), None);
}

#[test]
fn links_reported_by_the_browser() {
    assert_eq!(
        reported_links(Some("[\"https://a.com/\",\"https://b.com/x\"]".to_string())),
        vec!["https://a.com/", "https://b.com/x"]
    );
    assert!(reported_links(Some("{\"a\":1}".to_string())).is_empty());
    assert!(reported_links(Some("[1,2]".to_string())).is_empty());
    assert!(reported_links(None).is_empty());
}

#[test]
fn render_checks_stop_when_ready_or_after_thirty() {
    assert!(check_render_again(1, false));
    assert!(!check_render_again(1, true));
    assert!(check_render_again(29, false));
    assert!(!check_render_again(30, false));
}

#[test]
fn fetcher_title_is_cut_at_the_lowercase_form_byte_positions() {
    assert_eq!(sitescrape::engine::extract_title("<TITLE>İ</TITLE>"), "İ<");
    assert_eq!(checked_title("<TITLE>İ</TITLE>"), Some("İ<".to_string()));
    assert!(!title_fits("İ<title>é</title>"));
    assert_eq!(checked_title("İ<title>é</title>"), None);
    assert_eq!(checked_title("<TITLE>İzmir \u{212A}</TITLE>"), None);
    assert_eq!(checked_title("<html><title>Docs</title>"), Some("Docs".to_string()));
    assert_eq!(checked_title("no title here"), Some(String::new()));
}

#[test]
fn links_are_cut_at_the_lowercase_form_byte_positions() {
    assert_eq!(
        extract_links("\u{130}<a href=\"/docs/x\">", "https://k.com/a/b"),
        vec!["https://k.com/a/docs/x"]
    );
    assert_eq!(
        checked_links("\u{212A}<a href=\"/x\">", "https://k.com/"),
        Some(vec!["https://k.com/=".to_string()])
    );
    assert_eq!(checked_links("\u{130}<a href=\"\u{e9}\">", "https://k.com/"), None);
    assert_eq!(checked_links("\u{130}\u{130}href=\"", "https://k.com/"), None);
    assert_eq!(checked_links("\u{130}<a href=\"\u{e9}\">", "not a base"), Some(vec![]));
    assert_eq!(
        checked_links("<a href=\"/a\">x</a>", "https://x.com/"),
        Some(vec!["https://x.com/a".to_string()])
    );
}
