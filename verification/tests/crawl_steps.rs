use sitescrape::crawler::{CrawlConfig, CrawlEvent, Crawler, NextStep, PageAction};
use sitescrape::engine::PageResult;

fn config(base: &str, max_pages: usize, prefix: Option<&str>) -> CrawlConfig {
    CrawlConfig {
        max_pages,
        prefix: prefix.map(|p| p.to_string()),
        delay_ms: 0,
        selector: None,
        output_dir: "./output".to_string(),
        base_url: base.to_string(),
    }
}

fn next(c: &mut Crawler, stop: bool) -> Option<String> {
    match c.next_url(stop, false) {
        NextStep::Fetch(u) => Some(u),
        NextStep::Finished => None,
        NextStep::Wait => panic!("the crawl is not paused"),
    }
}

fn page(url: &str, html: &str, title: &str, links: &[&str]) -> PageResult {
    PageResult {
        url: url.to_string(),
        html: html.to_string(),
        title: title.to_string(),
        links: links.iter().map(|l| l.to_string()).collect(),
    }
}

#[test]
fn crawl_needs_a_valid_base() {
    assert!(Crawler::new(config("not a url", 10, None)).is_err());
    assert!(Crawler::new(config("https://x.com/", 10, None)).is_ok());
}

#[test]
fn a_small_crawl() {
    let mut c = Crawler::new(config("https://x.com/docs/", 10, Some("/docs"))).unwrap();
    let first = next(&mut c, false).unwrap();
    assert_eq!(first, "https://x.com/docs/");
    let p = page(
        &first,
        "<html><head><title>Docs Home</title></head><body><div><main><p>Welcome</p></main></div></body></html>",
        "",
        &[
            "https://x.com/docs/a",
            "https://other.com/docs/b",
            "https://x.com/docs/style.css",
            "https://x.com/docs/a#top",
            "https://x.com/blog/",
            "mailto:me@x.com",
        ],
    );
    match c.page_fetched(&first, &p) {
        PageAction::Write { filepath, content } => {
            assert_eq!(filepath, "Index.md");
            assert!(content.starts_with("---\ntitle: \"Docs Home\"\nurl: \"https://x.com/docs/\"\n---\n\n"));
            assert!(content.contains("Welcome"));
            match c.page_written(&first, filepath, Ok(())) {
                CrawlEvent::Saved(u, f) => {
                    assert_eq!(u, first);
                    assert_eq!(f, "Index.md");
                },
                other => panic!("unexpected {:?}", other),
            }
        },
        other => panic!("unexpected {:?}", other),
    }
    assert!(c.progress().is_none());
    assert_eq!(c.saved(), 1);
    let second = next(&mut c, false).unwrap();
    assert_eq!(second, "https://x.com/docs/a");
    match c.fetch_failed(&second, "AUTH:403".to_string()) {
        CrawlEvent::AuthFail(u, code) => {
            assert_eq!(u, second);
            assert_eq!(code, 403);
        },
        other => panic!("unexpected {:?}", other),
    }
    assert_eq!(next(&mut c, false), None);
    match c.done() {
        CrawlEvent::Done { saved, failed, auth_failed } => assert_eq!((saved, failed, auth_failed), (1, 0, 1)),
        other => panic!("unexpected {:?}", other),
    }
}

#[test]
fn fetch_failures() {
    let mut c = Crawler::new(config("https://x.com/", 10, None)).unwrap();
    let u = next(&mut c, false).unwrap();
    match c.fetch_failed(&u, "AUTH:soon".to_string()) {
        CrawlEvent::AuthFail(_, code) => assert_eq!(code, 401),
        other => panic!("unexpected {:?}", other),
    }
    let mut d = Crawler::new(config("https://x.com/", 10, None)).unwrap();
    let u = next(&mut d, false).unwrap();
    match d.fetch_failed(&u, "connection refused".to_string()) {
        CrawlEvent::Error(url, m) => {
            assert_eq!(url, "https://x.com/");
            assert_eq!(m, "connection refused");
        },
        other => panic!("unexpected {:?}", other),
    }
    match d.done() {
        CrawlEvent::Done { saved, failed, auth_failed } => assert_eq!((saved, failed, auth_failed), (0, 1, 0)),
        other => panic!("unexpected {:?}", other),
    }
}

#[test]
fn stop_and_page_limit_end_the_crawl() {
    let mut c = Crawler::new(config("https://x.com/", 10, None)).unwrap();
    assert_eq!(next(&mut c, true), None);
    let mut d = Crawler::new(config("https://x.com/", 0, None)).unwrap();
    assert_eq!(next(&mut d, false), None);
}

#[test]
fn write_errors_count_as_failures() {
    let mut c = Crawler::new(config("https://x.com/", 10, None)).unwrap();
    let u = next(&mut c, false).unwrap();
    let p = page(&u, "<p>x</p>", "Browser Title", &[]);
    match c.page_fetched(&u, &p) {
        PageAction::Write { filepath, content } => {
            assert!(content.starts_with("---\ntitle: \"Browser Title\"\n"));
            match c.page_written(&u, filepath, Err("disk full".to_string())) {
                CrawlEvent::Error(url, m) => {
                    assert_eq!(url, u);
                    assert_eq!(m, "disk full");
                },
                other => panic!("unexpected {:?}", other),
            }
        },
        other => panic!("unexpected {:?}", other),
    }
    match c.done() {
        CrawlEvent::Done { saved, failed, .. } => assert_eq!((saved, failed), (0, 1)),
        other => panic!("unexpected {:?}", other),
    }
}

#[test]
fn pages_that_would_leave_the_output_directory_fail() {
    let mut c = Crawler::new(config("https://x.com/", 10, None)).unwrap();
    let u = next(&mut c, false).unwrap();
    let odd = "https://x.com/...html/x";
    match c.page_fetched(odd, &page(odd, "<p>x</p>", "", &[])) {
        PageAction::Failed(CrawlEvent::Error(url, m)) => {
            assert_eq!(url, odd);
            assert_eq!(m, "Path traversal detected: ../X.md");
        },
        other => panic!("unexpected {:?}", other),
    }
    assert_eq!(u, "https://x.com/");
}

#[test]
fn progress_every_twenty_pages_and_the_limit_holds() {
    let links: Vec<String> = (0..25).map(|i| format!("https://x.com/p{}", i)).collect();
    let refs: Vec<&str> = links.iter().map(|s| s.as_str()).collect();
    let mut c = Crawler::new(config("https://x.com/", 22, None)).unwrap();
    let mut reports = Vec::new();
    let mut first = true;
    while let Some(u) = next(&mut c, false) {
        let ls: &[&str] = if first { &refs } else { &[] };
        first = false;
        match c.page_fetched(&u, &page(&u, "<p>x</p>", "", ls)) {
            PageAction::Write { filepath, .. } => {
                c.page_written(&u, filepath, Ok(()));
            },
            other => panic!("unexpected {:?}", other),
        }
        if let Some(CrawlEvent::Progress { visited, saved, queue }) = c.progress() {
            reports.push((visited, saved, queue));
        }
    }
    assert_eq!(reports, vec![(20, 20, 6)]);
    assert_eq!(c.saved(), 22);
}

#[test]
fn assets_and_foreign_pages_are_not_fetched() {
    let mut c = Crawler::new(config("https://x.com/", 10, None)).unwrap();
    let u = next(&mut c, false).unwrap();
    let p = page(&u, "", "", &["https://x.com/logo.PNG", "https://x.com/app.js", "https://x.com/guide", "https://y.com/z"]);
    if let PageAction::Write { filepath, .. } = c.page_fetched(&u, &p) {
        c.page_written(&u, filepath, Ok(()));
    }
    assert_eq!(next(&mut c, false), Some("https://x.com/guide".to_string()));
}

#[test]
fn a_paused_crawl_waits_and_keeps_its_queue() {
    let mut c = Crawler::new(config("https://x.com/", 10, None)).unwrap();
    assert!(matches!(c.next_url(false, true), NextStep::Wait));
    assert!(matches!(c.next_url(false, true), NextStep::Wait));
    assert!(!c.in_flight());
    assert_eq!(next(&mut c, false), Some("https://x.com/".to_string()));
    let mut d = Crawler::new(config("https://x.com/", 10, None)).unwrap();
    assert!(matches!(d.next_url(true, true), NextStep::Finished));
}
