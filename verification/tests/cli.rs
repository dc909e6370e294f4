use sitescrape::cli::{check_url, choose_browser, headless_line, BrowserChoice};
use sitescrape::crawler::CrawlEvent;

#[test]
fn browser_names_are_case_insensitive() {
    assert_eq!(choose_browser("Auto"), Ok(BrowserChoice::Detect));
    assert_eq!(choose_browser("FIREFOX"), Ok(BrowserChoice::Firefox));
    assert_eq!(choose_browser("chrome"), Ok(BrowserChoice::Chrome));
    assert_eq!(choose_browser("Safari"), Err("Invalid browser: safari".to_string()));
}

#[test]
fn only_web_urls_are_scraped() {
    assert_eq!(check_url("https://docs.example.com/guide/"), Ok(()));
    assert_eq!(check_url("http://localhost:8080"), Ok(()));
    assert_eq!(
        check_url("ftp://files.example.com/"),
        Err("Only http:// and https:// URLs are supported, got: ftp".to_string())
    );
    assert_eq!(check_url("no scheme here"), Err("relative URL without a base".to_string()));
}

#[test]
fn headless_lines() {
    let saved = CrawlEvent::Saved("https://x.com/a".to_string(), "A.md".to_string());
    assert_eq!(headless_line(&saved), Some(("[OK] https://x.com/a -> A.md".to_string(), true)));
    let err = CrawlEvent::Error("https://x.com/b".to_string(), "HTTP 500: https://x.com/b".to_string());
    assert_eq!(
        headless_line(&err),
        Some(("[ERR] https://x.com/b - HTTP 500: https://x.com/b".to_string(), true))
    );
    let auth = CrawlEvent::AuthFail("https://x.com/c".to_string(), 403);
    assert_eq!(headless_line(&auth), Some(("[403] https://x.com/c".to_string(), true)));
    let done = CrawlEvent::Done { saved: 12, failed: 3, auth_failed: 0 };
    assert_eq!(headless_line(&done), Some(("Done: 12 saved, 3 failed, 0 auth errors".to_string(), false)));
    assert_eq!(headless_line(&CrawlEvent::Visiting("https://x.com".to_string())), None);
    assert_eq!(headless_line(&CrawlEvent::Progress { visited: 20, saved: 19, queue: 4 }), None);
}
