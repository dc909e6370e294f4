//! Decisions of the command-line program: which browser's cookies to read, which URLs are
//! accepted, and what the plain-text progress output says.
use vstd::prelude::*;
use crate::crawler::CrawlEvent;
use crate::text::{append_chars, append_str, chars_eq, chars_of, decimal, decimal_chars, lower_chars, lower_text, string_from};
use crate::weburl::{parse_url, url_parse_error, url_parses, url_scheme};

verus! {

/// Where the cookies come from.
#[derive(Debug, Clone, Copy, PartialEq, Eq, Structural)]
pub enum BrowserChoice {
    /// The system's default browser.
    Detect,
    Firefox,
    Chrome,
}

/// The browser asked for by name, case-insensitively (`auto` means the default one).
pub open spec fn browser_choice_of(name: Seq<char>) -> Option<BrowserChoice> {
    let l = lower_text(name);
    if l == "auto"@ {
        Some(BrowserChoice::Detect)
    } else if l == "firefox"@ {
        Some(BrowserChoice::Firefox)
    } else if l == "chrome"@ {
        Some(BrowserChoice::Chrome)
    } else {
        None
    }
}

/// The cookie source named by `--browser`; an unknown name is refused.
pub fn choose_browser(name: &str) -> (r: Result<BrowserChoice, String>)
    ensures
        match r {
            Ok(b) => browser_choice_of(name@) == Some(b),
            Err(e) => browser_choice_of(name@) is None && e@ == "Invalid browser: "@ + lower_text(name@),
        },
{
    let l = lower_chars(chars_of(name).as_slice());
    if chars_eq(l.as_slice(), chars_of("auto").as_slice()) {
        Ok(BrowserChoice::Detect)
    } else if chars_eq(l.as_slice(), chars_of("firefox").as_slice()) {
        Ok(BrowserChoice::Firefox)
    } else if chars_eq(l.as_slice(), chars_of("chrome").as_slice()) {
        Ok(BrowserChoice::Chrome)
    } else {
        let mut m = chars_of("Invalid browser: ");
        append_chars(&mut m, l.as_slice());
        Err(string_from(m.as_slice()))
    }
}

/// Only `http` and `https` URLs are scraped.
pub open spec fn url_accepted(u: Seq<char>) -> Result<(), Seq<char>> {
    if !url_parses(u) {
        Err(url_parse_error(u))
    } else if url_scheme(u) != "http"@ && url_scheme(u) != "https"@ {
        Err("Only http:// and https:// URLs are supported, got: "@ + url_scheme(u))
    } else {
        Ok(())
    }
}

/// Accepts a URL to scrape: it must parse and use `http` or `https`.
pub fn check_url(url: &str) -> (r: Result<(), String>)
    ensures
        match r {
            Ok(()) => url_accepted(url@) is Ok,
            Err(e) => url_accepted(url@) == Err::<(), Seq<char>>(e@),
        },
{
    let p = match parse_url(url) {
        Ok(p) => p,
        Err(e) => return Err(e),
    };
    let s = chars_of(p.scheme.as_str());
    if !chars_eq(s.as_slice(), chars_of("http").as_slice()) && !chars_eq(s.as_slice(), chars_of("https").as_slice()) {
        let mut m = chars_of("Only http:// and https:// URLs are supported, got: ");
        append_chars(&mut m, s.as_slice());
        return Err(string_from(m.as_slice()));
    }
    Ok(())
}

/// The line the plain-text mode prints for an event, and whether the progress bar advances.
pub open spec fn headless_text(ev: CrawlEvent) -> Option<(Seq<char>, bool)> {
    match ev {
        CrawlEvent::Saved(u, p) => Some(("[OK] "@ + u@ + " -> "@ + p@, true)),
        CrawlEvent::Error(u, e) => Some(("[ERR] "@ + u@ + " - "@ + e@, true)),
        CrawlEvent::AuthFail(u, c) => Some(("["@ + decimal(c as nat) + "] "@ + u@, true)),
        CrawlEvent::Done { saved, failed, auth_failed } => Some(
            (
                "Done: "@ + decimal(saved as nat) + " saved, "@ + decimal(failed as nat) + " failed, "@
                    + decimal(auth_failed as nat) + " auth errors"@,
                false,
            ),
        ),
        _ => None,
    }
}

/// The line the plain-text mode prints for a crawl event, if any.
pub fn headless_line(ev: &CrawlEvent) -> (r: Option<(String, bool)>)
    ensures
        match r {
            Some((s, adv)) => headless_text(*ev) == Some((s@, adv)),
            None => headless_text(*ev) is None,
        },
{
    match ev {
        CrawlEvent::Saved(u, p) => {
            let mut m = chars_of("[OK] ");
            append_str(&mut m, u.as_str());
            append_str(&mut m, " -> ");
            append_str(&mut m, p.as_str());
            Some((string_from(m.as_slice()), true))
        },
        CrawlEvent::Error(u, e) => {
            let mut m = chars_of("[ERR] ");
            append_str(&mut m, u.as_str());
            append_str(&mut m, " - ");
            append_str(&mut m, e.as_str());
            Some((string_from(m.as_slice()), true))
        },
        CrawlEvent::AuthFail(u, c) => {
            let mut m = chars_of("[");
            append_chars(&mut m, decimal_chars(*c as u64).as_slice());
            append_str(&mut m, "] ");
            append_str(&mut m, u.as_str());
            Some((string_from(m.as_slice()), true))
        },
        CrawlEvent::Done { saved, failed, auth_failed } => {
            let mut m = chars_of("Done: ");
            append_chars(&mut m, decimal_chars(*saved as u64).as_slice());
            append_str(&mut m, " saved, ");
            append_chars(&mut m, decimal_chars(*failed as u64).as_slice());
            append_str(&mut m, " failed, ");
            append_chars(&mut m, decimal_chars(*auth_failed as u64).as_slice());
            append_str(&mut m, " auth errors");
            Some((string_from(m.as_slice()), false))
        },
        _ => None,
    }
}

} // verus!
