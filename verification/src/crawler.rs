//! Breadth-first crawling of one site, as a state machine: the driver fetches pages,
//! writes files and sleeps; every decision about what to fetch, what to queue and what to
//! report is taken here.
use vstd::prelude::*;
use crate::converter::{html_to_markdown, htmd_markdown, page_content_html, page_title, skipped_tags};
use crate::engine::PageResult;
use crate::output::{escapes_output, filepath_for, is_path_traversal, page_content, page_file, url_to_filepath};
use crate::text::{
    append_str, chars_of, has_prefix, lower_chars, opt_view, parse_u16, parse_unsigned,
    rfind_before, rfind_char, slice_chars, starts_with, lower_text, string_from,
};
use crate::weburl::{parse_url, url_origin, url_parse_error, url_parses, url_path, url_without_fragment};

verus! {

/// What the crawler reports as it goes.
#[derive(Debug)]
pub enum CrawlEvent {
    Visiting(String),
    Saved(String, String),
    AuthFail(String, u16),
    Error(String, String),
    Progress { visited: usize, saved: usize, queue: usize },
    Done { saved: usize, failed: usize, auth_failed: usize },
}

/// The settings of one crawl.
#[derive(Debug)]
pub struct CrawlConfig {
    pub max_pages: usize,
    pub prefix: Option<String>,
    pub delay_ms: u64,
    pub selector: Option<String>,
    pub output_dir: String,
    pub base_url: String,
}

/// The file extensions of pages that are never fetched.
pub open spec fn asset_exts() -> Seq<Seq<char>> {
    seq![
        "png"@, "jpg"@, "jpeg"@, "gif"@, "svg"@, "css"@, "js"@, "woff"@, "pdf"@, "zip"@, "ico"@,
        "woff2"@, "ttf"@, "eot"@,
    ]
}

/// The text after the last `.` of a path, or the whole path (`path.rsplit('.').next()`).
pub open spec fn last_dot_piece(p: Seq<char>) -> Seq<char> {
    match rfind_before(p, '.', p.len() as int) {
        Some(i) => p.skip(i + 1),
        None => p,
    }
}

/// A path that names an image, style sheet, script, font or archive.
pub open spec fn is_asset_path(p: Seq<char>) -> bool {
    asset_exts().contains(lower_text(last_dot_piece(p)))
}

/// A URL the crawl may fetch: it parses, has the crawl's origin, is no asset, and its path
/// starts with the prefix when there is one.
pub open spec fn fetchable(u: Seq<char>, origin: Seq<char>, prefix: Option<Seq<char>>) -> bool {
    &&& url_parses(u)
    &&& url_origin(u) == origin
    &&& !is_asset_path(url_path(u))
    &&& (prefix matches Some(p) ==> starts_with(url_path(u), p))
}

/// The state of a crawl, as values.
pub struct CrawlView {
    pub origin: Seq<char>,
    pub prefix: Option<Seq<char>>,
    pub max_pages: nat,
    pub visited: Seq<Seq<char>>,
    pub queue: Seq<Seq<char>>,
    pub saved: nat,
    pub failed: nat,
    pub auth_failed: nat,
    /// A page has been handed out by `next_url` and its outcome is not recorded yet.
    pub in_flight: bool,
}

/// Takes URLs from the front of the queue until one is to be fetched: a stop request or a
/// reached page limit ends the crawl (the URL taken is dropped); a URL seen before is
/// skipped; any other is marked visited and fetched if `fetchable`, else skipped.
pub open spec fn advance(v: CrawlView, stop: bool) -> (CrawlView, Option<Seq<char>>)
    decreases v.queue.len(),
{
    if v.queue.len() == 0 {
        (v, None)
    } else {
        let u = v.queue[0];
        let v1 = CrawlView { queue: v.queue.drop_first(), ..v };
        if stop || v.saved >= v.max_pages {
            (v1, None)
        } else if v.visited.contains(u) {
            advance(v1, stop)
        } else {
            let v2 = CrawlView { visited: v.visited.push(u), ..v1 };
            if fetchable(u, v.origin, v.prefix) {
                (CrawlView { in_flight: true, ..v2 }, Some(u))
            } else {
                advance(v2, stop)
            }
        }
    }
}

/// The links of a fetched page that join the queue, fragments removed: same origin, not
/// visited yet, and within the prefix when there is one.
pub open spec fn links_to_queue(
    links: Seq<Seq<char>>,
    visited: Seq<Seq<char>>,
    origin: Seq<char>,
    prefix: Option<Seq<char>>,
) -> Seq<Seq<char>>
    decreases links.len(),
{
    if links.len() == 0 {
        seq![]
    } else {
        let rest = links_to_queue(links.drop_last(), visited, origin, prefix);
        let l = links.last();
        let clean = url_without_fragment(l);
        if url_parses(l) && url_origin(l) == origin && !visited.contains(clean) && (prefix matches Some(
            p,
        ) ==> starts_with(url_path(l), p)) {
            rest.push(clean)
        } else {
            rest
        }
    }
}

/// What the crawl does next.
#[derive(Debug)]
pub enum NextStep {
    /// Fetch this URL.
    Fetch(String),
    /// The crawl is paused: nothing to fetch for now.
    Wait,
    /// The crawl is over.
    Finished,
}

/// The URL a step fetches, if any.
pub open spec fn step_url(r: NextStep) -> Option<Seq<char>> {
    match r {
        NextStep::Fetch(u) => Some(u@),
        _ => None,
    }
}

/// What the driver does with a fetched page.
#[derive(Debug)]
pub enum PageAction {
    /// Write `content` to `filepath` below the output directory, then report with `page_written`.
    Write { filepath: String, content: String },
    /// The page failed; report this event.
    Failed(CrawlEvent),
}

/// A crawl in progress.
pub struct Crawler {
    config: CrawlConfig,
    origin: String,
    visited: Vec<String>,
    queue: std::collections::VecDeque<String>,
    saved: usize,
    failed: usize,
    auth_failed: usize,
    in_flight: bool,
}

/// The texts of a sequence of strings.
pub open spec fn strs(s: Seq<String>) -> Seq<Seq<char>> {
    s.map_values(|x: String| x@)
}

impl Crawler {
    /// The crawl's state, as values.
    pub closed spec fn view(&self) -> CrawlView {
        CrawlView {
            origin: self.origin@,
            prefix: opt_view(self.config.prefix),
            max_pages: self.config.max_pages as nat,
            visited: strs(self.visited@),
            queue: strs(self.queue@),
            saved: self.saved as nat,
            failed: self.failed as nat,
            auth_failed: self.auth_failed as nat,
            in_flight: self.in_flight,
        }
    }

    /// The crawl's settings, as values.
    pub closed spec fn settings(&self) -> CrawlConfig {
        self.config
    }

    /// The crawl's bookkeeping holds together: no URL is visited twice, at most the page limit
    /// is saved (and fewer while a page is in flight), and every outcome counted, plus the page
    /// in flight, belongs to a distinct visited URL.
    pub closed spec fn wf(&self) -> bool {
        let v = self.view();
        &&& v.visited.no_duplicates()
        &&& v.saved <= v.max_pages
        &&& (v.in_flight ==> v.saved < v.max_pages)
        &&& v.saved + v.failed + v.auth_failed + (if v.in_flight { 1int } else { 0int }) <= v.visited.len()
        &&& self.visited@.len() == v.visited.len()
    }

    /// Starts a crawl at the configured base URL; fails when it does not parse.
    pub fn new(config: CrawlConfig) -> (r: Result<Crawler, String>)
        ensures
            r is Ok <==> url_parses(config.base_url@),
            r matches Err(e) ==> e@ == url_parse_error(config.base_url@),
            r matches Ok(c) ==> {
                &&& c.wf()
                &&& c.settings() == config
                &&& c.view() == (CrawlView {
                    origin: url_origin(config.base_url@),
                    prefix: opt_view(config.prefix),
                    max_pages: config.max_pages as nat,
                    visited: seq![],
                    queue: seq![config.base_url@],
                    saved: 0,
                    failed: 0,
                    auth_failed: 0,
                    in_flight: false,
                })
            },
    {
        let base = match parse_url(config.base_url.as_str()) {
            Ok(b) => b,
            Err(e) => return Err(e),
        };
        let mut queue = std::collections::VecDeque::new();
        queue.push_back(config.base_url.clone());
        let c = Crawler {
            config,
            origin: base.origin,
            visited: Vec::new(),
            queue,
            saved: 0,
            failed: 0,
            auth_failed: 0,
            in_flight: false,
        };
        assert(strs(c.queue@) =~= seq![c.config.base_url@]);
        assert(strs(c.visited@) =~= Seq::<Seq<char>>::empty());
        Ok(c)
    }

    /// The crawl's settings.
    pub fn config(&self) -> (c: &CrawlConfig)
        ensures
            *c == self.settings(),
    {
        &self.config
    }

    /// Whether a URL handed out by `next_url` still awaits its outcome.
    pub fn in_flight(&self) -> (b: bool)
        ensures
            b == self.view().in_flight,
    {
        self.in_flight
    }

    /// Pages saved so far.
    pub fn saved(&self) -> (n: usize)
        ensures
            n == self.view().saved,
    {
        self.saved
    }

    fn is_visited(&self, u: &String) -> (r: bool)
        ensures
            r == self.view().visited.contains(u@),
    {
        let mut i: usize = 0;
        while i < self.visited.len()
            invariant
                i <= self.visited@.len(),
                forall|j: int| 0 <= j < i ==> strs(self.visited@)[j] != u@,
            decreases self.visited@.len() - i,
        {
            if self.visited[i] == *u {
                assert(strs(self.visited@)[i as int] == u@);
                return true;
            }
            i = i + 1;
        }
        false
    }

    fn is_fetchable(&self, u: &String) -> (r: bool)
        ensures
            r == fetchable(u@, self.view().origin, self.view().prefix),
    {
        let p = match parse_url(u.as_str()) {
            Ok(p) => p,
            Err(_) => return false,
        };
        if p.origin != self.origin {
            return false;
        }
        let path = chars_of(p.path.as_str());
        proof {
            lemma_rfind_in(path@, '.', path@.len() as int);
        }
        let piece = match rfind_char(path.as_slice(), '.', path.len()) {
            Some(i) => slice_chars(path.as_slice(), i + 1, path.len()),
            None => slice_chars(path.as_slice(), 0, path.len()),
        };
        proof {
            match rfind_before(path@, '.', path@.len() as int) {
                Some(i) => {
                    lemma_rfind_in(path@, '.', path@.len() as int);
                    assert(piece@ =~= path@.skip(i + 1));
                },
                None => {
                    assert(piece@ =~= path@);
                },
            }
        }
        let ext = lower_chars(piece.as_slice());
        if is_asset_ext(&ext) {
            return false;
        }
        match &self.config.prefix {
            Some(pfx) => has_prefix(path.as_slice(), chars_of(pfx.as_str()).as_slice()),
            None => true,
        }
    }

    /// What the crawl does next: while paused (and not asked to stop) it waits, handing out
    /// nothing and keeping its queue as it is; otherwise it fetches the next URL that
    /// `advance` gives (the driver then reports `Visiting` for it), or is finished.
    pub fn next_url(&mut self, stop: bool, paused: bool) -> (r: NextStep)
        requires
            old(self).wf(),
            !old(self).view().in_flight,
        ensures
            final(self).wf(),
            final(self).settings() == old(self).settings(),
            r is Wait <==> (paused && !stop),
            r is Wait ==> final(self).view() == old(self).view(),
            !(r is Wait) ==> (final(self).view(), step_url(r)) == advance(old(self).view(), stop),
    {
        if paused && !stop {
            return NextStep::Wait;
        }
        match self.take_next(stop) {
            Some(u) => NextStep::Fetch(u),
            None => NextStep::Finished,
        }
    }

    fn take_next(&mut self, stop: bool) -> (r: Option<String>)
        requires
            old(self).wf(),
            !old(self).view().in_flight,
        ensures
            final(self).wf(),
            final(self).settings() == old(self).settings(),
            (final(self).view(), opt_view(r)) == advance(old(self).view(), stop),
    {
        loop
            invariant
                self.wf(),
                !self.view().in_flight,
                self.settings() == old(self).settings(),
                advance(old(self).view(), stop) == advance(self.view(), stop),
            decreases self.queue@.len(),
        {
            let ghost v = self.view();
            let u = match self.queue.pop_front() {
                Some(u) => u,
                None => {
                    return None;
                },
            };
            assert(strs(self.queue@) =~= v.queue.drop_first());
            if stop || self.saved >= self.config.max_pages {
                return None;
            }
            if self.is_visited(&u) {
                continue;
            }
            let fetch = self.is_fetchable(&u);
            let ghost before = strs(self.visited@);
            self.visited.push(u.clone());
            assert(strs(self.visited@) =~= before.push(u@));
            if fetch {
                self.in_flight = true;
                return Some(u);
            }
        }
    }

    /// Records a page whose fetch failed with `msg`: an `AUTH:<code>` message is an
    /// authorization failure (code 401 when it does not read as one), anything else an error.
    pub fn fetch_failed(&mut self, url: &str, msg: String) -> (ev: CrawlEvent)
        requires
            old(self).wf(),
            old(self).view().in_flight,
        ensures
            final(self).wf(),
            final(self).settings() == old(self).settings(),
            ({
                let v = old(self).view();
                if starts_with(msg@, "AUTH:"@) {
                    let code = match parse_unsigned(msg@.skip(5), u16::MAX as nat) {
                        Some(c) => c,
                        None => 401,
                    };
                    &&& ev matches CrawlEvent::AuthFail(u, c) && u@ == url@ && c == code
                    &&& final(self).view() == (CrawlView { auth_failed: v.auth_failed + 1, in_flight: false, ..v })
                } else {
                    &&& ev matches CrawlEvent::Error(u, m) && u@ == url@ && m == msg
                    &&& final(self).view() == (CrawlView { failed: v.failed + 1, in_flight: false, ..v })
                }
            }),
    {
        let m = chars_of(msg.as_str());
        let auth = chars_of("AUTH:");
        proof {
            reveal_strlit("AUTH:");
        }
        self.in_flight = false;
        if has_prefix(m.as_slice(), auth.as_slice()) {
            let rest = slice_chars(m.as_slice(), 5, m.len());
            assert(rest@ =~= msg@.skip(5));
            let code = match parse_u16(rest.as_slice()) {
                Some(c) => c,
                None => 401,
            };
            assert(self.visited@.len() == self.visited.len());
            self.auth_failed = self.auth_failed + 1;
            CrawlEvent::AuthFail(string_from(chars_of(url).as_slice()), code)
        } else {
            assert(self.visited@.len() == self.visited.len());
            self.failed = self.failed + 1;
            CrawlEvent::Error(string_from(chars_of(url).as_slice()), msg)
        }
    }
}

impl Crawler {
    /// Queues the page's links that `links_to_queue` admits, converts the page, and decides
    /// where it goes: the file named by `url_to_filepath`, holding the page's title (the
    /// fetcher's, else the one read from the HTML) and markdown; a file that would leave the
    /// output directory fails the page.
    pub fn page_fetched(&mut self, url: &str, page: &PageResult) -> (act: PageAction)
        requires
            old(self).wf(),
            old(self).view().in_flight,
        ensures
            final(self).wf(),
            final(self).settings() == old(self).settings(),
            ({
                let v = old(self).view();
                let cfg = old(self).settings();
                let q = v.queue + links_to_queue(strs(page.links@), v.visited, v.origin, v.prefix);
                let md = htmd_markdown(skipped_tags(), page_content_html(page.html@, opt_view(cfg.selector)));
                let fp = filepath_for(url@, cfg.base_url@);
                let title = if page.title@.len() > 0 {
                    page.title@
                } else {
                    page_title(page.html@)
                };
                if escapes_output(cfg.output_dir@, fp) {
                    &&& act matches PageAction::Failed(CrawlEvent::Error(u, m)) && u@ == url@ && m@
                        == "Path traversal detected: "@ + fp
                    &&& final(self).view() == (CrawlView { queue: q, failed: v.failed + 1, in_flight: false, ..v })
                } else {
                    &&& act matches PageAction::Write { filepath, content } && filepath@ == fp
                        && content@ == page_file(title, url@, md)
                    &&& final(self).view() == (CrawlView { queue: q, ..v })
                }
            }),
    {
        let ghost v0 = self.view();
        let mut k: usize = 0;
        while k < page.links.len()
            invariant
                k <= page.links@.len(),
                self.wf(),
                self.view().in_flight,
                self.settings() == old(self).settings(),
                self.view() == (CrawlView {
                    queue: v0.queue + links_to_queue(strs(page.links@).take(k as int), v0.visited, v0.origin, v0.prefix),
                    ..v0
                }),
            decreases page.links@.len() - k,
        {
            let ghost ls = strs(page.links@).take(k + 1);
            assert(ls.drop_last() =~= strs(page.links@).take(k as int));
            assert(ls.last() == page.links@[k as int]@);
            let link = &page.links[k];
            match parse_url(link.as_str()) {
                Ok(p) => {
                    let keep = p.origin == self.origin && !self.is_visited(&p.without_fragment) && match &self.config.prefix {
                        Some(pfx) => has_prefix(chars_of(p.path.as_str()).as_slice(), chars_of(pfx.as_str()).as_slice()),
                        None => true,
                    };
                    if keep {
                        let ghost before = strs(self.queue@);
                        self.queue.push_back(p.without_fragment);
                        assert(strs(self.queue@) =~= before.push(url_without_fragment(link@)));
                    }
                },
                Err(_) => {},
            }
            k = k + 1;
        }
        assert(strs(page.links@).take(page.links@.len() as int) =~= strs(page.links@));
        let selector: Option<&str> = match &self.config.selector {
            Some(s) => Some(s.as_str()),
            None => None,
        };
        let converted = match html_to_markdown(page.html.as_str(), selector) {
            Ok(c) => c,
            Err(e) => {
                assert(self.visited@.len() == self.visited.len());
                self.failed = self.failed + 1;
                self.in_flight = false;
                return PageAction::Failed(CrawlEvent::Error(string_from(chars_of(url).as_slice()), e));
            },
        };
        let fp = url_to_filepath(url, self.config.base_url.as_str());
        let title: &str = if !page.title.as_str().is_empty() {
            page.title.as_str()
        } else {
            converted.title.as_str()
        };
        if is_path_traversal(self.config.output_dir.as_str(), fp.as_str()) {
            assert(self.visited@.len() == self.visited.len());
            self.failed = self.failed + 1;
            self.in_flight = false;
            let mut m = chars_of("Path traversal detected: ");
            append_str(&mut m, fp.as_str());
            return PageAction::Failed(CrawlEvent::Error(string_from(chars_of(url).as_slice()), string_from(m.as_slice())));
        }
        let content = page_content(title, url, converted.markdown.as_str());
        PageAction::Write { filepath: fp, content }
    }

    /// Records how writing the page went: saved, or failed with the write's error.
    pub fn page_written(&mut self, url: &str, filepath: String, result: Result<(), String>) -> (ev: CrawlEvent)
        requires
            old(self).wf(),
            old(self).view().in_flight,
        ensures
            final(self).wf(),
            final(self).settings() == old(self).settings(),
            ({
                let v = old(self).view();
                match result {
                    Ok(()) => {
                        &&& ev matches CrawlEvent::Saved(u, f) && u@ == url@ && f == filepath
                        &&& final(self).view() == (CrawlView { saved: v.saved + 1, in_flight: false, ..v })
                    },
                    Err(msg) => {
                        &&& ev matches CrawlEvent::Error(u, m) && u@ == url@ && m == msg
                        &&& final(self).view() == (CrawlView { failed: v.failed + 1, in_flight: false, ..v })
                    },
                }
            }),
    {
        self.in_flight = false;
        match result {
            Ok(()) => {
                self.saved = self.saved + 1;
                CrawlEvent::Saved(string_from(chars_of(url).as_slice()), filepath)
            },
            Err(msg) => {
                assert(self.visited@.len() == self.visited.len());
                self.failed = self.failed + 1;
                CrawlEvent::Error(string_from(chars_of(url).as_slice()), msg)
            },
        }
    }

    /// A progress report, due whenever the number of visited URLs is a multiple of 20.
    pub fn progress(&self) -> (ev: Option<CrawlEvent>)
        requires
            self.wf(),
        ensures
            ev is Some <==> self.view().visited.len() % 20 == 0,
            ev matches Some(CrawlEvent::Progress { visited, saved, queue }) ==> visited
                == self.view().visited.len() && saved == self.view().saved && queue
                == self.view().queue.len(),
            ev matches Some(e) ==> e is Progress,
    {
        let n = self.visited.len();
        if n % 20 == 0 {
            Some(CrawlEvent::Progress { visited: n, saved: self.saved, queue: self.queue.len() })
        } else {
            None
        }
    }

    /// The final report.
    pub fn done(&self) -> (ev: CrawlEvent)
        ensures
            ev == (CrawlEvent::Done {
                saved: self.view().saved as usize,
                failed: self.view().failed as usize,
                auth_failed: self.view().auth_failed as usize,
            }),
    {
        CrawlEvent::Done { saved: self.saved, failed: self.failed, auth_failed: self.auth_failed }
    }
}

proof fn lemma_rfind_in(s: Seq<char>, c: char, end: int)
    requires
        end <= s.len(),
    ensures
        rfind_before(s, c, end) matches Some(i) ==> 0 <= i < end,
    decreases end,
{
    if end > 0 && s[end - 1] != c {
        lemma_rfind_in(s, c, end - 1);
    }
}

fn is_asset_ext(ext: &Vec<char>) -> (r: bool)
    ensures
        r == asset_exts().contains(ext@),
{
    let exts: Vec<&str> = vec![
        "png", "jpg", "jpeg", "gif", "svg", "css", "js", "woff", "pdf", "zip", "ico", "woff2", "ttf", "eot",
    ];
    let ghost g = exts@.map_values(|t: &str| t@);
    assert(g =~= asset_exts());
    let mut i: usize = 0;
    while i < exts.len()
        invariant
            i <= exts@.len(),
            g == exts@.map_values(|t: &str| t@),
            g == asset_exts(),
            forall|j: int| 0 <= j < i ==> g[j] != ext@,
        decreases exts@.len() - i,
    {
        if crate::text::chars_eq(ext.as_slice(), chars_of(exts[i]).as_slice()) {
            assert(g[i as int] == ext@);
            return true;
        }
        i = i + 1;
    }
    false
}

} // verus!

verus! {

/// No page is fetched twice, and only pages of the crawl's site are fetched: a URL that
/// `advance` hands out was not visited before, is fetchable, and is the newest visited URL;
/// the URLs visited before are kept, in order, without repeats.
pub proof fn lemma_fetch_is_new(v: CrawlView, stop: bool)
    requires
        v.visited.no_duplicates(),
    ensures
        ({
            let (w, r) = advance(v, stop);
            &&& w.visited.len() >= v.visited.len()
            &&& w.visited.take(v.visited.len() as int) == v.visited
            &&& w.visited.no_duplicates()
            &&& (r matches Some(u) ==> {
                &&& !v.visited.contains(u)
                &&& w.visited.last() == u
                &&& fetchable(u, v.origin, v.prefix)
                &&& w.in_flight
            })
        }),
    decreases v.queue.len(),
{
    if v.queue.len() == 0 {
        assert(v.visited.take(v.visited.len() as int) =~= v.visited);
    } else {
        let u = v.queue[0];
        let v1 = CrawlView { queue: v.queue.drop_first(), ..v };
        if stop || v.saved >= v.max_pages {
            assert(v.visited.take(v.visited.len() as int) =~= v.visited);
        } else if v.visited.contains(u) {
            lemma_fetch_is_new(v1, stop);
        } else {
            let v2 = CrawlView { visited: v.visited.push(u), ..v1 };
            assert(v2.visited.no_duplicates()) by {
                assert forall|i: int, j: int| 0 <= i < j < v2.visited.len() implies v2.visited[i] != v2.visited[j] by {
                    if j == v.visited.len() {
                        assert(v.visited[i] == v2.visited[i]);
                    }
                }
            }
            if fetchable(u, v.origin, v.prefix) {
                assert(v2.visited.take(v.visited.len() as int) =~= v.visited);
            } else {
                lemma_fetch_is_new(v2, stop);
                let (w, r) = advance(v2, stop);
                assert(w.visited.take(v.visited.len() as int) =~= w.visited.take(v2.visited.len() as int).take(v.visited.len() as int));
                assert(v2.visited.take(v.visited.len() as int) =~= v.visited);
                if r is Some {
                    let x = r->0;
                    assert(!v.visited.contains(x)) by {
                        if v.visited.contains(x) {
                            let i = choose|i: int| 0 <= i < v.visited.len() && v.visited[i] == x;
                            assert(v2.visited[i] == x);
                        }
                    }
                }
            }
        }
    }
}

/// A stop request, or a reached page limit, ends the crawl: nothing more is fetched.
pub proof fn lemma_stop_or_limit_ends(v: CrawlView, stop: bool)
    requires
        stop || v.saved >= v.max_pages,
    ensures
        advance(v, stop).1 is None,
{
}

/// What every crawl built by `Crawler::new` and kept by its methods holds: never more pages
/// saved than allowed, an outcome counted for at most each visited URL, and no URL visited
/// twice (so `lemma_fetch_is_new` applies to its view).
pub proof fn lemma_saved_within_limit(c: &Crawler)
    requires
        c.wf(),
    ensures
        c.view().saved <= c.view().max_pages,
        c.view().saved + c.view().failed + c.view().auth_failed <= c.view().visited.len(),
        c.view().visited.no_duplicates(),
{
}

/// Only links of the crawl's site join the queue, without fragments, unvisited, and within
/// the prefix when there is one.
pub proof fn lemma_queued_links(
    links: Seq<Seq<char>>,
    visited: Seq<Seq<char>>,
    origin: Seq<char>,
    prefix: Option<Seq<char>>,
    k: int,
)
    requires
        0 <= k < links_to_queue(links, visited, origin, prefix).len(),
    ensures
        exists|i: int|
            0 <= i < links.len() && #[trigger] url_without_fragment(links[i]) == links_to_queue(
                links,
                visited,
                origin,
                prefix,
            )[k] && url_parses(links[i]) && url_origin(links[i]) == origin && (prefix matches Some(
                p,
            ) ==> starts_with(url_path(links[i]), p)),
        !visited.contains(links_to_queue(links, visited, origin, prefix)[k]),
    decreases links.len(),
{
    let rest = links_to_queue(links.drop_last(), visited, origin, prefix);
    let q = links_to_queue(links, visited, origin, prefix);
    if k < rest.len() {
        lemma_queued_links(links.drop_last(), visited, origin, prefix, k);
        let i = choose|i: int|
            0 <= i < links.drop_last().len() && #[trigger] url_without_fragment(links.drop_last()[i]) == rest[k]
                && url_parses(links.drop_last()[i]) && url_origin(links.drop_last()[i]) == origin && (
            prefix matches Some(p) ==> starts_with(url_path(links.drop_last()[i]), p));
        assert(links[i] == links.drop_last()[i]);
        assert(q[k] == rest[k]);
    } else {
        let i = links.len() - 1;
        assert(q[k] == url_without_fragment(links[i]));
    }
}

/// Every link of a fetched page that parses, has the crawl's origin, lies within the prefix
/// when there is one, and whose form without fragment has not been visited, joins the queue
/// in that form: a fragment never keeps a page out of the crawl.
pub proof fn lemma_links_queued_complete(
    links: Seq<Seq<char>>,
    visited: Seq<Seq<char>>,
    origin: Seq<char>,
    prefix: Option<Seq<char>>,
    i: int,
)
    requires
        0 <= i < links.len(),
        url_parses(links[i]),
        url_origin(links[i]) == origin,
        prefix matches Some(p) ==> starts_with(url_path(links[i]), p),
        !visited.contains(url_without_fragment(links[i])),
    ensures
        links_to_queue(links, visited, origin, prefix).contains(url_without_fragment(links[i])),
    decreases links.len(),
{
    let rest = links_to_queue(links.drop_last(), visited, origin, prefix);
    let q = links_to_queue(links, visited, origin, prefix);
    let x = url_without_fragment(links[i]);
    if i == links.len() - 1 {
        assert(q == rest.push(x));
        assert(q[rest.len() as int] == x);
    } else {
        assert(links.drop_last()[i] == links[i]);
        lemma_links_queued_complete(links.drop_last(), visited, origin, prefix, i);
        let j = choose|j: int| 0 <= j < rest.len() && rest[j] == x;
        assert(q[j] == rest[j]);
    }
}

/// Each link of a fetched page adds at most one URL to the queue.
pub proof fn lemma_links_queued_at_most_once(
    links: Seq<Seq<char>>,
    visited: Seq<Seq<char>>,
    origin: Seq<char>,
    prefix: Option<Seq<char>>,
)
    ensures
        links_to_queue(links, visited, origin, prefix).len() <= links.len(),
    decreases links.len(),
{
    if links.len() > 0 {
        lemma_links_queued_at_most_once(links.drop_last(), visited, origin, prefix);
    }
}

} // verus!
