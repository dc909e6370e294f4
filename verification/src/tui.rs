//! The decisions of the terminal interface: how crawl reports become log lines, and what
//! each key and each typed command does. Drawing and the event loop live with the caller.
use vstd::prelude::*;
use crate::app::{
    after_backspace, after_typing, at_bottom, log_after_push, offset_after_push, prev_boundary,
    next_boundary, sat_sub, App, AppState, LogEntry, LogStatus, LOG_CAP,
};
use crate::crawler::CrawlEvent;
use crate::text::opt_view;

verus! {

/// A report from the crawl task to the interface.
#[derive(Debug)]
pub enum TuiMessage {
    Visiting(String),
    Saved { url: String, filepath: String },
    AuthFail { url: String, code: u16 },
    Error { url: String, message: String },
    Progress { visited: usize, total: usize },
    Done { saved: usize, failed: usize, auth_failed: usize },
}

/// How pages are fetched in the interactive mode.
#[derive(Debug, Clone, Copy, PartialEq, Eq, Structural)]
pub enum EngineKind {
    /// Headless Chrome, launched when a scrape starts.
    BrowserLazy,
    /// Plain HTTP requests.
    Http,
}

/// The report the interface gets for a crawl event. Once a stop was requested, only the
/// final report and errors still get through. Progress counts visited pages against visited
/// plus queued ones.
pub fn crawl_event_message(ev: CrawlEvent, stopping: bool) -> (m: Option<TuiMessage>)
    requires
        ev matches CrawlEvent::Progress { visited, queue, .. } ==> visited + queue <= usize::MAX,
    ensures
        stopping && !(ev is Done) && !(ev is Error) ==> m is None,
        !(stopping && !(ev is Done) && !(ev is Error)) ==> m == Some(
            match ev {
                CrawlEvent::Visiting(u) => TuiMessage::Visiting(u),
                CrawlEvent::Saved(u, f) => TuiMessage::Saved { url: u, filepath: f },
                CrawlEvent::AuthFail(u, c) => TuiMessage::AuthFail { url: u, code: c },
                CrawlEvent::Error(u, e) => TuiMessage::Error { url: u, message: e },
                CrawlEvent::Progress { visited, queue, .. } => TuiMessage::Progress {
                    visited,
                    total: (visited + queue) as usize,
                },
                CrawlEvent::Done { saved, failed, auth_failed } => TuiMessage::Done {
                    saved,
                    failed,
                    auth_failed,
                },
            },
        ),
{
    let pass = match &ev {
        CrawlEvent::Done { .. } | CrawlEvent::Error(..) => true,
        _ => false,
    };
    if stopping && !pass {
        return None;
    }
    Some(
        match ev {
            CrawlEvent::Visiting(u) => TuiMessage::Visiting(u),
            CrawlEvent::Saved(u, f) => TuiMessage::Saved { url: u, filepath: f },
            CrawlEvent::AuthFail(u, c) => TuiMessage::AuthFail { url: u, code: c },
            CrawlEvent::Error(u, e) => TuiMessage::Error { url: u, message: e },
            CrawlEvent::Progress { visited, queue, .. } => TuiMessage::Progress {
                visited,
                total: visited + queue,
            },
            CrawlEvent::Done { saved, failed, auth_failed } => TuiMessage::Done {
                saved,
                failed,
                auth_failed,
            },
        },
    )
}

/// A key as the interface sees it.
#[derive(Debug, Clone, Copy, PartialEq, Eq, Structural)]
pub enum KeyCode {
    Char(char),
    Backspace,
    Delete,
    Left,
    Right,
    Up,
    Down,
    Enter,
    Esc,
    Other,
}

/// A key press, with whether Control was held.
#[derive(Debug, Clone, Copy, PartialEq, Eq, Structural)]
pub struct KeyPress {
    pub code: KeyCode,
    pub ctrl: bool,
}

impl KeyPress {
    /// Control-C.
    pub open spec fn is_ctrl_c(self) -> bool {
        self.ctrl && self.code == KeyCode::Char('c')
    }
}

impl App {
    /// The log line a crawl report adds: whether `e` is that line for `msg`.
    pub open spec fn is_line_for(e: LogEntry, msg: TuiMessage) -> bool {
        match msg {
            TuiMessage::Visiting(u) => e == LogEntry {
                status: LogStatus::Visiting,
                url: u,
                filepath: None,
                message: None,
            },
            TuiMessage::Saved { url, filepath } => e == LogEntry {
                status: LogStatus::Saved,
                url,
                filepath: Some(filepath),
                message: None,
            },
            TuiMessage::AuthFail { url, code } => e.status == LogStatus::AuthFail(code) && e.url
                == url && e.filepath is None && (e.message matches Some(m) && m@
                == "auth failed, skipped"@),
            TuiMessage::Error { url, message } => e == LogEntry {
                status: LogStatus::Error,
                url,
                filepath: None,
                message: Some(message),
            },
            _ => false,
        }
    }

    /// Applies a crawl report: a page report adds a log line, progress updates the progress,
    /// and the final report marks the scrape done. Returns whether it was the final report.
    /// Reports are applied in every state: a paused crawl fetches nothing new (see
    /// `Crawler::next_url`), so while paused only the outcome of the page already being
    /// fetched, or the final report after a stop, still arrives.
    pub fn apply_message(&mut self, msg: TuiMessage) -> (done: bool)
        ensures
            done == (msg is Done),
            match msg {
                TuiMessage::Progress { visited, total } => *final(self) == (App {
                    progress: (visited, total),
                    ..*old(self)
                }),
                TuiMessage::Done { saved, failed, auth_failed } => *final(self) == (App {
                    saved,
                    failed,
                    auth_failed,
                    state: AppState::Done,
                    ..*old(self)
                }),
                _ => {
                    &&& final(self).log@ == log_after_push(old(self).log@, final(self).log@.last())
                    &&& App::is_line_for(final(self).log@.last(), msg)
                    &&& final(self).scroll_offset == offset_after_push(
                        old(self).log@.len() as int,
                        old(self).scroll_offset as int,
                    )
                    &&& old(self).same_but_log(*final(self))
                },
            },
    {
        match msg {
            TuiMessage::Visiting(url) => {
                self.push_log(LogEntry { status: LogStatus::Visiting, url, filepath: None, message: None });
                false
            },
            TuiMessage::Saved { url, filepath } => {
                self.push_log(LogEntry { status: LogStatus::Saved, url, filepath: Some(filepath), message: None });
                false
            },
            TuiMessage::AuthFail { url, code } => {
                self.push_log(
                    LogEntry {
                        status: LogStatus::AuthFail(code),
                        url,
                        filepath: None,
                        message: Some("auth failed, skipped".to_string()),
                    },
                );
                false
            },
            TuiMessage::Error { url, message } => {
                self.push_log(LogEntry { status: LogStatus::Error, url, filepath: None, message: Some(message) });
                false
            },
            TuiMessage::Progress { visited, total } => {
                self.set_progress(visited, total);
                false
            },
            TuiMessage::Done { saved, failed, auth_failed } => {
                self.set_done(saved, failed, auth_failed);
                true
            },
        }
    }

    /// Advances the spinner by one frame.
    pub fn tick(&mut self)
        ensures
            *final(self) == (App {
                spinner_frame: (if old(self).spinner_frame == usize::MAX {
                    0
                } else {
                    old(self).spinner_frame + 1
                }) as usize,
                ..*old(self)
            }),
    {
        self.spinner_frame = if self.spinner_frame == usize::MAX {
            0
        } else {
            self.spinner_frame + 1
        };
    }

    /// A key in the one-shot interface: Control-C or `q` quits (the result is `true`); `p`
    /// pauses or resumes (the driver hands the paused state to `Crawler::next_url`, which
    /// then fetches nothing and keeps its queue); Up or `k` and Down or `j` scroll.
    pub fn oneshot_key(&mut self, key: KeyPress) -> (quit: bool)
        ensures
            quit == (key.is_ctrl_c() || key.code == KeyCode::Char('q')),
            !quit && key.code == KeyCode::Char('p') ==> *final(self) == (App {
                state: crate::app::toggled(old(self).state),
                ..*old(self)
            }),
            !quit && (key.code == KeyCode::Up || key.code == KeyCode::Char('k')) ==> *final(self)
                == (App { scroll_offset: sat_sub(old(self).scroll_offset as int, 1) as usize, ..*old(self) }),
            !quit && (key.code == KeyCode::Down || key.code == KeyCode::Char('j')) ==> *final(self)
                == (App {
                    scroll_offset: (if old(self).scroll_offset < old(self).log@.len() {
                        old(self).scroll_offset + 1
                    } else {
                        old(self).scroll_offset as int
                    }) as usize,
                    ..*old(self)
                }),
            quit || !(key.code == KeyCode::Char('p') || key.code == KeyCode::Up || key.code
                == KeyCode::Char('k') || key.code == KeyCode::Down || key.code == KeyCode::Char('j'))
                ==> *final(self) == *old(self),
    {
        let (is_c, is_q, is_p, up, down) = match key.code {
            KeyCode::Char(c) => (c == 'c', c == 'q', c == 'p', c == 'k', c == 'j'),
            KeyCode::Up => (false, false, false, true, false),
            KeyCode::Down => (false, false, false, false, true),
            _ => (false, false, false, false, false),
        };
        if (key.ctrl && is_c) || is_q {
            return true;
        }
        if is_p {
            self.toggle_pause();
        } else if up {
            self.scroll_up();
        } else if down {
            self.scroll_down();
        }
        false
    }

    /// After a scrape ends and its reports are drained, the interface returns to the prompt.
    pub fn settle(&mut self, scrape_active: bool)
        ensures
            (old(self).state is Done && !scrape_active) ==> *final(self) == (App {
                state: AppState::Idle,
                ..*old(self)
            }),
            !(old(self).state is Done && !scrape_active) ==> *final(self) == *old(self),
    {
        if !scrape_active {
            match self.state {
                AppState::Done => self.back_to_idle(),
                _ => {},
            }
        }
    }
}

} // verus!

verus! {

/// The last `LOG_CAP` lines of a log.
pub open spec fn capped(s: Seq<LogEntry>) -> Seq<LogEntry> {
    if s.len() > LOG_CAP {
        s.skip(s.len() - LOG_CAP)
    } else {
        s
    }
}

/// `e` is an information line carrying `m`.
pub open spec fn is_info_line(e: LogEntry, m: Seq<char>) -> bool {
    &&& e.status matches LogStatus::Info(s) && s@ == m
    &&& e.url@.len() == 0
    &&& e.filepath is None
    &&& e.message matches Some(t) && t@ == m
}

/// The scroll offset after `n` lines are appended to a log of `len` lines viewed at `off`.
pub open spec fn offset_after_n(len: int, off: int, n: nat) -> int
    decreases n,
{
    if n == 0 {
        off
    } else {
        offset_after_n(
            if len + 1 > LOG_CAP {
                LOG_CAP as int
            } else {
                len + 1
            },
            offset_after_push(len, off),
            (n - 1) as nat,
        )
    }
}

/// `new` is `old` with information lines carrying `msgs` appended, in order, through
/// `push_log` (older lines beyond `LOG_CAP` dropped, the view following the newest line as
/// `push_log` does); nothing else differs.
pub open spec fn infos_added(old: App, new: App, msgs: Seq<Seq<char>>) -> bool {
    let k = msgs.len();
    let n = new.log@.len();
    &&& n >= k
    &&& new.log@ == capped(old.log@ + new.log@.skip(n - k))
    &&& forall|i: int| 0 <= i < k ==> is_info_line(#[trigger] new.log@[n - k + i], msgs[i])
    &&& new.scroll_offset == offset_after_n(old.log@.len() as int, old.scroll_offset as int, k)
    &&& old.same_but_log(new)
}

/// The log stays within `LOG_CAP` lines whatever information lines are added to it, so every
/// command and report that only adds such lines keeps the cap.
pub proof fn lemma_infos_stay_capped(a: App, b: App, msgs: Seq<Seq<char>>)
    requires
        infos_added(a, b, msgs),
    ensures
        b.log@.len() <= LOG_CAP,
{
}

proof fn lemma_offset_after_n_step(len: int, off: int, n: nat)
    ensures
        offset_after_n(len, off, n + 1) == offset_after_push(
            capped_len(len, n),
            offset_after_n(len, off, n),
        ),
    decreases n,
{
    reveal_with_fuel(offset_after_n, 2);
    reveal_with_fuel(capped_len, 2);
    if n > 0 {
        lemma_offset_after_n_step(
            if len + 1 > LOG_CAP {
                LOG_CAP as int
            } else {
                len + 1
            },
            offset_after_push(len, off),
            (n - 1) as nat,
        );
    }
}

/// The length of a log of `len` lines after `n` appends.
pub open spec fn capped_len(len: int, n: nat) -> int
    decreases n,
{
    if n == 0 {
        len
    } else {
        capped_len(
            if len + 1 > LOG_CAP {
                LOG_CAP as int
            } else {
                len + 1
            },
            (n - 1) as nat,
        )
    }
}

proof fn lemma_capped_len(a: Seq<LogEntry>, t: Seq<LogEntry>, len: int)
    requires
        len == a.len(),
        len <= LOG_CAP || t.len() >= 1,
    ensures
        capped(a + t).len() == capped_len(len, t.len()),
    decreases t.len(),
{
    if t.len() > 0 {
        let a1 = capped(a.push(t[0]));
        assert(a1.len() == if len + 1 > LOG_CAP { LOG_CAP as int } else { len + 1 });
        lemma_capped_len(a1, t.drop_first(), a1.len() as int);
        assert(capped(a1 + t.drop_first()) =~= capped(a + t)) by {
            lemma_capped_concat(a.push(t[0]), t.drop_first());
            assert(a.push(t[0]) + t.drop_first() =~= a + t);
        }
    }
}

proof fn lemma_capped_concat(a: Seq<LogEntry>, t: Seq<LogEntry>)
    ensures
        capped(capped(a) + t) == capped(a + t),
{
    let n = a.len() as int;
    let m = t.len() as int;
    let c = LOG_CAP as int;
    if n > c {
        let ca = a.skip(n - c);
        let x = capped(ca + t);
        let y = capped(a + t);
        assert(x.len() == y.len());
        assert forall|i: int| 0 <= i < x.len() implies x[i] == y[i] by {
            if m + i < c {
                assert(x[i] == (ca + t)[m + i]);
                assert((ca + t)[m + i] == a[n - c + m + i]);
                assert(y[i] == (a + t)[n + m - c + i]);
            } else {
                assert(x[i] == (ca + t)[m + i]);
                assert(y[i] == (a + t)[n + m - c + i]);
            }
        }
        assert(x =~= y);
    }
}

/// Information lines added one after another add up.
proof fn lemma_infos_chain(a: App, b: App, c: App, m1: Seq<Seq<char>>, x: Seq<char>)
    requires
        m1.len() >= 1,
        m1.len() + 1 <= LOG_CAP,
        infos_added(a, b, m1),
        infos_added(b, c, seq![x]),
    ensures
        infos_added(a, c, m1.push(x)),
{
    let k = m1.len() as int;
    let nb = b.log@.len() as int;
    let nc = c.log@.len() as int;
    let tb = b.log@.skip(nb - k);
    let e = c.log@.last();
    assert(c.log@.skip(nc - 1) =~= seq![e]);
    assert(b.log@ + seq![e] =~= b.log@.push(e));
    lemma_capped_concat(a.log@ + tb, seq![e]);
    assert(a.log@ + tb + seq![e] =~= a.log@ + (tb + seq![e]));
    let tc = tb + seq![e];
    let full = a.log@ + tc;
    assert(c.log@ == capped(full));
    assert(nc >= k + 1) by {
        assert(capped(full).len() >= if full.len() > LOG_CAP { LOG_CAP as int } else { full.len() as int });
    }
    assert(c.log@.skip(nc - (k + 1)) =~= tc) by {
        assert forall|i: int| 0 <= i < k + 1 implies c.log@[nc - (k + 1) + i] == tc[i] by {
            assert(c.log@[nc - (k + 1) + i] == full[full.len() - (k + 1) + i]);
        }
    }
    assert forall|i: int| 0 <= i < k + 1 implies is_info_line(#[trigger] c.log@[nc - (k + 1) + i], m1.push(x)[i]) by {
        if i < k {
            assert(c.log@[nc - (k + 1) + i] == tc[i]);
            assert(tc[i] == b.log@[nb - k + i]);
        } else {
            assert(c.log@[nc - (k + 1) + i] == e);
            assert(is_info_line(c.log@[nc - 1 + 0], x));
        }
    }
    lemma_capped_len(a.log@, tb, a.log@.len() as int);
    lemma_offset_after_n_step(a.log@.len() as int, a.scroll_offset as int, k as nat);
    reveal_with_fuel(offset_after_n, 2);
}

impl App {
    /// Adds an information line carrying `m`.
    fn info(&mut self, m: Vec<char>)
        ensures
            infos_added(*old(self), *final(self), seq![m@]),
    {
        let s = crate::text::string_from(m.as_slice());
        self.push_info(s);
        proof {
            reveal_with_fuel(offset_after_n, 2);
            let n = final(self).log@.len();
            assert(final(self).log@.skip(n - 1) =~= seq![final(self).log@.last()]);
            assert(old(self).log@ + seq![final(self).log@.last()] =~= old(self).log@.push(
                final(self).log@.last(),
            ));
            assert(final(self).log@[n - 1 + 0] == final(self).log@.last());
        }
    }
}

} // verus!

verus! {

/// What the caller does after a key or a command.
#[derive(Debug)]
pub enum UiAction {
    Nothing,
    Quit,
    /// Ask the running scrape to stop.
    StopScrape,
    /// Start a scrape with these settings, through the browser or plain HTTP.
    StartScrape { config: crate::crawler::CrawlConfig, use_browser: bool },
    /// Read the browser's cookies again, then report with `cookies_reloaded`.
    ReloadCookies,
    /// Run this submitted line with `run_command`.
    Submit(String),
}

/// The lines `/help` shows.
pub open spec fn help_lines() -> Seq<Seq<char>> {
    seq![
        "/scrape <url> [-m N] [-s sel] [-p pfx] [-d ms] [--no-browser]"@,
        "/stop or [Esc] — stop current scrape"@,
        "/status — show scrape status"@,
        "/config — show current config"@,
        "/set <key> <value> — change config (output, delay, max_pages, selector)"@,
        "/cookies — reload browser cookies"@,
        "/clear — clear log"@,
        "/quit — exit"@,
    ]
}

/// The lines `/config` shows.
pub open spec fn config_lines(a: App) -> Seq<Seq<char>> {
    seq![
        "browser: "@ + a.browser_name@,
        "output: "@ + a.output_dir@,
        "max_pages: "@ + crate::text::decimal(a.max_pages as nat),
        "delay: "@ + crate::text::decimal(a.delay_ms as nat) + "ms"@,
    ] + match a.selector {
        Some(s) => seq!["selector: "@ + s@],
        None => seq![],
    }
}

/// A scrape URL must be an `http://` or `https://` one.
pub open spec fn web_url(u: Seq<char>) -> bool {
    crate::text::starts_with(u, "http://"@) || crate::text::starts_with(u, "https://"@)
}

impl App {
    fn add_info(&mut self, m: Vec<char>, Ghost(a): Ghost<App>, Ghost(ms): Ghost<Seq<Seq<char>>>)
        requires
            ms.len() >= 1,
            ms.len() + 1 <= LOG_CAP,
            infos_added(a, *old(self), ms),
        ensures
            infos_added(a, *final(self), ms.push(m@)),
    {
        let ghost mid = *self;
        self.info(m);
        proof {
            lemma_infos_chain(a, mid, *self, ms, m@);
        }
    }

    fn add_info_str(&mut self, m: &str, Ghost(a): Ghost<App>, Ghost(ms): Ghost<Seq<Seq<char>>>)
        requires
            ms.len() >= 1,
            ms.len() + 1 <= LOG_CAP,
            infos_added(a, *old(self), ms),
        ensures
            infos_added(a, *final(self), ms.push(m@)),
    {
        self.add_info(crate::text::chars_of(m), Ghost(a), Ghost(ms));
    }

    /// Reports a cookie reload: the new count, or why it failed.
    pub fn cookies_reloaded(&mut self, result: Result<usize, String>)
        ensures
            match result {
                Ok(n) => infos_added(
                    App { cookie_count: n, ..*old(self) },
                    *final(self),
                    seq![crate::text::decimal(n as nat) + " cookies loaded."@],
                ),
                Err(e) => infos_added(*old(self), *final(self), seq!["Cookie reload failed: "@ + e@]),
            },
    {
        match result {
            Ok(n) => {
                self.cookie_count = n;
                let mut m = crate::text::decimal_chars(n as u64);
                crate::text::append_str(&mut m, " cookies loaded.");
                self.info(m);
            },
            Err(e) => {
                let mut m = crate::text::chars_of("Cookie reload failed: ");
                crate::text::append_str(&mut m, e.as_str());
                self.info(m);
            },
        }
    }
}

} // verus!

verus! {

/// What `/set <key> <value>` does, the line `echo` already logged: it changes the setting
/// and says so, or says what was wrong.
pub open spec fn set_outcome(o: App, f: App, echo: Seq<char>, key: Seq<char>, value: Seq<char>) -> bool {
    if key == "output"@ {
        infos_added(o, (App { output_dir: o.output_dir, ..f }), seq![echo, "output updated."@])
            && f.output_dir@ == value
    } else if key == "delay"@ {
        match crate::text::parse_unsigned(value, u64::MAX as nat) {
            Some(d) => infos_added(o, (App { delay_ms: o.delay_ms, ..f }), seq![echo, "delay updated."@])
                && f.delay_ms == d,
            None => infos_added(o, f, seq![echo, "Invalid delay value."@]),
        }
    } else if key == "max_pages"@ || key == "max-pages"@ {
        match crate::text::parse_unsigned(value, usize::MAX as nat) {
            Some(m) => infos_added(o, (App { max_pages: o.max_pages, ..f }), seq![echo, "max_pages updated."@])
                && f.max_pages == m,
            None => infos_added(o, f, seq![echo, "Invalid max_pages value."@]),
        }
    } else if key == "selector"@ {
        infos_added(o, (App { selector: o.selector, ..f }), seq![echo, "selector updated."@])
            && opt_view(f.selector) == Some(value)
    } else {
        infos_added(o, f, seq![echo, "Unknown config key: "@ + key])
    }
}

impl App {
    fn set_command(&mut self, key: String, value: String, Ghost(o): Ghost<App>, Ghost(e): Ghost<Seq<Seq<char>>>)
        requires
            e.len() == 1,
            infos_added(o, *old(self), e),
        ensures
            set_outcome(o, *final(self), e[0], key@, value@),
    {
        let k = crate::text::chars_of(key.as_str());
        if crate::text::chars_eq(k.as_slice(), crate::text::chars_of("output").as_slice()) {
            self.output_dir = value;
            self.add_info_str("output updated.", Ghost(App { output_dir: self.output_dir, ..o }), Ghost(e));
        } else if crate::text::chars_eq(k.as_slice(), crate::text::chars_of("delay").as_slice()) {
            match crate::text::parse_u64(crate::text::chars_of(value.as_str()).as_slice()) {
                Some(d) => {
                    self.delay_ms = d;
                    self.add_info_str("delay updated.", Ghost(App { delay_ms: d, ..o }), Ghost(e));
                },
                None => {
                    self.add_info_str("Invalid delay value.", Ghost(o), Ghost(e));
                },
            }
        } else if crate::text::chars_eq(k.as_slice(), crate::text::chars_of("max_pages").as_slice())
            || crate::text::chars_eq(k.as_slice(), crate::text::chars_of("max-pages").as_slice()) {
            match crate::text::parse_usize(crate::text::chars_of(value.as_str()).as_slice()) {
                Some(m) => {
                    self.max_pages = m;
                    self.add_info_str("max_pages updated.", Ghost(App { max_pages: m, ..o }), Ghost(e));
                },
                None => {
                    self.add_info_str("Invalid max_pages value.", Ghost(o), Ghost(e));
                },
            }
        } else if crate::text::chars_eq(k.as_slice(), crate::text::chars_of("selector").as_slice()) {
            self.selector = Some(value);
            self.add_info_str("selector updated.", Ghost(App { selector: self.selector, ..o }), Ghost(e));
        } else {
            let mut m = crate::text::chars_of("Unknown config key: ");
            crate::text::append_chars(&mut m, k.as_slice());
            self.add_info(m, Ghost(o), Ghost(e));
        }
    }
}

/// A scrape is running or paused.
pub open spec fn scrape_active(s: AppState) -> bool {
    s is Crawling || s is Paused
}

/// The interactive interface takes keys at the prompt and while a scrape is under way.
pub open spec fn accepts_keys(s: AppState) -> bool {
    s is Idle || scrape_active(s)
}

/// What `/status` reports of a scrape under way: its state, its URL and its progress.
pub open spec fn scrape_status(a: App) -> Seq<char> {
    (if a.state is Paused {
        "Paused: "@
    } else {
        "Scraping: "@
    }) + a.url@ + progress_label(a.progress.0 as nat, a.progress.1 as nat)
}

impl App {
    /// Runs a line typed at the prompt: an empty line does nothing; otherwise the line is
    /// echoed to the log (`> ` and the line) and the command it holds is carried out.
    #[verifier::spinoff_prover]
    #[verifier::rlimit(60)]
    pub fn run_command(&mut self, line: String, engine: &EngineKind) -> (act: UiAction)
        ensures
            line@.len() == 0 ==> *final(self) == *old(self) && act is Nothing,
            line@.len() > 0 ==> {
                let echo = "> "@ + line@;
                let o = *old(self);
                let f = *final(self);
                match crate::commands::command_of(line@) {
                    crate::commands::CommandView::Scrape { url, opts } => if scrape_active(o.state) {
                        infos_added(o, f, seq![echo, "A scrape is already running."@]) && act is Nothing
                    } else if web_url(url) {
                        &&& infos_added(
                            o,
                            (App {
                                url: o.url,
                                state: o.state,
                                progress: o.progress,
                                saved: o.saved,
                                failed: o.failed,
                                auth_failed: o.auth_failed,
                                ..f
                            }),
                            seq![echo],
                        )
                        &&& f.url@ == url
                        &&& f.state is Crawling
                        &&& f.progress == (0usize, 0usize)
                        &&& f.saved == 0 && f.failed == 0 && f.auth_failed == 0
                        &&& act matches UiAction::StartScrape { config, use_browser } && {
                            &&& config.max_pages == crate::config::or_default(opts.max_pages, o.max_pages as nat)
                            &&& opt_view(config.prefix) == opts.prefix
                            &&& config.delay_ms == crate::config::or_default(opts.delay, o.delay_ms as nat)
                            &&& opt_view(config.selector) == crate::config::first_set(
                                opts.selector,
                                opt_view(o.selector),
                                None,
                            )
                            &&& config.output_dir == o.output_dir
                            &&& config.base_url@ == url
                            &&& use_browser == (!opts.no_browser && *engine is BrowserLazy)
                        }
                    } else {
                        infos_added(o, f, seq![echo, "Invalid URL: must start with http:// or https://"@])
                            && act is Nothing
                    },
                    crate::commands::CommandView::Stop => if scrape_active(o.state) {
                        infos_added(o, f, seq![echo, "Stopping..."@]) && act is StopScrape
                    } else {
                        infos_added(o, f, seq![echo, "No scrape in progress."@]) && act is Nothing
                    },
                    crate::commands::CommandView::Status => if scrape_active(o.state) {
                        infos_added(o, f, seq![echo, scrape_status(o)]) && act is Nothing
                    } else {
                        infos_added(o, f, seq![echo, "Idle."@]) && act is Nothing
                    },
                    crate::commands::CommandView::Config => infos_added(o, f, seq![echo] + config_lines(o))
                        && act is Nothing,
                    crate::commands::CommandView::SetConfig { key, value } => act is Nothing && set_outcome(
                        o,
                        f,
                        echo,
                        key,
                        value,
                    ),
                    crate::commands::CommandView::Cookies => infos_added(o, f, seq![echo, "Reloading cookies..."@])
                        && act is ReloadCookies,
                    crate::commands::CommandView::Clear => f.log@.len() == 0 && f.scroll_offset == 0
                        && o.same_but_log(f) && act is Nothing,
                    crate::commands::CommandView::Help => infos_added(o, f, seq![echo] + help_lines())
                        && act is Nothing,
                    crate::commands::CommandView::Quit => infos_added(o, f, seq![echo]) && act is Quit,
                    crate::commands::CommandView::Unknown(m) => act is Nothing && if m.len() > 0 {
                        infos_added(o, f, seq![echo, m])
                    } else {
                        infos_added(o, f, seq![echo])
                    },
                }
            },
    {
        if line.as_str().is_empty() {
            return UiAction::Nothing;
        }
        let ghost o = *self;
        let mut echo = crate::text::chars_of("> ");
        crate::text::append_str(&mut echo, line.as_str());
        self.info(echo);
        let ghost e = seq!["> "@ + line@];
        assert(seq![echo@] == e);
        let (active, paused) = match self.state {
            AppState::Crawling => (true, false),
            AppState::Paused => (true, true),
            _ => (false, false),
        };
        match crate::commands::parse_command(line.as_str()) {
            crate::commands::Command::Scrape { url, max_pages, selector, prefix, delay, no_browser } => {
                if active {
                    self.add_info_str("A scrape is already running.", Ghost(o), Ghost(e));
                    return UiAction::Nothing;
                }
                let u = crate::text::chars_of(url.as_str());
                if !crate::text::has_prefix(u.as_slice(), crate::text::chars_of("http://").as_slice())
                    && !crate::text::has_prefix(u.as_slice(), crate::text::chars_of("https://").as_slice()) {
                    self.add_info_str("Invalid URL: must start with http:// or https://", Ghost(o), Ghost(e));
                    return UiAction::Nothing;
                }
                let effective_selector = match selector {
                    Some(s) => Some(s),
                    None => match &self.selector {
                        Some(s) => Some(s.clone()),
                        None => None,
                    },
                };
                let config = crate::crawler::CrawlConfig {
                    max_pages: match max_pages {
                        Some(m) => m,
                        None => self.max_pages,
                    },
                    prefix,
                    delay_ms: match delay {
                        Some(d) => d,
                        None => self.delay_ms,
                    },
                    selector: effective_selector,
                    output_dir: self.output_dir.clone(),
                    base_url: url.clone(),
                };
                let use_browser = !no_browser && match engine {
                    EngineKind::BrowserLazy => true,
                    EngineKind::Http => false,
                };
                self.reset_for_scrape(url);
                UiAction::StartScrape { config, use_browser }
            },
            crate::commands::Command::Stop => {
                if active {
                    self.add_info_str("Stopping...", Ghost(o), Ghost(e));
                    UiAction::StopScrape
                } else {
                    self.add_info_str("No scrape in progress.", Ghost(o), Ghost(e));
                    UiAction::Nothing
                }
            },
            crate::commands::Command::Status => {
                if active {
                    let mut m = if paused {
                        crate::text::chars_of("Paused: ")
                    } else {
                        crate::text::chars_of("Scraping: ")
                    };
                    crate::text::append_str(&mut m, self.url.as_str());
                    crate::text::append_chars(&mut m, progress_label_chars(self.progress.0, self.progress.1).as_slice());
                    self.add_info(m, Ghost(o), Ghost(e));
                } else {
                    self.add_info_str("Idle.", Ghost(o), Ghost(e));
                }
                UiAction::Nothing
            },
            crate::commands::Command::Config => {
                let ghost c = config_lines(o);
                let mut m1 = crate::text::chars_of("browser: ");
                crate::text::append_str(&mut m1, self.browser_name.as_str());
                self.add_info(m1, Ghost(o), Ghost(e));
                let mut m2 = crate::text::chars_of("output: ");
                crate::text::append_str(&mut m2, self.output_dir.as_str());
                self.add_info(m2, Ghost(o), Ghost(e.push(c[0])));
                let mut m3 = crate::text::chars_of("max_pages: ");
                crate::text::append_chars(&mut m3, crate::text::decimal_chars(self.max_pages as u64).as_slice());
                self.add_info(m3, Ghost(o), Ghost(e.push(c[0]).push(c[1])));
                let mut m4 = crate::text::chars_of("delay: ");
                crate::text::append_chars(&mut m4, crate::text::decimal_chars(self.delay_ms).as_slice());
                crate::text::append_str(&mut m4, "ms");
                self.add_info(m4, Ghost(o), Ghost(e.push(c[0]).push(c[1]).push(c[2])));
                let ghost four = e.push(c[0]).push(c[1]).push(c[2]).push(c[3]);
                match &self.selector {
                    Some(sel) => {
                        let mut m5 = crate::text::chars_of("selector: ");
                        crate::text::append_str(&mut m5, sel.as_str());
                        self.add_info(m5, Ghost(o), Ghost(four));
                        assert(four.push(c[4]) =~= e + c);
                    },
                    None => {
                        assert(four =~= e + c);
                    },
                }
                UiAction::Nothing
            },
            crate::commands::Command::SetConfig { key, value } => {
                self.set_command(key, value, Ghost(o), Ghost(e));
                UiAction::Nothing
            },
            crate::commands::Command::Cookies => {
                self.add_info_str("Reloading cookies...", Ghost(o), Ghost(e));
                UiAction::ReloadCookies
            },
            crate::commands::Command::Clear => {
                self.log.clear();
                self.scroll_offset = 0;
                UiAction::Nothing
            },
            crate::commands::Command::Help => {
                let ghost h = help_lines();
                self.add_info_str("/scrape <url> [-m N] [-s sel] [-p pfx] [-d ms] [--no-browser]", Ghost(o), Ghost(e));
                self.add_info_str("/stop or [Esc] — stop current scrape", Ghost(o), Ghost(e.push(h[0])));
                self.add_info_str("/status — show scrape status", Ghost(o), Ghost(e.push(h[0]).push(h[1])));
                self.add_info_str("/config — show current config", Ghost(o), Ghost(e.push(h[0]).push(h[1]).push(h[2])));
                self.add_info_str(
                    "/set <key> <value> — change config (output, delay, max_pages, selector)",
                    Ghost(o),
                    Ghost(e.push(h[0]).push(h[1]).push(h[2]).push(h[3])),
                );
                self.add_info_str("/cookies — reload browser cookies", Ghost(o), Ghost(e.push(h[0]).push(h[1]).push(h[2]).push(h[3]).push(h[4])));
                self.add_info_str("/clear — clear log", Ghost(o), Ghost(e.push(h[0]).push(h[1]).push(h[2]).push(h[3]).push(h[4]).push(h[5])));
                self.add_info_str("/quit — exit", Ghost(o), Ghost(e.push(h[0]).push(h[1]).push(h[2]).push(h[3]).push(h[4]).push(h[5]).push(h[6])));
                assert(e.push(h[0]).push(h[1]).push(h[2]).push(h[3]).push(h[4]).push(h[5]).push(h[6]).push(h[7]) =~= e + h);
                UiAction::Nothing
            },
            crate::commands::Command::Quit => UiAction::Quit,
            crate::commands::Command::Unknown(m) => {
                if !m.as_str().is_empty() {
                    self.add_info(crate::text::chars_of(m.as_str()), Ghost(o), Ghost(e));
                }
                UiAction::Nothing
            },
        }
    }
}

} // verus!

verus! {

impl App {
    /// A key in the interactive interface. Control-C always quits. At the prompt and while a
    /// scrape runs, keys edit the line (characters, Backspace, Delete, Left, Right), Up and Down
    /// scroll, and Enter submits the line; Esc clears the line at the prompt and asks a running
    /// scrape to stop. In any other state keys do nothing.
    pub fn interactive_key(&mut self, key: KeyPress) -> (act: UiAction)
        requires
            !key.is_ctrl_c() && accepts_keys(old(self).state) ==> match key.code {
                KeyCode::Char(_) => old(self).cursor_ok(),
                KeyCode::Backspace => old(self).cursor_pos <= old(self).in_bytes().len(),
                KeyCode::Delete => old(self).cursor_pos < old(self).in_bytes().len() ==> vstd::utf8::is_char_boundary(
                    old(self).in_bytes(),
                    old(self).cursor_pos as int,
                ),
                _ => true,
            },
        ensures
            old(self).cursor_ok() ==> final(self).cursor_ok(),
            key.is_ctrl_c() ==> act is Quit && *final(self) == *old(self),
            !key.is_ctrl_c() ==> {
                let o = *old(self);
                let f = *final(self);
                if !accepts_keys(o.state) {
                    f == o && act is Nothing
                } else {
                    match key.code {
                        KeyCode::Char(c) => (f.in_bytes(), f.cursor_pos as int) == after_typing(
                            o.in_bytes(),
                            o.cursor_pos as int,
                            c,
                        ) && o.same_but_input(f) && act is Nothing,
                        KeyCode::Backspace => (f.in_bytes(), f.cursor_pos as int) == after_backspace(
                            o.in_bytes(),
                            o.cursor_pos as int,
                        ) && o.same_but_input(f) && act is Nothing,
                        KeyCode::Delete => (f.in_bytes(), f.cursor_pos as int) == (if o.cursor_pos
                            >= o.in_bytes().len() {
                            (o.in_bytes(), o.cursor_pos as int)
                        } else {
                            (
                                o.in_bytes().take(o.cursor_pos as int) + o.in_bytes().skip(
                                    next_boundary(o.in_bytes(), o.cursor_pos + 1),
                                ),
                                o.cursor_pos as int,
                            )
                        }) && o.same_but_input(f) && act is Nothing,
                        KeyCode::Left => f == (App {
                            cursor_pos: (if o.cursor_pos == 0 {
                                0
                            } else {
                                prev_boundary(o.in_bytes(), o.cursor_pos as int)
                            }) as usize,
                            ..o
                        }) && act is Nothing,
                        KeyCode::Right => f == (App {
                            cursor_pos: (if o.cursor_pos >= o.in_bytes().len() {
                                o.cursor_pos as int
                            } else {
                                next_boundary(o.in_bytes(), o.cursor_pos + 1)
                            }) as usize,
                            ..o
                        }) && act is Nothing,
                        KeyCode::Esc => if o.state is Idle {
                            f.input@.len() == 0 && f.cursor_pos == 0 && o.same_but_input(f) && act is Nothing
                        } else {
                            infos_added(o, f, seq!["Stopping..."@]) && act is StopScrape
                        },
                        KeyCode::Up => f == (App {
                            scroll_offset: sat_sub(o.scroll_offset as int, 1) as usize,
                            ..o
                        }) && act is Nothing,
                        KeyCode::Down => f == (App {
                            scroll_offset: (if o.scroll_offset < o.log@.len() {
                                o.scroll_offset + 1
                            } else {
                                o.scroll_offset as int
                            }) as usize,
                            ..o
                        }) && act is Nothing,
                        KeyCode::Enter => act matches UiAction::Submit(line) && line == o.input
                            && f.input@.len() == 0 && f.cursor_pos == 0 && o.same_but_input(f),
                        KeyCode::Other => f == o && act is Nothing,
                    }
                }
            },
    {
        let ctrl_c = key.ctrl && match key.code {
            KeyCode::Char(c) => c == 'c',
            _ => false,
        };
        if ctrl_c {
            return UiAction::Quit;
        }
        proof {
            vstd::utf8::encode_utf8_valid_utf8(self.input@);
            if self.cursor_ok() {
                crate::utf8_facts::lemma_boundary_in_range(self.in_bytes(), self.cursor_pos as int);
            }
        }
        let (idle, running) = match self.state {
            AppState::Idle => (true, false),
            AppState::Crawling | AppState::Paused => (false, true),
            _ => (false, false),
        };
        if !idle && !running {
            return UiAction::Nothing;
        }
        match key.code {
            KeyCode::Char(c) => self.input_char(c),
            KeyCode::Backspace => self.input_backspace(),
            KeyCode::Delete => self.input_delete(),
            KeyCode::Left => self.move_cursor_left(),
            KeyCode::Right => self.move_cursor_right(),
            KeyCode::Esc => {
                if idle {
                    self.clear_input();
                } else {
                    self.info(crate::text::chars_of("Stopping..."));
                    return UiAction::StopScrape;
                }
            },
            KeyCode::Up => self.scroll_up(),
            KeyCode::Down => self.scroll_down(),
            KeyCode::Enter => {
                let line = self.submit_input();
                return UiAction::Submit(line);
            },
            KeyCode::Other => {},
        }
        UiAction::Nothing
    }
}

} // verus!

verus! {

/// The label after the progress bar: ` <cur>/<total> pages`, or ` <cur> pages` with no total.
pub open spec fn progress_label(cur: nat, total: nat) -> Seq<char> {
    if total > 0 {
        " "@ + crate::text::decimal(cur) + "/"@ + crate::text::decimal(total) + " pages"@
    } else {
        " "@ + crate::text::decimal(cur) + " pages"@
    }
}

/// The columns the bar itself takes: what the label (its length as a `u16`) and one
/// column leave of `width`.
pub open spec fn progress_columns(cur: nat, total: nat, width: u16) -> nat {
    sat_sub(sat_sub(width as int, (progress_label(cur, total).len() as u16) as int), 1) as nat
}

/// The progress bar in `width` columns: its label, and how many columns are filled and
/// empty. The bar takes what the label and one column leave; the filled part is the done
/// share of it (none without a total).
pub open spec fn progress_parts(cur: nat, total: nat, width: u16) -> (Seq<char>, nat, nat) {
    let label = progress_label(cur, total);
    let bar = progress_columns(cur, total, width);
    let filled = if total > 0 {
        let f = (cur * bar / total) as nat;
        if f < bar {
            f
        } else {
            bar
        }
    } else {
        0
    };
    (label, filled, (bar - filled) as nat)
}

/// The label after the progress bar.
fn progress_label_chars(cur: usize, total: usize) -> (label: Vec<char>)
    ensures
        label@ == progress_label(cur as nat, total as nat),
{
    let mut label = crate::text::chars_of(" ");
    crate::text::append_chars(&mut label, crate::text::decimal_chars(cur as u64).as_slice());
    if total > 0 {
        crate::text::append_str(&mut label, "/");
        crate::text::append_chars(&mut label, crate::text::decimal_chars(total as u64).as_slice());
    }
    crate::text::append_str(&mut label, " pages");
    label
}

impl App {
    /// The progress bar to draw, none at the prompt.
    pub fn progress_layout(&self, width: u16) -> (r: Option<(String, usize, usize)>)
        requires
            !(self.state is Idle) && self.progress.1 > 0 ==> self.progress.0 * progress_columns(
                self.progress.0 as nat,
                self.progress.1 as nat,
                width,
            ) <= usize::MAX,
        ensures
            self.state is Idle ==> r is None,
            !(self.state is Idle) ==> (r matches Some((label, filled, empty)) && (label@, filled as nat,
                empty as nat) == progress_parts(self.progress.0 as nat, self.progress.1 as nat, width)),
    {
        match self.state {
            AppState::Idle => return None,
            _ => {},
        }
        let (cur, total) = self.progress;
        let label = progress_label_chars(cur, total);
        let label_len = #[verifier::truncate] (label.len() as u16);
        let bar_width = (width.saturating_sub(label_len)).saturating_sub(1) as usize;
        let filled = if total > 0 {
            assert(label@ == progress_label(cur as nat, total as nat));
            let f = cur * bar_width / total;
            if f < bar_width {
                f
            } else {
                bar_width
            }
        } else {
            0
        };
        Some((crate::text::string_from(label.as_slice()), filled, bar_width - filled))
    }
}

} // verus!
