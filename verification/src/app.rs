//! The state shown by the terminal interface: the scrape's status, its log,
//! and the line being typed at the prompt.
use vstd::prelude::*;
use vstd::utf8::{encode_utf8, is_char_boundary};
use crate::text::char_len_utf8;

verus! {

broadcast use vstd::utf8::encode_utf8_valid_utf8, vstd::utf8::is_char_boundary_start_end_of_seq;

/// Where a scrape stands.
#[derive(Debug)]
pub enum AppState {
    Idle,
    Crawling,
    Paused,
    Done,
    Error(String),
}

/// The outcome a log line reports.
#[derive(Debug)]
pub enum LogStatus {
    Saved,
    Error,
    AuthFail(u16),
    Visiting,
    Info(String),
    Banner(String),
}

/// One line of the log.
#[derive(Debug)]
pub struct LogEntry {
    pub status: LogStatus,
    pub url: String,
    pub filepath: Option<String>,
    pub message: Option<String>,
}

/// The terminal interface's state.
pub struct App {
    pub state: AppState,
    pub url: String,
    pub browser_name: String,
    pub cookie_count: usize,
    pub log: Vec<LogEntry>,
    pub progress: (usize, usize),
    pub scroll_offset: usize,
    pub output_dir: String,
    pub delay_ms: u64,
    pub max_pages: usize,
    pub saved: usize,
    pub failed: usize,
    pub auth_failed: usize,
    pub input: String,
    pub cursor_pos: usize,
    pub interactive: bool,
    pub selector: Option<String>,
    pub spinner_frame: usize,
}

/// The most log lines kept; older lines are dropped first.
pub const LOG_CAP: usize = 10_000;

/// `a - b`, or 0 when `b > a` (`usize::saturating_sub`).
pub open spec fn sat_sub(a: int, b: int) -> int {
    if a >= b {
        a - b
    } else {
        0
    }
}

/// The view follows the newest line: the log is empty or the offset is at (or past) its last line.
pub open spec fn at_bottom(len: int, offset: int) -> bool {
    len == 0 || offset >= sat_sub(len, 1)
}

/// The log after appending `e` and dropping the oldest lines beyond `LOG_CAP`.
pub open spec fn log_after_push(log: Seq<LogEntry>, e: LogEntry) -> Seq<LogEntry> {
    let pushed = log.push(e);
    if pushed.len() > LOG_CAP {
        pushed.skip(pushed.len() - LOG_CAP)
    } else {
        pushed
    }
}

/// The scroll offset after appending a line to a log of `len` lines viewed at `offset`.
pub open spec fn offset_after_push(len: int, offset: int) -> int {
    let n = len + 1;
    if at_bottom(len, offset) {
        if n > LOG_CAP {
            LOG_CAP as int
        } else {
            n
        }
    } else if n > LOG_CAP {
        sat_sub(offset, n - LOG_CAP)
    } else {
        offset
    }
}

/// The window `[start, end)` of the log shown in `height` rows: an offset at or past the
/// end shows the last `height` lines.
pub open spec fn visible_window(len: int, offset: int, height: int) -> (int, int) {
    if len == 0 || height == 0 {
        (0, 0)
    } else {
        let start = if offset >= len {
            sat_sub(len, height)
        } else {
            offset
        };
        let end = if start + height < len {
            start + height
        } else {
            len
        };
        (start, end)
    }
}

/// The state after pause/resume: running becomes paused, paused becomes running, and any
/// other state stays.
pub open spec fn toggled(s: AppState) -> AppState {
    match s {
        AppState::Crawling => AppState::Paused,
        AppState::Paused => AppState::Crawling,
        _ => s,
    }
}

/// Pausing and then resuming (or the reverse) gives back the state it started from.
pub proof fn lemma_toggle_twice(s: AppState)
    ensures
        toggled(toggled(s)) == s,
{
}

/// The log never holds more than `LOG_CAP` lines: a push onto a log within the cap stays
/// within it, ends with the new line, and keeps the newest of the old lines in order.
pub proof fn lemma_log_capped(log: Seq<LogEntry>, e: LogEntry)
    requires
        log.len() <= LOG_CAP,
    ensures
        ({
            let r = log_after_push(log, e);
            &&& r.len() == if log.len() < LOG_CAP { log.len() + 1int } else { LOG_CAP as int }
            &&& r.last() == e
            &&& r.drop_last() == log.skip(log.len() - (r.len() - 1))
        }),
{
    let r = log_after_push(log, e);
    assert(r.drop_last() =~= log.skip(log.len() - (r.len() - 1)));
}

/// A view that follows the newest line keeps following it after a push.
pub proof fn lemma_push_keeps_following(len: int, offset: int)
    requires
        0 <= len <= LOG_CAP,
        at_bottom(len, offset),
    ensures
        at_bottom(if len < LOG_CAP { len + 1 } else { LOG_CAP as int }, offset_after_push(len, offset)),
{
}

/// The UTF-8 bytes of the text at the prompt.
pub open spec fn input_bytes(s: Seq<char>) -> Seq<u8> {
    encode_utf8(s)
}

/// The last character boundary of `b` strictly before `pos` (0 when there is none).
pub open spec fn prev_boundary(b: Seq<u8>, pos: int) -> int
    decreases pos,
{
    if pos <= 0 {
        0
    } else if is_char_boundary(b, pos - 1) {
        pos - 1
    } else {
        prev_boundary(b, pos - 1)
    }
}

/// The first character boundary of `b` at or after `pos` (the end when there is none).
pub open spec fn next_boundary(b: Seq<u8>, pos: int) -> int
    decreases b.len() - pos,
{
    if pos >= b.len() {
        b.len() as int
    } else if is_char_boundary(b, pos) {
        pos
    } else {
        next_boundary(b, pos + 1)
    }
}

proof fn lemma_prev_boundary(b: Seq<u8>, pos: int)
    requires
        vstd::utf8::valid_utf8(b),
        pos > 0,
    ensures
        is_char_boundary(b, prev_boundary(b, pos)),
        0 <= prev_boundary(b, pos) < pos,
    decreases pos,
{
    if pos - 1 > 0 && !is_char_boundary(b, pos - 1) {
        lemma_prev_boundary(b, pos - 1);
    }
}

proof fn lemma_next_boundary(b: Seq<u8>, pos: int)
    requires
        vstd::utf8::valid_utf8(b),
        0 <= pos,
    ensures
        is_char_boundary(b, next_boundary(b, pos)),
        next_boundary(b, pos) <= b.len(),
        pos <= b.len() ==> pos <= next_boundary(b, pos),
    decreases b.len() - pos,
{
    if pos < b.len() && !is_char_boundary(b, pos) {
        lemma_next_boundary(b, pos + 1);
    }
}

/// No character boundary lies from `pos` up to `next_boundary(b, pos)`.
proof fn lemma_next_first(b: Seq<u8>, pos: int)
    ensures
        forall|j: int| pos <= j < next_boundary(b, pos) ==> !is_char_boundary(b, j),
    decreases b.len() - pos,
{
    if pos < b.len() && !is_char_boundary(b, pos) {
        lemma_next_first(b, pos + 1);
    }
}

/// No character boundary lies strictly between `prev_boundary(b, pos)` and `pos`.
proof fn lemma_prev_last(b: Seq<u8>, pos: int)
    ensures
        forall|j: int| prev_boundary(b, pos) < j < pos ==> !is_char_boundary(b, j),
    decreases pos,
{
    if pos > 0 && !is_char_boundary(b, pos - 1) {
        lemma_prev_last(b, pos - 1);
    }
}

/// Moving the cursor right and then left gives back a cursor that stood on a character
/// boundary before the end of the line.
pub proof fn lemma_right_then_left(s: Seq<char>, p: int)
    requires
        is_char_boundary(encode_utf8(s), p),
        p < encode_utf8(s).len(),
    ensures
        prev_boundary(encode_utf8(s), next_boundary(encode_utf8(s), p + 1)) == p,
{
    let b = encode_utf8(s);
    vstd::utf8::encode_utf8_valid_utf8(s);
    crate::utf8_facts::lemma_boundary_in_range(b, p);
    lemma_next_boundary(b, p + 1);
    lemma_next_first(b, p + 1);
    lemma_prev_over(b, p, next_boundary(b, p + 1));
}

/// Moving the cursor left and then right gives back a cursor that stood on a character
/// boundary after the start of the line.
pub proof fn lemma_left_then_right(s: Seq<char>, p: int)
    requires
        is_char_boundary(encode_utf8(s), p),
        p > 0,
    ensures
        next_boundary(encode_utf8(s), prev_boundary(encode_utf8(s), p) + 1) == p,
{
    let b = encode_utf8(s);
    vstd::utf8::encode_utf8_valid_utf8(s);
    crate::utf8_facts::lemma_boundary_in_range(b, p);
    lemma_prev_boundary(b, p);
    lemma_prev_last(b, p);
    lemma_next_over(b, prev_boundary(b, p) + 1, p);
}

/// The input bytes and cursor after typing `c` at cursor `p`.
pub open spec fn after_typing(b: Seq<u8>, p: int, c: char) -> (Seq<u8>, int) {
    (b.take(p) + encode_utf8(seq![c]) + b.skip(p), p + encode_utf8(seq![c]).len())
}

/// The input bytes and cursor after a backspace at cursor `p`: the character holding the byte
/// before the cursor is removed and the cursor moves to where it began.
pub open spec fn after_backspace(b: Seq<u8>, p: int) -> (Seq<u8>, int) {
    if p <= 0 {
        (b, p)
    } else {
        let q = prev_boundary(b, p);
        (b.take(q) + b.skip(next_boundary(b, q + 1)), q)
    }
}

proof fn lemma_prev_over(x: Seq<u8>, p: int, q: int)
    requires
        vstd::utf8::valid_utf8(x),
        0 <= p < q,
        is_char_boundary(x, p),
        forall|j: int| p < j < q ==> !is_char_boundary(x, j),
    ensures
        prev_boundary(x, q) == p,
    decreases q - p,
{
    if q - 1 > p {
        assert(!is_char_boundary(x, q - 1));
        lemma_prev_over(x, p, q - 1);
    }
}

proof fn lemma_next_over(x: Seq<u8>, p: int, q: int)
    requires
        vstd::utf8::valid_utf8(x),
        0 <= p <= q <= x.len(),
        is_char_boundary(x, q),
        forall|j: int| p <= j < q ==> !is_char_boundary(x, j),
    ensures
        next_boundary(x, p) == q,
    decreases q - p,
{
    if p < q {
        assert(!is_char_boundary(x, p));
        lemma_next_over(x, p + 1, q);
    }
}

/// Backspace undoes typing: typing a character at a cursor on a character boundary and then
/// pressing backspace gives back the same line and cursor.
pub proof fn lemma_backspace_undoes_typing(s: Seq<char>, p: int, c: char)
    requires
        is_char_boundary(encode_utf8(s), p),
    ensures
        ({
            let (b1, p1) = after_typing(encode_utf8(s), p, c);
            after_backspace(b1, p1) == (encode_utf8(s), p)
        }),
{
    let b = encode_utf8(s);
    let e = encode_utf8(seq![c]);
    let (x, p1) = after_typing(b, p, c);
    crate::utf8_facts::lemma_splice_boundaries(b, p, e);
    crate::utf8_facts::lemma_boundary_in_range(b, p);
    assert(e.len() >= 1) by {
        assert(e =~= vstd::utf8::encode_scalar(c as u32) + encode_utf8(seq![c].drop_first()));
    }
    assert forall|j: int| p < j < p1 implies !is_char_boundary(x, j) by {
        crate::utf8_facts::lemma_encoding_tail(c, j - p);
        assert(x[j] == e[j - p]);
        vstd::utf8::is_char_boundary_iff_not_is_continuation_byte(x, j);
    }
    lemma_prev_over(x, p, p1);
    lemma_next_over(x, p + 1, p1);
    assert(x.take(p) + x.skip(p1) =~= b);
}

/// std `String::insert`: puts `c` into the string at byte position `idx`, which must be a
/// character boundary. Trusted: the new bytes are the old ones with `c`'s encoding spliced in at `idx`.
#[verifier::external_body]
fn string_insert(s: &mut String, idx: usize, c: char)
    requires
        is_char_boundary(encode_utf8(old(s)@), idx as int),
    ensures
        encode_utf8(final(s)@) == encode_utf8(old(s)@).take(idx as int) + encode_utf8(seq![c])
            + encode_utf8(old(s)@).skip(idx as int),
{
    s.insert(idx, c);
}

/// std `String::remove`: takes out the character that starts at byte position `idx`, which must be
/// a character boundary before the end. Trusted: the bytes of that character, up to the next
/// boundary, are gone and nothing else changes.
#[verifier::external_body]
fn string_remove(s: &mut String, idx: usize)
    requires
        is_char_boundary(encode_utf8(old(s)@), idx as int),
        idx < encode_utf8(old(s)@).len(),
    ensures
        encode_utf8(final(s)@) == encode_utf8(old(s)@).take(idx as int) + encode_utf8(
            old(s)@,
        ).skip(next_boundary(encode_utf8(old(s)@), idx + 1)),
{
    s.remove(idx);
}


/// std `String::clear`. Trusted: the string becomes empty.
#[verifier::external_body]
fn string_clear(s: &mut String)
    ensures
        final(s)@ == Seq::<char>::empty(),
{
    s.clear();
}

impl App {
    /// Fields of `self` other than the log and the scroll offset are those of `other`.
    pub open spec fn same_but_log(self, other: App) -> bool {
        (App { log: other.log, scroll_offset: other.scroll_offset, ..self }) == other
    }

    /// A fresh interface for a scrape of `url` that starts at once.
    pub fn new(
        url: String,
        browser_name: String,
        cookie_count: usize,
        output_dir: String,
        delay_ms: u64,
        max_pages: usize,
    ) -> (app: Self)
        ensures
            app.state is Crawling,
            app.url == url,
            app.browser_name == browser_name,
            app.cookie_count == cookie_count,
            app.log@.len() == 0,
            app.progress == (0usize, 0usize),
            app.scroll_offset == 0,
            app.output_dir == output_dir,
            app.delay_ms == delay_ms,
            app.max_pages == max_pages,
            app.saved == 0 && app.failed == 0 && app.auth_failed == 0,
            app.input@.len() == 0,
            app.cursor_pos == 0,
            !app.interactive,
            app.selector is None,
            app.spinner_frame == 0,
    {
        App {
            state: AppState::Crawling,
            url,
            browser_name,
            cookie_count,
            log: Vec::new(),
            progress: (0, 0),
            scroll_offset: 0,
            output_dir,
            delay_ms,
            max_pages,
            saved: 0,
            failed: 0,
            auth_failed: 0,
            input: String::new(),
            cursor_pos: 0,
            interactive: false,
            selector: None,
            spinner_frame: 0,
        }
    }

    /// A fresh interface waiting at the prompt.
    pub fn new_interactive(
        browser_name: String,
        cookie_count: usize,
        output_dir: String,
        delay_ms: u64,
        max_pages: usize,
    ) -> (app: Self)
        ensures
            app.state is Idle,
            app.url@.len() == 0,
            app.browser_name == browser_name,
            app.cookie_count == cookie_count,
            app.log@.len() == 0,
            app.progress == (0usize, 0usize),
            app.scroll_offset == 0,
            app.output_dir == output_dir,
            app.delay_ms == delay_ms,
            app.max_pages == max_pages,
            app.saved == 0 && app.failed == 0 && app.auth_failed == 0,
            app.input@.len() == 0,
            app.cursor_pos == 0,
            app.interactive,
            app.selector is None,
            app.spinner_frame == 0,
    {
        App {
            state: AppState::Idle,
            url: String::new(),
            browser_name,
            cookie_count,
            log: Vec::new(),
            progress: (0, 0),
            scroll_offset: 0,
            output_dir,
            delay_ms,
            max_pages,
            saved: 0,
            failed: 0,
            auth_failed: 0,
            input: String::new(),
            cursor_pos: 0,
            interactive: true,
            selector: None,
            spinner_frame: 0,
        }
    }

    /// Appends a line to the log, dropping the oldest beyond `LOG_CAP`; a view that was
    /// following the newest line keeps following it.
    pub fn push_log(&mut self, entry: LogEntry)
        ensures
            final(self).log@ == log_after_push(old(self).log@, entry),
            final(self).scroll_offset == offset_after_push(
                old(self).log@.len() as int,
                old(self).scroll_offset as int,
            ),
            old(self).same_but_log(*final(self)),
    {
        let len0 = self.log.len();
        let at_bottom = len0 == 0 || self.scroll_offset >= len0.saturating_sub(1);
        self.log.push(entry);
        if self.log.len() > LOG_CAP {
            let excess = self.log.len() - LOG_CAP;
            let kept = self.log.split_off(excess);
            self.log = kept;
            self.scroll_offset = self.scroll_offset.saturating_sub(excess);
        }
        if at_bottom {
            self.scroll_offset = self.log.len();
        }
    }

    /// Logs an information line carrying `msg`.
    pub fn push_info(&mut self, msg: String)
        ensures
            final(self).log@ == log_after_push(old(self).log@, final(self).log@.last()),
            final(self).log@.last().is_text_line(LogStatus::Info(msg), msg),
            final(self).scroll_offset == offset_after_push(
                old(self).log@.len() as int,
                old(self).scroll_offset as int,
            ),
            old(self).same_but_log(*final(self)),
    {
        let m2 = msg.clone();
        self.push_log(
            LogEntry { status: LogStatus::Info(msg), url: String::new(), filepath: None, message: Some(m2) },
        );
    }

    /// Logs a banner line carrying `msg`.
    pub fn push_banner(&mut self, msg: String)
        ensures
            final(self).log@ == log_after_push(old(self).log@, final(self).log@.last()),
            final(self).log@.last().is_text_line(LogStatus::Banner(msg), msg),
            final(self).scroll_offset == offset_after_push(
                old(self).log@.len() as int,
                old(self).scroll_offset as int,
            ),
            old(self).same_but_log(*final(self)),
    {
        let m2 = msg.clone();
        self.push_log(
            LogEntry { status: LogStatus::Banner(msg), url: String::new(), filepath: None, message: Some(m2) },
        );
    }
}

impl App {
    /// Records the crawl's progress as `(current, total)`.
    pub fn set_progress(&mut self, current: usize, total: usize)
        ensures
            *final(self) == (App { progress: (current, total), ..*old(self) }),
    {
        self.progress = (current, total);
    }

    /// Pauses a running scrape or resumes a paused one; any other state is left alone.
    pub fn toggle_pause(&mut self)
        ensures
            *final(self) == (App { state: toggled(old(self).state), ..*old(self) }),
    {
        self.state = match self.state {
            AppState::Crawling => AppState::Paused,
            AppState::Paused => AppState::Crawling,
            _ => return ,
        };
    }

    /// Marks the scrape finished with its final counts.
    pub fn set_done(&mut self, saved: usize, failed: usize, auth_failed: usize)
        ensures
            *final(self) == (App { saved, failed, auth_failed, state: AppState::Done, ..*old(self) }),
    {
        self.saved = saved;
        self.failed = failed;
        self.auth_failed = auth_failed;
        self.state = AppState::Done;
    }

    /// Marks the scrape failed with a message.
    pub fn set_error(&mut self, msg: String)
        ensures
            *final(self) == (App { state: AppState::Error(msg), ..*old(self) }),
    {
        self.state = AppState::Error(msg);
    }

    /// Starts showing a new scrape of `url`: running, with progress and counts at zero.
    pub fn reset_for_scrape(&mut self, url: String)
        ensures
            *final(self) == (App {
                url,
                state: AppState::Crawling,
                progress: (0usize, 0usize),
                saved: 0usize,
                failed: 0usize,
                auth_failed: 0usize,
                ..*old(self)
            }),
    {
        self.url = url;
        self.state = AppState::Crawling;
        self.progress = (0, 0);
        self.saved = 0;
        self.failed = 0;
        self.auth_failed = 0;
    }

    /// Returns to the prompt.
    pub fn back_to_idle(&mut self)
        ensures
            *final(self) == (App { state: AppState::Idle, ..*old(self) }),
    {
        self.state = AppState::Idle;
    }

    /// Fields of `self` other than the input line and its cursor are those of `other`.
    pub open spec fn same_but_input(self, other: App) -> bool {
        (App { input: other.input, cursor_pos: other.cursor_pos, ..self }) == other
    }

    /// The UTF-8 bytes of the input line.
    pub open spec fn in_bytes(self) -> Seq<u8> {
        input_bytes(self.input@)
    }

    /// The cursor stands on a character boundary of the input line.
    pub open spec fn cursor_ok(self) -> bool {
        is_char_boundary(self.in_bytes(), self.cursor_pos as int)
    }

    /// Types `c` at the cursor, which must stand on a character boundary; the cursor moves past it.
    pub fn input_char(&mut self, c: char)
        requires
            old(self).cursor_ok(),
        ensures
            final(self).in_bytes() == old(self).in_bytes().take(old(self).cursor_pos as int)
                + encode_utf8(seq![c]) + old(self).in_bytes().skip(old(self).cursor_pos as int),
            final(self).cursor_pos == old(self).cursor_pos + encode_utf8(seq![c]).len(),
            (final(self).in_bytes(), final(self).cursor_pos as int) == after_typing(
                old(self).in_bytes(),
                old(self).cursor_pos as int,
                c,
            ),
            final(self).cursor_ok(),
            old(self).same_but_input(*final(self)),
    {
        proof {
            crate::utf8_facts::lemma_splice_boundaries(
                old(self).in_bytes(),
                old(self).cursor_pos as int,
                encode_utf8(seq![c]),
            );
            crate::utf8_facts::lemma_boundary_in_range(old(self).in_bytes(), old(self).cursor_pos as int);
        }
        string_insert(&mut self.input, self.cursor_pos, c);
        // The new line's length in bytes, a `usize`, bounds the new cursor.
        let new_len = self.input.as_str().as_bytes().len();
        assert(self.cursor_pos + encode_utf8(seq![c]).len() <= new_len);
        self.cursor_pos = self.cursor_pos + char_len_utf8(c);
    }

    /// Deletes the character before the cursor (the one holding the byte just before it) and
    /// moves the cursor to where that character began; does nothing at the start of the line.
    pub fn input_backspace(&mut self)
        requires
            old(self).cursor_pos <= old(self).in_bytes().len(),
        ensures
            old(self).cursor_pos == 0 ==> *final(self) == *old(self),
            (final(self).in_bytes(), final(self).cursor_pos as int) == after_backspace(
                old(self).in_bytes(),
                old(self).cursor_pos as int,
            ),
            old(self).cursor_pos > 0 ==> {
                let b = old(self).in_bytes();
                let p = prev_boundary(b, old(self).cursor_pos as int);
                &&& final(self).in_bytes() == b.take(p) + b.skip(next_boundary(b, p + 1))
                &&& final(self).cursor_pos == p
                &&& final(self).cursor_ok()
            },
            old(self).same_but_input(*final(self)),
    {
        if self.cursor_pos == 0 {
            return ;
        }
        let pos = self.prev_char_start();
        proof {
            let b = old(self).in_bytes();
            lemma_next_boundary(b, pos + 1);
            crate::utf8_facts::lemma_cut_boundary(b, pos as int, next_boundary(b, pos + 1));
        }
        string_remove(&mut self.input, pos);
        self.cursor_pos = pos;
    }

    /// The last character boundary before the cursor.
    fn prev_char_start(&self) -> (pos: usize)
        requires
            self.cursor_pos > 0,
        ensures
            pos == prev_boundary(self.in_bytes(), self.cursor_pos as int),
            pos < self.cursor_pos,
            is_char_boundary(self.in_bytes(), pos as int),
    {
        let s = self.input.as_str();
        let mut pos = self.cursor_pos - 1;
        while !s.is_char_boundary(pos)
            invariant
                pos < self.cursor_pos,
                s@ == self.input@,
                prev_boundary(self.in_bytes(), self.cursor_pos as int) == prev_boundary(
                    self.in_bytes(),
                    pos + 1,
                ),
            decreases pos,
        {
            pos = pos - 1;
        }
        pos
    }

    /// Deletes the character at the cursor; does nothing at the end of the line. The cursor
    /// must stand on a character boundary.
    pub fn input_delete(&mut self)
        requires
            old(self).cursor_pos < old(self).in_bytes().len() ==> is_char_boundary(
                old(self).in_bytes(),
                old(self).cursor_pos as int,
            ),
        ensures
            old(self).cursor_pos >= old(self).in_bytes().len() ==> *final(self) == *old(self),
            old(self).cursor_pos < old(self).in_bytes().len() ==> {
                let b = old(self).in_bytes();
                let p = old(self).cursor_pos as int;
                &&& final(self).in_bytes() == b.take(p) + b.skip(next_boundary(b, p + 1))
                &&& final(self).cursor_pos == p
                &&& final(self).cursor_ok()
            },
            old(self).same_but_input(*final(self)),
    {
        if self.cursor_pos >= self.input.as_str().as_bytes().len() {
            return ;
        }
        let p = self.cursor_pos;
        proof {
            let b = old(self).in_bytes();
            lemma_next_boundary(b, p + 1);
            crate::utf8_facts::lemma_cut_boundary(b, p as int, next_boundary(b, p + 1));
        }
        string_remove(&mut self.input, p);
    }

    /// Moves the cursor to the previous character boundary; does nothing at the start.
    pub fn move_cursor_left(&mut self)
        ensures
            (old(self).cursor_pos > 0 || old(self).cursor_ok()) ==> final(self).cursor_ok(),
            old(self).cursor_pos == 0 ==> *final(self) == *old(self),
            old(self).cursor_pos > 0 ==> *final(self) == (App {
                cursor_pos: prev_boundary(old(self).in_bytes(), old(self).cursor_pos as int) as usize,
                ..*old(self)
            }),
    {
        if self.cursor_pos == 0 {
            return ;
        }
        let pos = self.prev_char_start();
        self.cursor_pos = pos;
    }

    /// Moves the cursor to the next character boundary; does nothing at the end.
    pub fn move_cursor_right(&mut self)
        ensures
            (old(self).cursor_pos < old(self).in_bytes().len() || old(self).cursor_ok()) ==> final(self).cursor_ok(),
            old(self).cursor_pos >= old(self).in_bytes().len() ==> *final(self) == *old(self),
            old(self).cursor_pos < old(self).in_bytes().len() ==> *final(self) == (App {
                cursor_pos: next_boundary(old(self).in_bytes(), old(self).cursor_pos + 1) as usize,
                ..*old(self)
            }),
    {
        let s = self.input.as_str();
        let n = s.as_bytes().len();
        if self.cursor_pos >= n {
            return ;
        }
        let mut pos = self.cursor_pos + 1;
        while !s.is_char_boundary(pos)
            invariant
                old(self).cursor_pos < pos,
                s@ == self.input@,
                self.cursor_pos == old(self).cursor_pos,
                pos <= input_bytes(s@).len(),
                n == input_bytes(s@).len(),
                next_boundary(input_bytes(s@), self.cursor_pos + 1) == next_boundary(
                    input_bytes(s@),
                    pos as int,
                ),
            decreases input_bytes(s@).len() - pos,
        {
            assert(is_char_boundary(input_bytes(s@), input_bytes(s@).len() as int));
            pos = pos + 1;
        }
        proof {
            lemma_next_boundary(input_bytes(s@), old(self).cursor_pos + 1);
        }
        self.cursor_pos = pos;
    }

    /// Takes the typed line, leaving the prompt empty.
    pub fn submit_input(&mut self) -> (line: String)
        ensures
            line == old(self).input,
            final(self).input@.len() == 0,
            final(self).cursor_ok(),
            final(self).cursor_pos == 0,
            old(self).same_but_input(*final(self)),
    {
        let val = self.input.clone();
        string_clear(&mut self.input);
        self.cursor_pos = 0;
        val
    }

    /// Empties the prompt.
    pub fn clear_input(&mut self)
        ensures
            final(self).input@.len() == 0,
            final(self).cursor_ok(),
            final(self).cursor_pos == 0,
            old(self).same_but_input(*final(self)),
    {
        string_clear(&mut self.input);
        self.cursor_pos = 0;
    }

    /// Scrolls one line up (towards older lines), stopping at the top.
    pub fn scroll_up(&mut self)
        ensures
            *final(self) == (App {
                scroll_offset: sat_sub(old(self).scroll_offset as int, 1) as usize,
                ..*old(self)
            }),
    {
        self.scroll_offset = self.scroll_offset.saturating_sub(1);
    }

    /// Scrolls one line down, up to one past the last line.
    pub fn scroll_down(&mut self)
        ensures
            old(self).scroll_offset < old(self).log@.len() ==> *final(self) == (App {
                scroll_offset: (old(self).scroll_offset + 1) as usize,
                ..*old(self)
            }),
            old(self).scroll_offset >= old(self).log@.len() ==> *final(self) == *old(self),
    {
        if self.scroll_offset < self.log.len() {
            self.scroll_offset += 1;
        }
    }

    /// The log lines shown in `height` rows.
    pub fn visible_log(&self, height: usize) -> (lines: &[LogEntry])
        ensures
            ({
                let (a, b) = visible_window(
                    self.log@.len() as int,
                    self.scroll_offset as int,
                    height as int,
                );
                lines@ == self.log@.subrange(a, b)
            }),
    {
        if self.log.len() == 0 || height == 0 {
            return &[];
        }
        let start = if self.scroll_offset >= self.log.len() {
            self.log.len().saturating_sub(height)
        } else {
            self.scroll_offset
        };
        let end = if height < self.log.len() - start {
            start + height
        } else {
            self.log.len()
        };
        vstd::slice::slice_subrange(self.log.as_slice(), start, end)
    }
}

impl LogEntry {
    /// A line with the given status and message, no URL and no file.
    pub open spec fn is_text_line(self, status: LogStatus, msg: String) -> bool {
        &&& self.status == status
        &&& self.url@.len() == 0
        &&& self.filepath is None
        &&& self.message == Some(msg)
    }
}

} // verus!
