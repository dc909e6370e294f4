//! What the terminal interface shows, as text and colour: the header, the status line, the
//! log lines, the prompt and the key hints. The terminal front end only lays these out.
use vstd::prelude::*;
use crate::app::{App, AppState, LogEntry, LogStatus};
use crate::text::{append_chars, append_str, chars_of, decimal, decimal_chars, string_from};

verus! {

/// The colours the interface uses.
#[derive(PartialEq, Eq, Structural, Clone, Copy, Debug)]
pub enum Tone {
    Magenta,
    Cyan,
    Green,
    Red,
    Yellow,
    Blue,
    White,
    DarkGray,
}

/// A run of text in one colour.
pub struct Piece {
    pub text: String,
    pub tone: Tone,
}

impl Piece {
    /// The piece's text and colour.
    pub open spec fn view(&self) -> (Seq<char>, Tone) {
        (self.text@, self.tone)
    }
}

/// The text and colour of each piece.
pub open spec fn pieces(v: Seq<Piece>) -> Seq<(Seq<char>, Tone)> {
    v.map_values(|p: Piece| p.view())
}

/// The frames of the braille spinner.
pub open spec fn spinner_glyph(i: int) -> Seq<char> {
    if i == 0 {
        "⠋"@
    } else if i == 1 {
        "⠙"@
    } else if i == 2 {
        "⠹"@
    } else if i == 3 {
        "⠸"@
    } else if i == 4 {
        "⠼"@
    } else if i == 5 {
        "⠴"@
    } else if i == 6 {
        "⠦"@
    } else if i == 7 {
        "⠧"@
    } else if i == 8 {
        "⠇"@
    } else {
        "⠏"@
    }
}

/// The spinner frame shown at tick `frame`; the ten frames repeat.
pub fn spinner(frame: usize) -> (r: &'static str)
    ensures
        r@ == spinner_glyph((frame % 10) as int),
{
    let i = frame % 10;
    if i == 0 {
        "⠋"
    } else if i == 1 {
        "⠙"
    } else if i == 2 {
        "⠹"
    } else if i == 3 {
        "⠸"
    } else if i == 4 {
        "⠼"
    } else if i == 5 {
        "⠴"
    } else if i == 6 {
        "⠦"
    } else if i == 7 {
        "⠧"
    } else if i == 8 {
        "⠇"
    } else {
        "⠏"
    }
}

fn piece_str(s: &str, tone: Tone) -> (p: Piece)
    ensures
        p.view() == (s@, tone),
{
    Piece { text: string_from(chars_of(s).as_slice()), tone }
}

fn piece_chars(s: &[char], tone: Tone) -> (p: Piece)
    ensures
        p.view() == (s@, tone),
{
    Piece { text: string_from(s), tone }
}

fn push_piece(v: &mut Vec<Piece>, p: Piece)
    ensures
        pieces(final(v)@) == pieces(old(v)@).push(p.view()),
{
    let ghost before = old(v)@;
    v.push(p);
    assert(pieces(v@) =~= pieces(before).push(p.view()));
}

/// The header: browser, cookie count, output directory, delay and page limit, separated by bars.
pub open spec fn header_spec(a: App) -> Seq<(Seq<char>, Tone)> {
    let sep = (" │ "@, Tone::DarkGray);
    seq![
        (a.browser_name@, Tone::White),
        sep,
        (decimal(a.cookie_count as nat) + " cookies"@, Tone::White),
        sep,
        (a.output_dir@, Tone::White),
        sep,
        (decimal(a.delay_ms as nat) + "ms delay"@, Tone::White),
        sep,
        (decimal(a.max_pages as nat) + " max"@, Tone::White),
    ]
}

/// The header line.
pub fn header(a: &App) -> (r: Vec<Piece>)
    ensures
        pieces(r@) == header_spec(*a),
{
    let mut r: Vec<Piece> = Vec::new();
    push_piece(&mut r, piece_str(a.browser_name.as_str(), Tone::White));
    push_piece(&mut r, piece_str(" │ ", Tone::DarkGray));
    let mut c = decimal_chars(a.cookie_count as u64);
    append_str(&mut c, " cookies");
    push_piece(&mut r, piece_chars(c.as_slice(), Tone::White));
    push_piece(&mut r, piece_str(" │ ", Tone::DarkGray));
    push_piece(&mut r, piece_str(a.output_dir.as_str(), Tone::White));
    push_piece(&mut r, piece_str(" │ ", Tone::DarkGray));
    let mut d = decimal_chars(a.delay_ms);
    append_str(&mut d, "ms delay");
    push_piece(&mut r, piece_chars(d.as_slice(), Tone::White));
    push_piece(&mut r, piece_str(" │ ", Tone::DarkGray));
    let mut m = decimal_chars(a.max_pages as u64);
    append_str(&mut m, " max");
    push_piece(&mut r, piece_chars(m.as_slice(), Tone::White));
    assert(pieces(r@) =~= header_spec(*a));
    r
}

/// The status line for each state of the scrape.
pub open spec fn status_spec(a: App) -> Seq<(Seq<char>, Tone)> {
    match a.state {
        AppState::Idle => seq![("○ "@, Tone::Cyan), ("Ready. Type /help for commands."@, Tone::Cyan)],
        AppState::Crawling => seq![
            (spinner_glyph((a.spinner_frame % 10) as int) + " ● "@, Tone::Magenta),
            ("Scraping: "@ + a.url@, Tone::Magenta),
        ],
        AppState::Paused => seq![("❚❚ "@, Tone::Yellow), ("Paused"@, Tone::Yellow)],
        AppState::Done => seq![
            ("✓ "@, Tone::Green),
            ("Done — "@ + decimal(a.saved as nat) + " saved, "@ + decimal(a.failed as nat) + " failed, "@
                + decimal(a.auth_failed as nat) + " auth errors"@, Tone::Green),
        ],
        AppState::Error(m) => seq![("✗ "@, Tone::Red), ("Error — "@ + m@, Tone::Red)],
    }
}

/// The status line.
pub fn status(a: &App) -> (r: Vec<Piece>)
    ensures
        pieces(r@) == status_spec(*a),
{
    let mut r: Vec<Piece> = Vec::new();
    match &a.state {
        AppState::Idle => {
            push_piece(&mut r, piece_str("○ ", Tone::Cyan));
            push_piece(&mut r, piece_str("Ready. Type /help for commands.", Tone::Cyan));
        },
        AppState::Crawling => {
            let mut s = chars_of(spinner(a.spinner_frame));
            append_str(&mut s, " ● ");
            push_piece(&mut r, piece_chars(s.as_slice(), Tone::Magenta));
            let mut u = chars_of("Scraping: ");
            append_str(&mut u, a.url.as_str());
            push_piece(&mut r, piece_chars(u.as_slice(), Tone::Magenta));
        },
        AppState::Paused => {
            push_piece(&mut r, piece_str("❚❚ ", Tone::Yellow));
            push_piece(&mut r, piece_str("Paused", Tone::Yellow));
        },
        AppState::Done => {
            push_piece(&mut r, piece_str("✓ ", Tone::Green));
            let mut m = chars_of("Done — ");
            append_chars(&mut m, decimal_chars(a.saved as u64).as_slice());
            append_str(&mut m, " saved, ");
            append_chars(&mut m, decimal_chars(a.failed as u64).as_slice());
            append_str(&mut m, " failed, ");
            append_chars(&mut m, decimal_chars(a.auth_failed as u64).as_slice());
            append_str(&mut m, " auth errors");
            push_piece(&mut r, piece_chars(m.as_slice(), Tone::Green));
        },
        AppState::Error(msg) => {
            push_piece(&mut r, piece_str("✗ ", Tone::Red));
            let mut m = chars_of("Error — ");
            append_str(&mut m, msg.as_str());
            push_piece(&mut r, piece_chars(m.as_slice(), Tone::Red));
        },
    }
    assert(pieces(r@) =~= status_spec(*a));
    r
}

/// One log line: an icon for its outcome, the URL and what else the entry carries.
pub open spec fn log_line_spec(e: LogEntry, crawling: bool, frame: usize) -> Seq<(Seq<char>, Tone)> {
    match e.status {
        LogStatus::Saved => seq![("✓ "@, Tone::Green), (e.url@, Tone::White)] + match e.filepath {
            Some(f) => seq![(" → "@, Tone::DarkGray), (f@, Tone::Blue)],
            None => seq![],
        },
        LogStatus::Error => seq![("✗ "@, Tone::Red), (e.url@, Tone::White)] + match e.message {
            Some(m) => seq![(" ("@ + m@ + ")"@, Tone::DarkGray)],
            None => seq![],
        },
        LogStatus::AuthFail(code) => seq![
            ("⚠ "@, Tone::Yellow),
            (e.url@, Tone::White),
            (" ("@ + decimal(code as nat) + " auth failed)"@, Tone::DarkGray),
        ] + match e.message {
            Some(m) => seq![(" "@ + m@, Tone::DarkGray)],
            None => seq![],
        },
        LogStatus::Visiting => seq![
            (if crawling {
                spinner_glyph((frame % 10) as int) + " "@
            } else {
                "◌ "@
            }, Tone::Blue),
            (e.url@, Tone::White),
        ],
        LogStatus::Info(m) => seq![("ℹ "@, Tone::Cyan), (m@, Tone::Cyan)],
        LogStatus::Banner(m) => seq![(m@, Tone::Magenta)],
    }
}

/// A log line as shown; `crawling` says whether a scrape is running, which animates the
/// icon of the page being visited.
pub fn log_line(e: &LogEntry, crawling: bool, frame: usize) -> (r: Vec<Piece>)
    ensures
        pieces(r@) == log_line_spec(*e, crawling, frame),
{
    let mut r: Vec<Piece> = Vec::new();
    match &e.status {
        LogStatus::Saved => {
            push_piece(&mut r, piece_str("✓ ", Tone::Green));
            push_piece(&mut r, piece_str(e.url.as_str(), Tone::White));
            match &e.filepath {
                Some(f) => {
                    push_piece(&mut r, piece_str(" → ", Tone::DarkGray));
                    push_piece(&mut r, piece_str(f.as_str(), Tone::Blue));
                },
                None => {},
            }
        },
        LogStatus::Error => {
            push_piece(&mut r, piece_str("✗ ", Tone::Red));
            push_piece(&mut r, piece_str(e.url.as_str(), Tone::White));
            match &e.message {
                Some(m) => {
                    let mut t = chars_of(" (");
                    append_str(&mut t, m.as_str());
                    append_str(&mut t, ")");
                    push_piece(&mut r, piece_chars(t.as_slice(), Tone::DarkGray));
                },
                None => {},
            }
        },
        LogStatus::AuthFail(code) => {
            push_piece(&mut r, piece_str("⚠ ", Tone::Yellow));
            push_piece(&mut r, piece_str(e.url.as_str(), Tone::White));
            let mut t = chars_of(" (");
            append_chars(&mut t, decimal_chars(*code as u64).as_slice());
            append_str(&mut t, " auth failed)");
            push_piece(&mut r, piece_chars(t.as_slice(), Tone::DarkGray));
            match &e.message {
                Some(m) => {
                    let mut t2 = chars_of(" ");
                    append_str(&mut t2, m.as_str());
                    push_piece(&mut r, piece_chars(t2.as_slice(), Tone::DarkGray));
                },
                None => {},
            }
        },
        LogStatus::Visiting => {
            if crawling {
                let mut s = chars_of(spinner(frame));
                append_str(&mut s, " ");
                push_piece(&mut r, piece_chars(s.as_slice(), Tone::Blue));
            } else {
                push_piece(&mut r, piece_str("◌ ", Tone::Blue));
            }
            push_piece(&mut r, piece_str(e.url.as_str(), Tone::White));
        },
        LogStatus::Info(m) => {
            push_piece(&mut r, piece_str("ℹ ", Tone::Cyan));
            push_piece(&mut r, piece_str(m.as_str(), Tone::Cyan));
        },
        LogStatus::Banner(m) => {
            push_piece(&mut r, piece_str(m.as_str(), Tone::Magenta));
        },
    }
    assert(pieces(r@) =~= log_line_spec(*e, crawling, frame));
    r
}

/// The prompt: the chevron, then the line being typed, or a hint when it is empty.
pub open spec fn prompt_spec(a: App) -> Seq<(Seq<char>, Tone)> {
    if a.input@.len() == 0 {
        seq![("❯ "@, Tone::Magenta), ("Type /help for commands"@, Tone::DarkGray)]
    } else {
        seq![("❯ "@, Tone::Magenta), (a.input@, Tone::White)]
    }
}

/// The prompt line.
pub fn prompt(a: &App) -> (r: Vec<Piece>)
    ensures
        pieces(r@) == prompt_spec(*a),
{
    let mut r: Vec<Piece> = Vec::new();
    push_piece(&mut r, piece_str("❯ ", Tone::Magenta));
    if a.input.as_str().is_empty() {
        push_piece(&mut r, piece_str("Type /help for commands", Tone::DarkGray));
    } else {
        push_piece(&mut r, piece_str(a.input.as_str(), Tone::White));
    }
    assert(pieces(r@) =~= prompt_spec(*a));
    r
}

/// The key hints at the bottom of the screen.
pub open spec fn key_hints_spec(interactive: bool, s: AppState) -> Seq<char> {
    if !interactive {
        "ctrl+c quit · ↑↓ scroll"@
    } else {
        match s {
            AppState::Crawling => "esc stop · ↑↓ scroll · ctrl+c quit"@,
            AppState::Paused => "p resume · esc stop · ↑↓ scroll · ctrl+c quit"@,
            _ => "enter run · ↑↓ scroll · ctrl+c quit"@,
        }
    }
}

/// The key hints for the interface's mode and the scrape's state.
pub fn key_hints(a: &App) -> (r: &'static str)
    ensures
        r@ == key_hints_spec(a.interactive, a.state),
{
    if !a.interactive {
        "ctrl+c quit · ↑↓ scroll"
    } else {
        match &a.state {
            AppState::Crawling => "esc stop · ↑↓ scroll · ctrl+c quit",
            AppState::Paused => "p resume · esc stop · ↑↓ scroll · ctrl+c quit",
            _ => "enter run · ↑↓ scroll · ctrl+c quit",
        }
    }
}

/// `n` copies of `c`.
pub open spec fn repeated(c: char, n: nat) -> Seq<char> {
    Seq::new(n, |i: int| c)
}

/// A line of `n` copies of `c`, for separators and the progress bar.
pub fn repeat_char(c: char, n: usize) -> (r: String)
    ensures
        r@ == repeated(c, n as nat),
{
    let mut v: Vec<char> = Vec::new();
    let mut i: usize = 0;
    while i < n
        invariant
            i <= n,
            v@ == repeated(c, i as nat),
        decreases n - i,
    {
        v.push(c);
        i = i + 1;
        assert(v@ =~= repeated(c, i as nat));
    }
    string_from(v.as_slice())
}

} // verus!
