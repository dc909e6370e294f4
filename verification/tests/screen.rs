use sitescrape::app::{App, LogEntry, LogStatus};
use sitescrape::screen::{header, key_hints, log_line, prompt, repeat_char, spinner, status, Piece, Tone};

fn flat(ps: &[Piece]) -> Vec<(String, Tone)> {
    ps.iter().map(|p| (p.text.clone(), p.tone)).collect()
}

fn s(t: &str, tone: Tone) -> (String, Tone) {
    (t.to_string(), tone)
}

fn entry(status: LogStatus, url: &str, filepath: Option<&str>, message: Option<&str>) -> LogEntry {
    LogEntry {
        status,
        url: url.to_string(),
        filepath: filepath.map(|f| f.to_string()),
        message: message.map(|m| m.to_string()),
    }
}

#[test]
fn spinner_frames_repeat() {
    assert_eq!(spinner(0), "⠋");
    assert_eq!(spinner(9), "⠏");
    assert_eq!(spinner(11), "⠙");
}

#[test]
fn header_pieces() {
    let a = App::new_interactive("Chrome".to_string(), 42, "./out".to_string(), 250, 100);
    assert_eq!(
        flat(&header(&a)),
        vec![
            s("Chrome", Tone::White),
            s(" │ ", Tone::DarkGray),
            s("42 cookies", Tone::White),
            s(" │ ", Tone::DarkGray),
            s("./out", Tone::White),
            s(" │ ", Tone::DarkGray),
            s("250ms delay", Tone::White),
            s(" │ ", Tone::DarkGray),
            s("100 max", Tone::White),
        ]
    );
}

#[test]
fn status_pieces_for_each_state() {
    let mut a = App::new_interactive("Chrome".to_string(), 0, "o".to_string(), 0, 1);
    assert_eq!(
        flat(&status(&a)),
        vec![s("○ ", Tone::Cyan), s("Ready. Type /help for commands.", Tone::Cyan)]
    );
    a.reset_for_scrape("https://x.com".to_string());
    a.spinner_frame = 12;
    assert_eq!(flat(&status(&a)), vec![s("⠹ ● ", Tone::Magenta), s("Scraping: https://x.com", Tone::Magenta)]);
    a.toggle_pause();
    assert_eq!(flat(&status(&a)), vec![s("❚❚ ", Tone::Yellow), s("Paused", Tone::Yellow)]);
    a.set_done(5, 1, 2);
    assert_eq!(
        flat(&status(&a)),
        vec![s("✓ ", Tone::Green), s("Done — 5 saved, 1 failed, 2 auth errors", Tone::Green)]
    );
    a.set_error("no network".to_string());
    assert_eq!(flat(&status(&a)), vec![s("✗ ", Tone::Red), s("Error — no network", Tone::Red)]);
}

#[test]
fn log_line_pieces() {
    let saved = entry(LogStatus::Saved, "https://x.com/a", Some("A.md"), None);
    assert_eq!(
        flat(&log_line(&saved, true, 0)),
        vec![
            s("✓ ", Tone::Green),
            s("https://x.com/a", Tone::White),
            s(" → ", Tone::DarkGray),
            s("A.md", Tone::Blue),
        ]
    );
    let err = entry(LogStatus::Error, "https://x.com/b", None, Some("HTTP 404"));
    assert_eq!(
        flat(&log_line(&err, false, 0)),
        vec![s("✗ ", Tone::Red), s("https://x.com/b", Tone::White), s(" (HTTP 404)", Tone::DarkGray)]
    );
    let auth = entry(LogStatus::AuthFail(403), "https://x.com/c", None, Some("auth failed, skipped"));
    assert_eq!(
        flat(&log_line(&auth, false, 0)),
        vec![
            s("⚠ ", Tone::Yellow),
            s("https://x.com/c", Tone::White),
            s(" (403 auth failed)", Tone::DarkGray),
            s(" auth failed, skipped", Tone::DarkGray),
        ]
    );
    let visiting = entry(LogStatus::Visiting, "https://x.com/d", None, None);
    assert_eq!(flat(&log_line(&visiting, true, 1)), vec![s("⠙ ", Tone::Blue), s("https://x.com/d", Tone::White)]);
    assert_eq!(flat(&log_line(&visiting, false, 1)), vec![s("◌ ", Tone::Blue), s("https://x.com/d", Tone::White)]);
    let info = entry(LogStatus::Info("hi".to_string()), "", None, Some("hi"));
    assert_eq!(flat(&log_line(&info, false, 0)), vec![s("ℹ ", Tone::Cyan), s("hi", Tone::Cyan)]);
    let banner = entry(LogStatus::Banner(" __ ".to_string()), "", None, Some(" __ "));
    assert_eq!(flat(&log_line(&banner, false, 0)), vec![s(" __ ", Tone::Magenta)]);
}

#[test]
fn prompt_and_key_hints() {
    let mut a = App::new_interactive("Chrome".to_string(), 0, "o".to_string(), 0, 1);
    assert_eq!(
        flat(&prompt(&a)),
        vec![s("❯ ", Tone::Magenta), s("Type /help for commands", Tone::DarkGray)]
    );
    a.input_char('/');
    assert_eq!(flat(&prompt(&a)), vec![s("❯ ", Tone::Magenta), s("/", Tone::White)]);
    assert_eq!(key_hints(&a), "enter run · ↑↓ scroll · ctrl+c quit");
    a.reset_for_scrape("https://x.com".to_string());
    assert_eq!(key_hints(&a), "esc stop · ↑↓ scroll · ctrl+c quit");
    a.toggle_pause();
    assert_eq!(key_hints(&a), "p resume · esc stop · ↑↓ scroll · ctrl+c quit");
    let b = App::new("https://x.com".to_string(), "Chrome".to_string(), 0, "o".to_string(), 0, 1);
    assert_eq!(key_hints(&b), "ctrl+c quit · ↑↓ scroll");
}

#[test]
fn repeated_lines() {
    assert_eq!(repeat_char('─', 3), "───");
    assert_eq!(repeat_char('━', 0), "");
}
