use sitescrape::app::{App, AppState, LogEntry, LogStatus, LOG_CAP};

fn prompt_app() -> App {
    App::new_interactive("Firefox".to_string(), 3, "./out".to_string(), 500, 500)
}

fn info_text(e: &LogEntry) -> String {
    match &e.status {
        LogStatus::Info(m) => m.clone(),
        other => panic!("not an info line: {:?}", other),
    }
}

#[test]
fn fresh_interfaces() {
    let a = App::new("https://x.com".to_string(), "Chrome".to_string(), 7, "./o".to_string(), 10, 20);
    assert!(matches!(a.state, AppState::Crawling));
    assert!(!a.interactive);
    assert_eq!(a.url, "https://x.com");
    assert_eq!(a.cookie_count, 7);
    assert_eq!(a.progress, (0, 0));
    let b = prompt_app();
    assert!(matches!(b.state, AppState::Idle));
    assert!(b.interactive);
    assert!(b.log.is_empty());
    assert_eq!(b.url, "");
}

#[test]
fn typing_and_editing_the_line() {
    let mut a = prompt_app();
    a.input_char('a');
    a.input_char('é');
    a.input_char('b');
    assert_eq!(a.input, "aéb");
    assert_eq!(a.cursor_pos, 4);
    a.move_cursor_left();
    assert_eq!(a.cursor_pos, 3);
    a.move_cursor_left();
    assert_eq!(a.cursor_pos, 1);
    a.input_delete();
    assert_eq!(a.input, "ab");
    assert_eq!(a.cursor_pos, 1);
    a.input_backspace();
    assert_eq!(a.input, "b");
    assert_eq!(a.cursor_pos, 0);
    a.input_backspace();
    assert_eq!(a.input, "b");
    a.move_cursor_left();
    assert_eq!(a.cursor_pos, 0);
    a.move_cursor_right();
    assert_eq!(a.cursor_pos, 1);
    a.move_cursor_right();
    assert_eq!(a.cursor_pos, 1);
    a.input_delete();
    assert_eq!(a.input, "b");
}

#[test]
fn backspace_after_typing_restores_the_line() {
    let mut a = prompt_app();
    for c in "héllo".chars() {
        a.input_char(c);
    }
    a.move_cursor_left();
    a.move_cursor_left();
    let (line, pos) = (a.input.clone(), a.cursor_pos);
    a.input_char('ß');
    assert_eq!(a.input, "hélßlo");
    a.input_backspace();
    assert_eq!(a.input, line);
    assert_eq!(a.cursor_pos, pos);
}

#[test]
fn submit_and_clear() {
    let mut a = prompt_app();
    a.input_char('x');
    a.input_char('y');
    assert_eq!(a.submit_input(), "xy");
    assert_eq!(a.input, "");
    assert_eq!(a.cursor_pos, 0);
    a.input_char('z');
    a.clear_input();
    assert_eq!(a.input, "");
    assert_eq!(a.cursor_pos, 0);
}

#[test]
fn log_keeps_only_the_newest_lines() {
    let mut a = prompt_app();
    for i in 0..(LOG_CAP + 5) {
        a.push_info(format!("{}", i));
    }
    assert_eq!(a.log.len(), LOG_CAP);
    assert_eq!(info_text(&a.log[0]), "5");
    assert_eq!(info_text(&a.log[LOG_CAP - 1]), format!("{}", LOG_CAP + 4));
    assert_eq!(a.scroll_offset, LOG_CAP);
    assert_eq!(a.log[0].message.as_deref(), Some("5"));
}

#[test]
fn scrolling_and_the_visible_window() {
    let mut a = prompt_app();
    for i in 0..5 {
        a.push_info(format!("line {}", i));
    }
    assert_eq!(a.scroll_offset, 5);
    let shown: Vec<String> = a.visible_log(3).iter().map(info_text).collect();
    assert_eq!(shown, vec!["line 2", "line 3", "line 4"]);
    a.scroll_up();
    a.scroll_up();
    a.scroll_up();
    assert_eq!(a.scroll_offset, 2);
    let shown: Vec<String> = a.visible_log(2).iter().map(info_text).collect();
    assert_eq!(shown, vec!["line 2", "line 3"]);
    a.push_info("line 5".to_string());
    assert_eq!(a.scroll_offset, 2);
    for _ in 0..10 {
        a.scroll_down();
    }
    assert_eq!(a.scroll_offset, 6);
    for _ in 0..10 {
        a.scroll_up();
    }
    assert_eq!(a.scroll_offset, 0);
    assert!(a.visible_log(0).is_empty());
    let shown: Vec<String> = a.visible_log(100).iter().map(info_text).collect();
    assert_eq!(shown.len(), 6);
}

#[test]
fn pause_and_resume() {
    let mut a = App::new("https://x.com".to_string(), "Firefox".to_string(), 0, "o".to_string(), 0, 1);
    a.toggle_pause();
    assert!(matches!(a.state, AppState::Paused));
    a.toggle_pause();
    assert!(matches!(a.state, AppState::Crawling));
    let mut b = prompt_app();
    b.toggle_pause();
    assert!(matches!(b.state, AppState::Idle));
}

#[test]
fn state_changes() {
    let mut a = prompt_app();
    a.reset_for_scrape("https://y.com".to_string());
    assert!(matches!(a.state, AppState::Crawling));
    assert_eq!(a.url, "https://y.com");
    a.set_progress(4, 9);
    assert_eq!(a.progress, (4, 9));
    a.set_done(3, 1, 0);
    assert!(matches!(a.state, AppState::Done));
    assert_eq!((a.saved, a.failed, a.auth_failed), (3, 1, 0));
    a.set_error("boom".to_string());
    assert!(matches!(&a.state, AppState::Error(m) if m == "boom"));
    a.back_to_idle();
    assert!(matches!(a.state, AppState::Idle));
    a.push_banner("~~".to_string());
    assert!(matches!(&a.log[0].status, LogStatus::Banner(m) if m == "~~"));
}

#[test]
fn right_then_left_restores_the_cursor() {
    let mut a = prompt_app();
    for c in "aé€😀b".chars() {
        a.input_char(c);
    }
    for pos in [0usize, 1, 3, 6] {
        a.cursor_pos = pos;
        a.move_cursor_right();
        a.move_cursor_left();
        assert_eq!(a.cursor_pos, pos);
    }
    for pos in [1usize, 3, 6, 10, 11] {
        a.cursor_pos = pos;
        a.move_cursor_left();
        a.move_cursor_right();
        assert_eq!(a.cursor_pos, pos);
    }
}
