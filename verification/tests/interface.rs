use sitescrape::app::{App, AppState, LogEntry, LogStatus};
use sitescrape::crawler::CrawlEvent;
use sitescrape::tui::{crawl_event_message, EngineKind, KeyCode, KeyPress, TuiMessage, UiAction};

fn prompt_app() -> App {
    App::new_interactive("Firefox".to_string(), 3, "./out".to_string(), 500, 500)
}

fn texts(a: &App) -> Vec<String> {
    a.log
        .iter()
        .map(|e: &LogEntry| match &e.status {
            LogStatus::Info(m) => m.clone(),
            other => format!("{:?}", other),
        })
        .collect()
}

fn key(code: KeyCode) -> KeyPress {
    KeyPress { code, ctrl: false }
}

#[test]
fn empty_line_does_nothing() {
    let mut a = prompt_app();
    assert!(matches!(a.run_command(String::new(), &EngineKind::Http), UiAction::Nothing));
    assert!(a.log.is_empty());
}

#[test]
fn scrape_command_starts_a_scrape() {
    let mut a = prompt_app();
    a.selector = Some("main".to_string());
    let act = a.run_command("/scrape https://docs.example.com/ -m 3 -p /guide".to_string(), &EngineKind::BrowserLazy);
    match act {
        UiAction::StartScrape { config, use_browser } => {
            assert_eq!(config.max_pages, 3);
            assert_eq!(config.delay_ms, 500);
            assert_eq!(config.prefix.as_deref(), Some("/guide"));
            assert_eq!(config.selector.as_deref(), Some("main"));
            assert_eq!(config.output_dir, "./out");
            assert_eq!(config.base_url, "https://docs.example.com/");
            assert!(use_browser);
        },
        other => panic!("unexpected {:?}", other),
    }
    assert!(matches!(a.state, AppState::Crawling));
    assert_eq!(a.url, "https://docs.example.com/");
    assert_eq!(texts(&a), vec!["> /scrape https://docs.example.com/ -m 3 -p /guide"]);
}

#[test]
fn scrape_command_without_browser() {
    let mut a = prompt_app();
    match a.run_command("/scrape http://x.com --no-browser -s .doc -d 9".to_string(), &EngineKind::BrowserLazy) {
        UiAction::StartScrape { config, use_browser } => {
            assert!(!use_browser);
            assert_eq!(config.selector.as_deref(), Some(".doc"));
            assert_eq!(config.delay_ms, 9);
            assert_eq!(config.max_pages, 500);
        },
        other => panic!("unexpected {:?}", other),
    }
    let mut b = prompt_app();
    match b.run_command("/scrape http://x.com".to_string(), &EngineKind::Http) {
        UiAction::StartScrape { use_browser, .. } => assert!(!use_browser),
        other => panic!("unexpected {:?}", other),
    }
}

#[test]
fn scrape_command_refuses_other_schemes() {
    let mut a = prompt_app();
    assert!(matches!(a.run_command("/scrape ftp://x.com".to_string(), &EngineKind::Http), UiAction::Nothing));
    assert_eq!(texts(&a), vec!["> /scrape ftp://x.com", "Invalid URL: must start with http:// or https://"]);
    assert!(matches!(a.state, AppState::Idle));
}

#[test]
fn set_commands() {
    let mut a = prompt_app();
    a.run_command("/set delay 250".to_string(), &EngineKind::Http);
    a.run_command("/set delay soon".to_string(), &EngineKind::Http);
    a.run_command("/set max-pages 9".to_string(), &EngineKind::Http);
    a.run_command("/set max_pages -1".to_string(), &EngineKind::Http);
    a.run_command("/set output ./docs".to_string(), &EngineKind::Http);
    a.run_command("/set selector .main".to_string(), &EngineKind::Http);
    a.run_command("/set colour red".to_string(), &EngineKind::Http);
    assert_eq!(a.delay_ms, 250);
    assert_eq!(a.max_pages, 9);
    assert_eq!(a.output_dir, "./docs");
    assert_eq!(a.selector.as_deref(), Some(".main"));
    assert_eq!(
        texts(&a),
        vec![
            "> /set delay 250",
            "delay updated.",
            "> /set delay soon",
            "Invalid delay value.",
            "> /set max-pages 9",
            "max_pages updated.",
            "> /set max_pages -1",
            "Invalid max_pages value.",
            "> /set output ./docs",
            "output updated.",
            "> /set selector .main",
            "selector updated.",
            "> /set colour red",
            "Unknown config key: colour",
        ]
    );
}

#[test]
fn config_status_stop_and_help() {
    let mut a = prompt_app();
    a.run_command("/config".to_string(), &EngineKind::Http);
    assert_eq!(
        texts(&a),
        vec!["> /config", "browser: Firefox", "output: ./out", "max_pages: 500", "delay: 500ms"]
    );
    a.selector = Some("article".to_string());
    a.run_command("/config".to_string(), &EngineKind::Http);
    assert_eq!(texts(&a).last().unwrap(), "selector: article");
    a.run_command("/status".to_string(), &EngineKind::Http);
    assert_eq!(texts(&a).last().unwrap(), "Idle.");
    a.run_command("/stop".to_string(), &EngineKind::Http);
    assert_eq!(texts(&a).last().unwrap(), "No scrape in progress.");
    let before = a.log.len();
    a.run_command("/help".to_string(), &EngineKind::Http);
    assert_eq!(a.log.len(), before + 9);
    assert_eq!(texts(&a).last().unwrap(), "/quit — exit");
    a.run_command("nonsense".to_string(), &EngineKind::Http);
    assert_eq!(texts(&a).last().unwrap(), "Unknown command. Type /help for commands.");
}

#[test]
fn clear_quit_and_cookies() {
    let mut a = prompt_app();
    a.run_command("/status".to_string(), &EngineKind::Http);
    assert!(matches!(a.run_command("/clear".to_string(), &EngineKind::Http), UiAction::Nothing));
    assert!(a.log.is_empty());
    assert_eq!(a.scroll_offset, 0);
    assert!(matches!(a.run_command("/q".to_string(), &EngineKind::Http), UiAction::Quit));
    assert_eq!(texts(&a), vec!["> /q"]);
    assert!(matches!(a.run_command("/cookies".to_string(), &EngineKind::Http), UiAction::ReloadCookies));
    assert_eq!(texts(&a).last().unwrap(), "Reloading cookies...");
    a.cookies_reloaded(Ok(12));
    assert_eq!(a.cookie_count, 12);
    assert_eq!(texts(&a).last().unwrap(), "12 cookies loaded.");
    a.cookies_reloaded(Err("no profile".to_string()));
    assert_eq!(a.cookie_count, 12);
    assert_eq!(texts(&a).last().unwrap(), "Cookie reload failed: no profile");
}

#[test]
fn keys_at_the_prompt() {
    let mut a = prompt_app();
    for c in "/q".chars() {
        assert!(matches!(a.interactive_key(key(KeyCode::Char(c))), UiAction::Nothing));
    }
    assert_eq!(a.input, "/q");
    a.interactive_key(key(KeyCode::Left));
    a.interactive_key(key(KeyCode::Backspace));
    assert_eq!(a.input, "q");
    a.interactive_key(key(KeyCode::Right));
    a.interactive_key(key(KeyCode::Delete));
    assert_eq!(a.input, "q");
    match a.interactive_key(key(KeyCode::Enter)) {
        UiAction::Submit(line) => assert_eq!(line, "q"),
        other => panic!("unexpected {:?}", other),
    }
    assert_eq!(a.input, "");
    a.interactive_key(key(KeyCode::Char('z')));
    a.interactive_key(key(KeyCode::Esc));
    assert_eq!(a.input, "");
    assert!(matches!(a.interactive_key(KeyPress { code: KeyCode::Char('c'), ctrl: true }), UiAction::Quit));
}

#[test]
fn keys_during_a_scrape() {
    let mut a = prompt_app();
    a.reset_for_scrape("https://x.com".to_string());
    assert!(matches!(a.interactive_key(key(KeyCode::Char('p'))), UiAction::Nothing));
    assert!(matches!(a.state, AppState::Crawling));
    assert_eq!(a.input, "p");
    a.interactive_key(key(KeyCode::Backspace));
    assert_eq!(a.input, "");
    assert!(matches!(a.interactive_key(key(KeyCode::Esc)), UiAction::StopScrape));
    assert_eq!(texts(&a), vec!["Stopping..."]);
    a.set_done(1, 0, 0);
    assert!(matches!(a.interactive_key(key(KeyCode::Esc)), UiAction::Nothing));
    assert!(matches!(a.interactive_key(key(KeyCode::Char('x'))), UiAction::Nothing));
    assert_eq!(a.input, "");
    assert_eq!(a.log.len(), 1);
}

#[test]
fn stop_command_during_a_scrape() {
    let mut a = prompt_app();
    a.reset_for_scrape("https://x.com".to_string());
    for c in "/stop".chars() {
        assert!(matches!(a.interactive_key(key(KeyCode::Char(c))), UiAction::Nothing));
    }
    let line = match a.interactive_key(key(KeyCode::Enter)) {
        UiAction::Submit(line) => line,
        other => panic!("unexpected {:?}", other),
    };
    assert_eq!(line, "/stop");
    assert!(matches!(a.run_command(line, &EngineKind::Http), UiAction::StopScrape));
    assert_eq!(texts(&a), vec!["> /stop", "Stopping..."]);
}

#[test]
fn status_and_scrape_commands_during_a_scrape() {
    let mut a = prompt_app();
    a.reset_for_scrape("https://x.com".to_string());
    a.set_progress(5, 12);
    a.run_command("/status".to_string(), &EngineKind::Http);
    assert_eq!(texts(&a).last().unwrap(), "Scraping: https://x.com 5/12 pages");
    a.toggle_pause();
    a.run_command("/status".to_string(), &EngineKind::Http);
    assert_eq!(texts(&a).last().unwrap(), "Paused: https://x.com 5/12 pages");
    assert!(matches!(a.run_command("/scrape https://y.com".to_string(), &EngineKind::Http), UiAction::Nothing));
    assert_eq!(texts(&a).last().unwrap(), "A scrape is already running.");
    assert_eq!(a.url, "https://x.com");
}

#[test]
fn keys_in_the_one_shot_view() {
    let mut a = App::new("https://x.com".to_string(), "Firefox".to_string(), 0, "o".to_string(), 0, 5);
    a.push_info("one".to_string());
    a.push_info("two".to_string());
    assert!(!a.oneshot_key(key(KeyCode::Char('p'))));
    assert!(matches!(a.state, AppState::Paused));
    assert!(!a.oneshot_key(key(KeyCode::Char('k'))));
    assert_eq!(a.scroll_offset, 1);
    assert!(!a.oneshot_key(key(KeyCode::Down)));
    assert_eq!(a.scroll_offset, 2);
    assert!(a.oneshot_key(key(KeyCode::Char('q'))));
    assert!(a.oneshot_key(KeyPress { code: KeyCode::Char('c'), ctrl: true }));
    assert!(!a.oneshot_key(key(KeyCode::Char('c'))));
}

#[test]
fn crawl_reports_reach_the_log() {
    let mut a = App::new("https://x.com".to_string(), "Firefox".to_string(), 0, "o".to_string(), 0, 5);
    assert!(!a.apply_message(TuiMessage::Visiting("https://x.com/".to_string())));
    assert!(!a.apply_message(TuiMessage::Saved { url: "https://x.com/".to_string(), filepath: "Index.md".to_string() }));
    assert!(!a.apply_message(TuiMessage::AuthFail { url: "https://x.com/p".to_string(), code: 401 }));
    assert!(!a.apply_message(TuiMessage::Error { url: "https://x.com/q".to_string(), message: "HTTP 500".to_string() }));
    assert!(!a.apply_message(TuiMessage::Progress { visited: 4, total: 9 }));
    assert_eq!(a.log.len(), 4);
    assert!(matches!(a.log[0].status, LogStatus::Visiting));
    assert!(matches!(a.log[1].status, LogStatus::Saved));
    assert_eq!(a.log[1].filepath.as_deref(), Some("Index.md"));
    assert!(matches!(a.log[2].status, LogStatus::AuthFail(401)));
    assert_eq!(a.log[2].message.as_deref(), Some("auth failed, skipped"));
    assert_eq!(a.log[3].message.as_deref(), Some("HTTP 500"));
    assert_eq!(a.progress, (4, 9));
    assert!(a.apply_message(TuiMessage::Done { saved: 1, failed: 1, auth_failed: 1 }));
    assert!(matches!(a.state, AppState::Done));
    a.settle(true);
    assert!(matches!(a.state, AppState::Done));
    a.settle(false);
    assert!(matches!(a.state, AppState::Idle));
}

#[test]
fn crawl_events_become_reports() {
    match crawl_event_message(CrawlEvent::Progress { visited: 20, saved: 3, queue: 5 }, false) {
        Some(TuiMessage::Progress { visited, total }) => assert_eq!((visited, total), (20, 25)),
        other => panic!("unexpected {:?}", other),
    }
    assert!(crawl_event_message(CrawlEvent::Visiting("u".to_string()), true).is_none());
    assert!(crawl_event_message(CrawlEvent::Saved("u".to_string(), "U.md".to_string()), true).is_none());
    assert!(matches!(
        crawl_event_message(CrawlEvent::Error("u".to_string(), "e".to_string()), true),
        Some(TuiMessage::Error { .. })
    ));
    assert!(matches!(
        crawl_event_message(CrawlEvent::Done { saved: 0, failed: 0, auth_failed: 0 }, true),
        Some(TuiMessage::Done { .. })
    ));
    assert!(matches!(
        crawl_event_message(CrawlEvent::AuthFail("u".to_string(), 403), false),
        Some(TuiMessage::AuthFail { code: 403, .. })
    ));
}

#[test]
fn spinner_ticks_and_wraps() {
    let mut a = prompt_app();
    a.tick();
    assert_eq!(a.spinner_frame, 1);
    a.spinner_frame = usize::MAX;
    a.tick();
    assert_eq!(a.spinner_frame, 0);
}

#[test]
fn progress_bar_layout() {
    let mut a = App::new("https://x.com".to_string(), "Firefox".to_string(), 0, "o".to_string(), 0, 5);
    a.set_progress(5, 10);
    assert_eq!(a.progress_layout(40), Some((" 5/10 pages".to_string(), 14, 14)));
    a.set_progress(5, 0);
    assert_eq!(a.progress_layout(40), Some((" 5 pages".to_string(), 0, 31)));
    a.set_progress(30, 10);
    assert_eq!(a.progress_layout(20), Some((" 30/10 pages".to_string(), 7, 0)));
    assert_eq!(a.progress_layout(5), Some((" 30/10 pages".to_string(), 0, 0)));
    let b = prompt_app();
    assert_eq!(b.progress_layout(40), None);
}
