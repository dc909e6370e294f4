use sitescrape::commands::{parse_command, Command};

#[test]
fn scrape_with_every_short_option() {
    match parse_command("/scrape https://docs.example.com/guide/ -m 50 -s .content -p /guide -d 250 --no-browser") {
        Command::Scrape { url, max_pages, selector, prefix, delay, no_browser } => {
            assert_eq!(url, "https://docs.example.com/guide/");
            assert_eq!(max_pages, Some(50));
            assert_eq!(selector.as_deref(), Some(".content"));
            assert_eq!(prefix.as_deref(), Some("/guide"));
            assert_eq!(delay, Some(250));
            assert!(no_browser);
        },
        other => panic!("unexpected {:?}", other),
    }
}

#[test]
fn scrape_with_long_options() {
    match parse_command("/scrape https://x.com --max-pages 7 --selector main --prefix /a --delay 0") {
        Command::Scrape { url, max_pages, selector, prefix, delay, no_browser } => {
            assert_eq!(url, "https://x.com");
            assert_eq!(max_pages, Some(7));
            assert_eq!(selector.as_deref(), Some("main"));
            assert_eq!(prefix.as_deref(), Some("/a"));
            assert_eq!(delay, Some(0));
            assert!(!no_browser);
        },
        other => panic!("unexpected {:?}", other),
    }
}

#[test]
fn scrape_takes_first_word_without_dash_as_url() {
    match parse_command("/scrape -m 5 https://x.com") {
        Command::Scrape { url, max_pages, .. } => {
            assert_eq!(url, "5");
            assert_eq!(max_pages, Some(5));
        },
        other => panic!("unexpected {:?}", other),
    }
}

#[test]
fn scrape_bad_or_missing_numbers_are_unset() {
    match parse_command("/scrape https://x.com -m lots -d") {
        Command::Scrape { max_pages, delay, .. } => {
            assert_eq!(max_pages, None);
            assert_eq!(delay, None);
        },
        other => panic!("unexpected {:?}", other),
    }
    match parse_command("/scrape https://x.com -m +12") {
        Command::Scrape { max_pages, .. } => assert_eq!(max_pages, Some(12)),
        other => panic!("unexpected {:?}", other),
    }
}

#[test]
fn scrape_without_url() {
    match parse_command("/scrape --no-browser") {
        Command::Unknown(m) => assert_eq!(m, "/scrape requires a URL"),
        other => panic!("unexpected {:?}", other),
    }
}

#[test]
fn simple_commands() {
    assert!(matches!(parse_command("/stop"), Command::Stop));
    assert!(matches!(parse_command("/status"), Command::Status));
    assert!(matches!(parse_command("/config"), Command::Config));
    assert!(matches!(parse_command("/cookies"), Command::Cookies));
    assert!(matches!(parse_command("/clear"), Command::Clear));
    assert!(matches!(parse_command("/help"), Command::Help));
    assert!(matches!(parse_command("/quit"), Command::Quit));
    assert!(matches!(parse_command("  /q  "), Command::Quit));
}

#[test]
fn set_joins_the_rest_of_the_line() {
    match parse_command("/set  output   ./my   docs") {
        Command::SetConfig { key, value } => {
            assert_eq!(key, "output");
            assert_eq!(value, "./my docs");
        },
        other => panic!("unexpected {:?}", other),
    }
    match parse_command("/set output") {
        Command::Unknown(m) => assert_eq!(m, "/set requires <key> <value>"),
        other => panic!("unexpected {:?}", other),
    }
}

#[test]
fn unknown_inputs() {
    match parse_command("   ") {
        Command::Unknown(m) => assert_eq!(m, ""),
        other => panic!("unexpected {:?}", other),
    }
    match parse_command("hello") {
        Command::Unknown(m) => assert_eq!(m, "Unknown command. Type /help for commands."),
        other => panic!("unexpected {:?}", other),
    }
    match parse_command("/fly away") {
        Command::Unknown(m) => assert_eq!(m, "Unknown command: /fly"),
        other => panic!("unexpected {:?}", other),
    }
    match parse_command("/QUIT") {
        Command::Unknown(m) => assert_eq!(m, "Unknown command: /QUIT"),
        other => panic!("unexpected {:?}", other),
    }
}
