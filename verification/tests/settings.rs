use sitescrape::config::{Cli, Config, NamedProfile, ProfileConfig, TomlConfig};

fn no_cli() -> Cli {
    Cli {
        url: None,
        browser: None,
        output: None,
        max_pages: None,
        selector: None,
        prefix: None,
        delay: None,
        no_browser: false,
        headless: false,
        config: None,
        profile: None,
    }
}

fn empty_profile() -> ProfileConfig {
    ProfileConfig { url: None, browser: None, output: None, max_pages: None, delay: None, selector: None, prefix: None }
}

fn file_with_profile() -> TomlConfig {
    TomlConfig {
        default: ProfileConfig {
            browser: Some("auto".to_string()),
            output: Some("./output".to_string()),
            max_pages: Some(500),
            delay: Some(500),
            selector: Some("main".to_string()),
            ..empty_profile()
        },
        profiles: vec![NamedProfile {
            name: "mysite".to_string(),
            profile: ProfileConfig {
                url: Some("https://docs.example.com/guide/".to_string()),
                max_pages: Some(200),
                selector: Some(".content".to_string()),
                ..empty_profile()
            },
        }],
    }
}

#[test]
fn built_in_fallbacks() {
    let c = Config::resolve(no_cli(), TomlConfig { default: empty_profile(), profiles: vec![] }).unwrap();
    assert_eq!(c.url, None);
    assert_eq!(c.browser, "auto");
    assert_eq!(c.output, "./output");
    assert_eq!(c.max_pages, 500);
    assert_eq!(c.delay_ms, 500);
    assert_eq!(c.selector, None);
    assert_eq!(c.prefix, None);
    assert!(!c.no_browser);
    assert!(!c.headless);
}

#[test]
fn profile_overrides_defaults() {
    let cli = Cli { profile: Some("mysite".to_string()), ..no_cli() };
    let c = Config::resolve(cli, file_with_profile()).unwrap();
    assert_eq!(c.url.as_deref(), Some("https://docs.example.com/guide/"));
    assert_eq!(c.max_pages, 200);
    assert_eq!(c.selector.as_deref(), Some(".content"));
    assert_eq!(c.delay_ms, 500);
    assert_eq!(c.output, "./output");
}

#[test]
fn command_line_overrides_profile() {
    let cli = Cli {
        profile: Some("mysite".to_string()),
        max_pages: Some(50),
        output: Some("./docs".to_string()),
        no_browser: true,
        headless: true,
        ..no_cli()
    };
    let c = Config::resolve(cli, file_with_profile()).unwrap();
    assert_eq!(c.max_pages, 50);
    assert_eq!(c.output, "./docs");
    assert_eq!(c.selector.as_deref(), Some(".content"));
    assert!(c.no_browser);
    assert!(c.headless);
}

#[test]
fn defaults_apply_without_a_profile() {
    let c = Config::resolve(no_cli(), file_with_profile()).unwrap();
    assert_eq!(c.url, None);
    assert_eq!(c.selector.as_deref(), Some("main"));
    assert_eq!(c.max_pages, 500);
}

#[test]
fn missing_profile() {
    let cli = Cli { profile: Some("other".to_string()), ..no_cli() };
    assert_eq!(
        Config::resolve(cli, file_with_profile()).unwrap_err(),
        "Profile 'other' not found in config file"
    );
}

#[test]
fn browser_names() {
    let cli = Cli { browser: Some("Safari".to_string()), ..no_cli() };
    assert_eq!(
        Config::resolve(cli, file_with_profile()).unwrap_err(),
        "Invalid --browser 'safari' (use auto, firefox, or chrome)"
    );
    let cli = Cli { browser: Some("FireFox".to_string()), ..no_cli() };
    assert_eq!(Config::resolve(cli, file_with_profile()).unwrap().browser, "FireFox");
}
