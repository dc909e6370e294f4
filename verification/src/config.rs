//! The settings of a run, merged from the command line, a profile of the config file,
//! the file's defaults, and built-in fallbacks.
use vstd::prelude::*;
use crate::text::{append_chars, append_str, chars_eq, chars_of, lower_chars, opt_view, lower_text, string_from};

verus! {

/// The command-line arguments.
#[derive(Debug)]
pub struct Cli {
    pub url: Option<String>,
    pub browser: Option<String>,
    pub output: Option<String>,
    pub max_pages: Option<usize>,
    pub selector: Option<String>,
    pub prefix: Option<String>,
    pub delay: Option<u64>,
    pub no_browser: bool,
    pub headless: bool,
    pub config: Option<String>,
    pub profile: Option<String>,
}

/// One section of the config file; every setting is optional.
#[derive(Debug)]
pub struct ProfileConfig {
    pub url: Option<String>,
    pub browser: Option<String>,
    pub output: Option<String>,
    pub max_pages: Option<usize>,
    pub delay: Option<u64>,
    pub selector: Option<String>,
    pub prefix: Option<String>,
}

/// A named `[profiles.<name>]` section.
#[derive(Debug)]
pub struct NamedProfile {
    pub name: String,
    pub profile: ProfileConfig,
}

/// The config file: its `[default]` section and its profiles.
#[derive(Debug)]
pub struct TomlConfig {
    pub default: ProfileConfig,
    pub profiles: Vec<NamedProfile>,
}

/// The settings after merging.
#[derive(Debug)]
pub struct Config {
    pub url: Option<String>,
    pub browser: String,
    pub output: String,
    pub max_pages: usize,
    pub delay_ms: u64,
    pub selector: Option<String>,
    pub prefix: Option<String>,
    pub no_browser: bool,
    pub headless: bool,
}

/// The first of three optional values that is set.
pub open spec fn first_set<T>(a: Option<T>, b: Option<T>, c: Option<T>) -> Option<T> {
    match a {
        Some(x) => Some(x),
        None => match b {
            Some(x) => Some(x),
            None => c,
        },
    }
}

/// The value, or a fallback when it is unset.
pub open spec fn or_default<T>(a: Option<T>, d: T) -> T {
    match a {
        Some(x) => x,
        None => d,
    }
}

/// An optional count as a natural number.
pub open spec fn opt_nat_usize(o: Option<usize>) -> Option<nat> {
    crate::text::opt_nat_usize(o)
}

/// Index of the first profile with the given name.
pub open spec fn profile_index(ps: Seq<NamedProfile>, name: Seq<char>, i: int) -> Option<int>
    decreases ps.len() - i,
{
    if i < 0 || i >= ps.len() {
        None
    } else if ps[i].name@ == name {
        Some(i)
    } else {
        profile_index(ps, name, i + 1)
    }
}

/// The settings as values.
pub struct ConfigView {
    pub url: Option<Seq<char>>,
    pub browser: Seq<char>,
    pub output: Seq<char>,
    pub max_pages: nat,
    pub delay_ms: nat,
    pub selector: Option<Seq<char>>,
    pub prefix: Option<Seq<char>>,
    pub no_browser: bool,
    pub headless: bool,
}

impl Config {
    /// The settings as values.
    pub open spec fn view(&self) -> ConfigView {
        ConfigView {
            url: opt_view(self.url),
            browser: self.browser@,
            output: self.output@,
            max_pages: self.max_pages as nat,
            delay_ms: self.delay_ms as nat,
            selector: opt_view(self.selector),
            prefix: opt_view(self.prefix),
            no_browser: self.no_browser,
            headless: self.headless,
        }
    }
}

/// The settings `cli` and `file` give, with the profile `prof` (if one was asked for):
/// each setting comes from the command line, else the profile, else the file's defaults,
/// else the built-in fallback (`auto`, `./output`, 500 pages, 500 ms; none for the URL,
/// selector and prefix).
pub open spec fn merged(cli: Cli, prof: Option<ProfileConfig>, def: ProfileConfig) -> ConfigView {
    let pu = match prof { Some(p) => opt_view(p.url), None => None };
    let pb = match prof { Some(p) => opt_view(p.browser), None => None };
    let po = match prof { Some(p) => opt_view(p.output), None => None };
    let pm = match prof { Some(p) => opt_nat_usize(p.max_pages), None => None };
    let pd = match prof { Some(p) => crate::text::opt_nat_u64(p.delay), None => None };
    let ps = match prof { Some(p) => opt_view(p.selector), None => None };
    let pp = match prof { Some(p) => opt_view(p.prefix), None => None };
    ConfigView {
        url: first_set(opt_view(cli.url), pu, opt_view(def.url)),
        browser: or_default(first_set(opt_view(cli.browser), pb, opt_view(def.browser)), "auto"@),
        output: or_default(first_set(opt_view(cli.output), po, opt_view(def.output)), "./output"@),
        max_pages: or_default(first_set(opt_nat_usize(cli.max_pages), pm, opt_nat_usize(def.max_pages)), 500),
        delay_ms: or_default(first_set(crate::text::opt_nat_u64(cli.delay), pd, crate::text::opt_nat_u64(def.delay)), 500),
        selector: first_set(opt_view(cli.selector), ps, opt_view(def.selector)),
        prefix: first_set(opt_view(cli.prefix), pp, opt_view(def.prefix)),
        no_browser: cli.no_browser,
        headless: cli.headless,
    }
}

/// The browsers that can be asked for, in lowercase.
pub open spec fn known_browser(b: Seq<char>) -> bool {
    b == "auto"@ || b == "firefox"@ || b == "chrome"@
}

/// What merging gives: an error for a missing profile, then for an unknown browser; else
/// the merged settings.
pub open spec fn resolution(cli: Cli, file: TomlConfig) -> Result<ConfigView, Seq<char>> {
    let found = match cli.profile {
        Some(n) => profile_index(file.profiles@, n@, 0),
        None => None,
    };
    if cli.profile is Some && found is None {
        Err("Profile '"@ + cli.profile->0@ + "' not found in config file"@)
    } else {
        let prof = match found {
            Some(i) => Some(file.profiles@[i].profile),
            None => None,
        };
        let m = merged(cli, prof, file.default);
        let lb = lower_text(m.browser);
        if !known_browser(lb) {
            Err("Invalid --browser '"@ + lb + "' (use auto, firefox, or chrome)"@)
        } else {
            Ok(m)
        }
    }
}

/// The profile that `cli` asks for, when the file has it.
pub open spec fn chosen_profile(cli: Cli, file: TomlConfig) -> Option<ProfileConfig> {
    match cli.profile {
        Some(n) => match profile_index(file.profiles@, n@, 0) {
            Some(i) => Some(file.profiles@[i].profile),
            None => None,
        },
        None => None,
    }
}

/// `v` is what the precedence gives for one setting: the command line's value if set, else
/// the profile's, else the `[default]` section's.
pub open spec fn ranked<T>(cli_v: Option<T>, prof_v: Option<T>, def_v: Option<T>, v: T) -> bool {
    &&& cli_v matches Some(x) ==> v == x
    &&& cli_v is None ==> (prof_v matches Some(x) ==> v == x)
    &&& cli_v is None && prof_v is None ==> (def_v matches Some(x) ==> v == x)
}

/// An optional setting follows the same precedence, and is unset only when no source sets it.
pub open spec fn ranked_opt<T>(cli_v: Option<T>, prof_v: Option<T>, def_v: Option<T>, v: Option<T>) -> bool {
    &&& v is None <==> (cli_v is None && prof_v is None && def_v is None)
    &&& v matches Some(x) ==> ranked(cli_v, prof_v, def_v, x)
}

/// Command-line arguments override profile values, which override `[default]` values, for
/// every setting of a merge that succeeds.
pub proof fn lemma_precedence(cli: Cli, file: TomlConfig)
    requires
        resolution(cli, file) is Ok,
    ensures
        ({
            let v = resolution(cli, file)->Ok_0;
            let p = chosen_profile(cli, file);
            let d = file.default;
            &&& ranked_opt(opt_view(cli.url), match p { Some(q) => opt_view(q.url), None => None }, opt_view(d.url),
                v.url)
            &&& ranked(opt_view(cli.browser), match p { Some(q) => opt_view(q.browser), None => None },
                opt_view(d.browser), v.browser)
            &&& ranked(opt_view(cli.output), match p { Some(q) => opt_view(q.output), None => None },
                opt_view(d.output), v.output)
            &&& ranked(opt_nat_usize(cli.max_pages), match p { Some(q) => opt_nat_usize(q.max_pages), None => None },
                opt_nat_usize(d.max_pages), v.max_pages)
            &&& ranked(crate::text::opt_nat_u64(cli.delay), match p { Some(q) => crate::text::opt_nat_u64(q.delay),
                None => None }, crate::text::opt_nat_u64(d.delay), v.delay_ms)
            &&& ranked_opt(opt_view(cli.selector), match p { Some(q) => opt_view(q.selector), None => None },
                opt_view(d.selector), v.selector)
            &&& ranked_opt(opt_view(cli.prefix), match p { Some(q) => opt_view(q.prefix), None => None },
                opt_view(d.prefix), v.prefix)
        }),
{
}

fn pick_str(a: &Option<String>, b: Option<&Option<String>>, c: &Option<String>) -> (r: Option<String>)
    ensures
        opt_view(r) == first_set(
            opt_view(*a),
            match b { Some(x) => opt_view(*x), None => None },
            opt_view(*c),
        ),
{
    match a {
        Some(x) => Some(x.clone()),
        None => {
            let from_b = match b {
                Some(Some(x)) => Some(x.clone()),
                _ => None,
            };
            match from_b {
                Some(x) => Some(x),
                None => match c {
                    Some(x) => Some(x.clone()),
                    None => None,
                },
            }
        },
    }
}

fn pick_num<T: Copy>(a: Option<T>, b: Option<Option<T>>, c: Option<T>) -> (r: Option<T>)
    ensures
        r == first_set(a, match b { Some(x) => x, None => None }, c),
{
    match a {
        Some(x) => Some(x),
        None => match b {
            Some(Some(x)) => Some(x),
            _ => c,
        },
    }
}

impl Config {
    /// Merges the command line with the config file (read by the caller): command line over
    /// the named profile over the `[default]` section over the built-in fallbacks.
    pub fn resolve(cli: Cli, file: TomlConfig) -> (r: Result<Config, String>)
        ensures
            match r {
                Ok(c) => resolution(cli, file) == Ok::<ConfigView, Seq<char>>(c.view()),
                Err(e) => resolution(cli, file) == Err::<ConfigView, Seq<char>>(e@),
            },
    {
        let mut found: Option<usize> = None;
        match &cli.profile {
            Some(name) => {
                let mut i: usize = 0;
                while i < file.profiles.len() && found.is_none()
                    invariant
                        i <= file.profiles@.len(),
                        cli.profile == Some(*name),
                        found matches Some(k) ==> profile_index(file.profiles@, name@, 0) == Some(k as int)
                            && k < file.profiles@.len(),
                        found is None ==> profile_index(file.profiles@, name@, 0) == profile_index(
                            file.profiles@,
                            name@,
                            i as int,
                        ),
                    decreases file.profiles@.len() - i + (if found is None { 1int } else { 0int }),
                {
                    if file.profiles[i].name == *name {
                        found = Some(i);
                    } else {
                        i = i + 1;
                    }
                }
                if found.is_none() {
                    let mut m = chars_of("Profile '");
                    append_str(&mut m, name.as_str());
                    append_str(&mut m, "' not found in config file");
                    return Err(string_from(m.as_slice()));
                }
            },
            None => {},
        }
        let prof: Option<&ProfileConfig> = match found {
            Some(i) => Some(&file.profiles[i].profile),
            None => None,
        };
        let def = &file.default;
        let url = pick_str(&cli.url, match prof { Some(p) => Some(&p.url), None => None }, &def.url);
        let browser = match pick_str(&cli.browser, match prof { Some(p) => Some(&p.browser), None => None }, &def.browser) {
            Some(b) => b,
            None => "auto".to_string(),
        };
        let lb = lower_chars(chars_of(browser.as_str()).as_slice());
        if !chars_eq(lb.as_slice(), chars_of("auto").as_slice()) && !chars_eq(lb.as_slice(), chars_of("firefox").as_slice())
            && !chars_eq(lb.as_slice(), chars_of("chrome").as_slice()) {
            let mut m = chars_of("Invalid --browser '");
            append_chars(&mut m, lb.as_slice());
            append_str(&mut m, "' (use auto, firefox, or chrome)");
            return Err(string_from(m.as_slice()));
        }
        let output = match pick_str(&cli.output, match prof { Some(p) => Some(&p.output), None => None }, &def.output) {
            Some(o) => o,
            None => "./output".to_string(),
        };
        let max_pages = match pick_num(cli.max_pages, match prof { Some(p) => Some(p.max_pages), None => None }, def.max_pages) {
            Some(m) => m,
            None => 500,
        };
        let delay_ms = match pick_num(cli.delay, match prof { Some(p) => Some(p.delay), None => None }, def.delay) {
            Some(d) => d,
            None => 500,
        };
        let selector = pick_str(&cli.selector, match prof { Some(p) => Some(&p.selector), None => None }, &def.selector);
        let prefix = pick_str(&cli.prefix, match prof { Some(p) => Some(&p.prefix), None => None }, &def.prefix);
        Ok(Config {
            url,
            browser,
            output,
            max_pages,
            delay_ms,
            selector,
            prefix,
            no_browser: cli.no_browser,
            headless: cli.headless,
        })
    }
}

} // verus!
