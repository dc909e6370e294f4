//! The slash commands of the interactive terminal interface.
use vstd::prelude::*;
use crate::text::{
    chars_eq, chars_of, has_prefix, join_spaces, join_with_spaces, lemma_split_ws_some,
    opt_nat_u64, opt_nat_usize, opt_view, parse_u64, parse_unsigned, parse_usize, split_whitespace,
    split_ws, starts_with, string_from, trim, trimmed, views,
};

verus! {

/// A command typed at the interactive prompt.
#[derive(Debug)]
pub enum Command {
    Scrape {
        url: String,
        max_pages: Option<usize>,
        selector: Option<String>,
        prefix: Option<String>,
        delay: Option<u64>,
        no_browser: bool,
    },
    Stop,
    Status,
    Config,
    SetConfig { key: String, value: String },
    Cookies,
    Clear,
    Help,
    Quit,
    Unknown(String),
}

/// The options of a `/scrape` command, as values.
pub struct ScrapeOptions {
    pub max_pages: Option<nat>,
    pub selector: Option<Seq<char>>,
    pub prefix: Option<Seq<char>>,
    pub delay: Option<nat>,
    pub no_browser: bool,
}

/// A command as values.
pub enum CommandView {
    Scrape { url: Seq<char>, opts: ScrapeOptions },
    Stop,
    Status,
    Config,
    SetConfig { key: Seq<char>, value: Seq<char> },
    Cookies,
    Clear,
    Help,
    Quit,
    Unknown(Seq<char>),
}

impl View for Command {
    type V = CommandView;

    open spec fn view(&self) -> CommandView {
        match self {
            Command::Scrape { url, max_pages, selector, prefix, delay, no_browser } => {
                CommandView::Scrape {
                    url: url@,
                    opts: ScrapeOptions {
                        max_pages: opt_nat_usize(*max_pages),
                        selector: opt_view(*selector),
                        prefix: opt_view(*prefix),
                        delay: opt_nat_u64(*delay),
                        no_browser: *no_browser,
                    },
                }
            },
            Command::Stop => CommandView::Stop,
            Command::Status => CommandView::Status,
            Command::Config => CommandView::Config,
            Command::SetConfig { key, value } => CommandView::SetConfig { key: key@, value: value@ },
            Command::Cookies => CommandView::Cookies,
            Command::Clear => CommandView::Clear,
            Command::Help => CommandView::Help,
            Command::Quit => CommandView::Quit,
            Command::Unknown(m) => CommandView::Unknown(m@),
        }
    }
}

/// Index of the first argument that does not begin with `-`.
pub open spec fn first_positional(args: Seq<Seq<char>>, i: int) -> Option<int>
    decreases args.len() - i,
{
    if i < 0 || i >= args.len() {
        None
    } else if !starts_with(args[i], "-"@) {
        Some(i)
    } else {
        first_positional(args, i + 1)
    }
}

/// Reads the `/scrape` options from `args[i..]` on top of `acc`: each flag that takes a
/// value reads the next argument (when there is one); later flags win; other arguments are skipped.
pub open spec fn scrape_options(args: Seq<Seq<char>>, i: int, acc: ScrapeOptions) -> ScrapeOptions
    decreases args.len() - i,
{
    if i < 0 || i >= args.len() {
        acc
    } else {
        let a = args[i];
        let has_next = i + 1 < args.len();
        if a == "--no-browser"@ {
            scrape_options(args, i + 1, ScrapeOptions { no_browser: true, ..acc })
        } else if (a == "-m"@ || a == "--max-pages"@) && has_next {
            scrape_options(
                args,
                i + 2,
                ScrapeOptions { max_pages: parse_unsigned(args[i + 1], usize::MAX as nat), ..acc },
            )
        } else if (a == "-s"@ || a == "--selector"@) && has_next {
            scrape_options(args, i + 2, ScrapeOptions { selector: Some(args[i + 1]), ..acc })
        } else if (a == "-p"@ || a == "--prefix"@) && has_next {
            scrape_options(args, i + 2, ScrapeOptions { prefix: Some(args[i + 1]), ..acc })
        } else if (a == "-d"@ || a == "--delay"@) && has_next {
            scrape_options(
                args,
                i + 2,
                ScrapeOptions { delay: parse_unsigned(args[i + 1], u64::MAX as nat), ..acc },
            )
        } else {
            scrape_options(args, i + 1, acc)
        }
    }
}

/// A `/scrape` command with no option given.
pub open spec fn no_options() -> ScrapeOptions {
    ScrapeOptions { max_pages: None, selector: None, prefix: None, delay: None, no_browser: false }
}

/// What `/scrape` with the given arguments means.
pub open spec fn scrape_command(args: Seq<Seq<char>>) -> CommandView {
    match first_positional(args, 0) {
        Some(u) => CommandView::Scrape { url: args[u], opts: scrape_options(args, 0, no_options()) },
        None => CommandView::Unknown("/scrape requires a URL"@),
    }
}

/// What a line typed at the prompt means.
pub open spec fn command_of(input: Seq<char>) -> CommandView {
    let t = trim(input);
    if t.len() == 0 {
        CommandView::Unknown(seq![])
    } else if t[0] != '/' {
        CommandView::Unknown("Unknown command. Type /help for commands."@)
    } else {
        let toks = split_ws(t);
        let cmd = toks[0];
        let args = toks.skip(1);
        if cmd == "/stop"@ {
            CommandView::Stop
        } else if cmd == "/status"@ {
            CommandView::Status
        } else if cmd == "/config"@ {
            CommandView::Config
        } else if cmd == "/cookies"@ {
            CommandView::Cookies
        } else if cmd == "/clear"@ {
            CommandView::Clear
        } else if cmd == "/help"@ {
            CommandView::Help
        } else if cmd == "/quit"@ || cmd == "/q"@ {
            CommandView::Quit
        } else if cmd == "/set"@ {
            if args.len() < 2 {
                CommandView::Unknown("/set requires <key> <value>"@)
            } else {
                CommandView::SetConfig { key: args[0], value: join_spaces(args.skip(1)) }
            }
        } else if cmd == "/scrape"@ {
            scrape_command(args)
        } else {
            CommandView::Unknown("Unknown command: "@ + cmd)
        }
    }
}

fn lit(s: &str) -> (v: Vec<char>)
    ensures
        v@ == s@,
{
    chars_of(s)
}

fn is_tok(t: &Vec<char>, s: &str) -> (r: bool)
    ensures
        r == (t@ == s@),
{
    let l = lit(s);
    chars_eq(t.as_slice(), l.as_slice())
}

/// Parses a line typed at the interactive prompt.
pub fn parse_command(input: &str) -> (c: Command)
    ensures
        c@ == command_of(input@),
{
    let all = chars_of(input);
    let t = trimmed(all.as_slice());
    if t.len() == 0 {
        return Command::Unknown(String::new());
    }
    if t[0] != '/' {
        return Command::Unknown("Unknown command. Type /help for commands.".to_string());
    }
    assert(t@.subrange(0, t@.len() as int) =~= t@);
    let toks = split_whitespace(t.as_slice(), 0, t.len());
    proof {
        lemma_split_ws_some(t@, 0);
    }
    let cmd = &toks[0];
    assert(views(toks@)[0] == cmd@);
    if is_tok(cmd, "/stop") {
        Command::Stop
    } else if is_tok(cmd, "/status") {
        Command::Status
    } else if is_tok(cmd, "/config") {
        Command::Config
    } else if is_tok(cmd, "/cookies") {
        Command::Cookies
    } else if is_tok(cmd, "/clear") {
        Command::Clear
    } else if is_tok(cmd, "/help") {
        Command::Help
    } else if is_tok(cmd, "/quit") || is_tok(cmd, "/q") {
        Command::Quit
    } else if is_tok(cmd, "/set") {
        if toks.len() < 3 {
            Command::Unknown("/set requires <key> <value>".to_string())
        } else {
            let value = join_with_spaces(&toks, 2);
            assert(views(toks@).skip(1).skip(1) =~= views(toks@).subrange(2, toks@.len() as int));
            Command::SetConfig { key: string_from(toks[1].as_slice()), value: string_from(value.as_slice()) }
        }
    } else if is_tok(cmd, "/scrape") {
        let r = parse_scrape(&toks);
        assert(views(toks@).subrange(1, toks@.len() as int) =~= views(toks@).skip(1));
        r
    } else {
        let mut m = lit("Unknown command: ");
        let mut j: usize = 0;
        let ghost base = m@;
        while j < cmd.len()
            invariant
                j <= cmd@.len(),
                m@ == base + cmd@.take(j as int),
            decreases cmd@.len() - j,
        {
            m.push(cmd[j]);
            j = j + 1;
            assert(m@ =~= base + cmd@.take(j as int));
        }
        assert(cmd@.take(cmd@.len() as int) =~= cmd@);
        Command::Unknown(string_from(m.as_slice()))
    }
}

/// Reads `/scrape` from its arguments `toks[1..]`.
fn parse_scrape(toks: &Vec<Vec<char>>) -> (c: Command)
    requires
        toks@.len() >= 1,
    ensures
        c@ == scrape_command(views(toks@).subrange(1, toks@.len() as int)),
{
    let ghost args = views(toks@).subrange(1, toks@.len() as int);
    let dash = lit("-");
    let mut u: usize = 1;
    while u < toks.len() && has_prefix(toks[u].as_slice(), dash.as_slice())
        invariant
            1 <= u <= toks@.len(),
            dash@ == "-"@,
            args == views(toks@).subrange(1, toks@.len() as int),
            first_positional(args, 0) == first_positional(args, u - 1),
        decreases toks@.len() - u,
    {
        assert(args[u - 1] == toks@[u as int]@);
        u = u + 1;
    }
    if u == toks.len() {
        return Command::Unknown("/scrape requires a URL".to_string());
    }
    assert(args[u - 1] == toks@[u as int]@);
    let url = string_from(toks[u].as_slice());

    let mut max_pages: Option<usize> = None;
    let mut selector: Option<String> = None;
    let mut prefix: Option<String> = None;
    let mut delay: Option<u64> = None;
    let mut no_browser = false;
    let mut i: usize = 1;
    while i < toks.len()
        invariant
            1 <= i <= toks@.len() + 1,
            args == views(toks@).subrange(1, toks@.len() as int),
            scrape_options(args, 0, no_options()) == scrape_options(
                args,
                i - 1,
                ScrapeOptions {
                    max_pages: opt_nat_usize(max_pages),
                    selector: opt_view(selector),
                    prefix: opt_view(prefix),
                    delay: opt_nat_u64(delay),
                    no_browser,
                },
            ),
        decreases toks@.len() + 1 - i,
    {
        let a = &toks[i];
        assert(args[i - 1] == a@);
        let has_next = i + 1 < toks.len();
        if has_next {
            assert(args[i as int] == toks@[i + 1]@);
        }
        if is_tok(a, "--no-browser") {
            no_browser = true;
        } else if (is_tok(a, "-m") || is_tok(a, "--max-pages")) && has_next {
            max_pages = parse_usize(toks[i + 1].as_slice());
            i = i + 1;
        } else if (is_tok(a, "-s") || is_tok(a, "--selector")) && has_next {
            selector = Some(string_from(toks[i + 1].as_slice()));
            i = i + 1;
        } else if (is_tok(a, "-p") || is_tok(a, "--prefix")) && has_next {
            prefix = Some(string_from(toks[i + 1].as_slice()));
            i = i + 1;
        } else if (is_tok(a, "-d") || is_tok(a, "--delay")) && has_next {
            delay = parse_u64(toks[i + 1].as_slice());
            i = i + 1;
        }
        i = i + 1;
    }
    Command::Scrape { url, max_pages, selector, prefix, delay, no_browser }
}

} // verus!
