# sitescrape

A command-line tool that scrapes authenticated internal websites into markdown files, using
the cookies of the user's browser. The rules of the tool are a Verus library, each function
specified with `requires`/`ensures` and proved; a thin program around it does the I/O.

## Layout

- `src/` — the verified library.
  - `text.rs`, `utf8_facts.rs`: character-level string operations and UTF-8 facts.
  - `weburl.rs`: URL parsing (through the `url` crate) as functions on strings.
  - `commands.rs`: the interactive prompt's command parser.
  - `config.rs`: merging the command line, a config-file profile and its defaults.
  - `crawler.rs`: the crawl as a state machine (`Crawler`), with its laws: no URL is fetched
    twice, only the site's own pages are fetched, the page limit holds, a stop ends the crawl.
  - `converter.rs`, `engine.rs`: titles, content selection, links, HTTP status rules,
    markdown conversion (through `htmd`).
  - `output.rs`: file names for pages, the saved file's layout, the path-traversal check.
  - `cookies.rs`: browser cookie rows, expiry conversion, Chrome cookie decryption
    (through `pbkdf2`, `cbc`, `aes-gcm`), default-browser detection from system listings.
  - `app.rs`, `tui.rs`, `screen.rs`, `cli.rs`: the terminal interface's state, its reaction to
    keys, commands and crawl reports, and what each line of the screen shows.
- `app/` — the program: argument parsing (clap), the config file (serde/toml), the page
  fetchers (chromiumoxide, reqwest), the cookie databases (rusqlite), the terminal (crossterm,
  ratatui) and the loops that drive the library.
- `tests/` — tests of the library on concrete values.
