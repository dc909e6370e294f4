//! From a page's HTML to its title and its main content as markdown.
use vstd::prelude::*;
use crate::text::{
    append_chars, chars_of, find, find_from, fold_chars, folded, is_whitespace, is_ws,
    matches_at, rfind_before, rfind_char, slice_chars, starts_with, string_from, trim, trimmed,
};

verus! {

/// A page converted to markdown.
#[derive(Debug)]
pub struct ConvertedPage {
    pub markdown: String,
    pub title: String,
}

/// The trimmed text between the first `open` tag (after its `>`) and the next `close`,
/// when there is one and it is not blank.
pub open spec fn text_between(h: Seq<char>, open: Seq<char>, close: Seq<char>) -> Option<Seq<char>> {
    match find_from(h, open, 0) {
        None => None,
        Some(start) => match find_from(h, ">"@, start) {
            None => None,
            Some(g) => match find_from(h, close, g + 1) {
                None => None,
                Some(e) => {
                    let t = trim(h.subrange(g + 1, e));
                    if t.len() > 0 {
                        Some(t)
                    } else {
                        None
                    }
                },
            },
        },
    }
}

/// A page's title: the text of its `<title>`, else of its first `<h1>`, else empty.
pub open spec fn page_title(h: Seq<char>) -> Seq<char> {
    match text_between(h, "<title"@, "</title>"@) {
        Some(t) => t,
        None => match text_between(h, "<h1"@, "</h1>"@) {
            Some(t) => t,
            None => seq![],
        },
    }
}

fn between(h: &[char], open: &str, close: &str) -> (r: Option<Vec<char>>)
    ensures
        r matches Some(v) ==> text_between(h@, open@, close@) == Some(v@),
        r is None ==> text_between(h@, open@, close@) is None,
{
    let o = chars_of(open);
    let c = chars_of(close);
    let gt = chars_of(">");
    let start = match find(h, o.as_slice(), 0) {
        Some(s) => s,
        None => return None,
    };
    proof {
        reveal_strlit(">");
    }
    let g = match find(h, gt.as_slice(), start) {
        Some(g) => g,
        None => return None,
    };
    proof {
        crate::text::lemma_find_from(h@, gt@, start as int);
    }
    let hl = h.len();
    assert(g + 1 <= hl);
    let e = match find(h, c.as_slice(), g + 1) {
        Some(e) => e,
        None => return None,
    };
    proof {
        crate::text::lemma_find_from(h@, c@, g + 1);
    }
    let inner = slice_chars(h, g + 1, e);
    let t = trimmed(inner.as_slice());
    if t.len() > 0 {
        Some(t)
    } else {
        None
    }
}

/// The title of a page's HTML.
pub fn extract_title(html: &str) -> (r: String)
    ensures
        r@ == page_title(html@),
{
    let h = chars_of(html);
    match between(h.as_slice(), "<title", "</title>") {
        Some(t) => string_from(t.as_slice()),
        None => match between(h.as_slice(), "<h1", "</h1>") {
            Some(t) => string_from(t.as_slice()),
            None => String::new(),
        },
    }
}

/// `s` with leading and trailing `[` and `]` removed.
pub open spec fn trim_brackets(s: Seq<char>) -> Seq<char>
    decreases s.len(),
{
    if s.len() > 0 && (s[0] == '[' || s[0] == ']') {
        trim_brackets(s.drop_first())
    } else if s.len() > 0 && (s.last() == '[' || s.last() == ']') {
        trim_brackets(s.drop_last())
    } else {
        s
    }
}

/// What a selector is looked for as in the raw HTML: a tag opening such as `<main`; the
/// inside of an attribute selector such as `role="main"`; `class="name` for `.name`; or
/// `<` followed by the selector.
pub open spec fn search_text(selector: Seq<char>) -> Seq<char> {
    if starts_with(selector, "<"@) {
        selector
    } else if starts_with(selector, "["@) {
        trim_brackets(selector)
    } else if starts_with(selector, "."@) {
        "class=\""@ + selector.drop_first()
    } else {
        "<"@ + selector
    }
}

/// The index just past the tag name that starts at `i`: the first whitespace or `>` at or after `i`.
pub open spec fn name_end(h: Seq<char>, i: int) -> int
    decreases h.len() - i,
{
    if i < 0 || i >= h.len() || is_ws(h[i]) || h[i] == '>' {
        i
    } else {
        name_end(h, i + 1)
    }
}

/// A `.name` selector, which matches only a whole class word.
pub open spec fn is_class_selector(selector: Seq<char>) -> bool {
    !starts_with(selector, "<"@) && !starts_with(selector, "["@) && starts_with(selector, "."@)
}

/// A word of `l` ends at `i`: a closing quote or whitespace stands there.
pub open spec fn word_ends(l: Seq<char>, i: int) -> bool {
    0 <= i < l.len() && (l[i] == '"' || is_ws(l[i]))
}

/// The first position at or after `from` where `p` occurs in `l`, followed by the end of a
/// word when `word` is set.
pub open spec fn find_selector(l: Seq<char>, p: Seq<char>, word: bool, from: int) -> Option<int>
    decreases l.len() - from,
{
    if from < 0 || from + p.len() > l.len() {
        None
    } else if matches_at(l, p, from) && (!word || word_ends(l, from + p.len())) {
        Some(from)
    } else if from + p.len() == l.len() {
        None
    } else {
        find_selector(l, p, word, from + 1)
    }
}

/// The content of the first element matching `selector`: the tag that holds the first
/// case-insensitive occurrence of the selector's search text (a `.name` selector as a whole
/// class word), from after that tag's `>` up to the first closing tag of the same name.
/// The tag is the one whose `<` is at or last before the occurrence, so a `<main` search
/// picks the `<main>` element itself. Case is compared character by character through
/// `folded`, so every position found is a position of `h`.
pub open spec fn content_range(h: Seq<char>, selector: Seq<char>) -> Option<(int, int)> {
    let l = folded(h);
    match find_selector(l, folded(search_text(selector)), is_class_selector(selector), 0) {
        None => None,
        Some(m) => if m >= l.len() {
            None
        } else {
            match rfind_before(l, '<', m + 1) {
                None => None,
                Some(open) => match find_from(h, ">"@, open) {
                    None => None,
                    Some(g) => {
                        let close = "</"@ + folded(h.subrange(open + 1, name_end(h, open + 1)));
                        match find_from(l, close, g + 1) {
                            None => None,
                            Some(e) => Some((g + 1, e)),
                        }
                    },
                },
            }
        },
    }
}

/// The content the selector picks from `h`, if any.
pub open spec fn selected_content(h: Seq<char>, selector: Seq<char>) -> Option<Seq<char>> {
    match content_range(h, selector) {
        Some((a, b)) => Some(h.subrange(a, b)),
        None => None,
    }
}

fn find_selector_exec(l: &[char], p: &[char], word: bool) -> (r: Option<usize>)
    ensures
        r matches Some(i) ==> find_selector(l@, p@, word, 0) == Some(i as int),
        r is None ==> find_selector(l@, p@, word, 0) is None,
{
    let mut i: usize = 0;
    loop
        invariant
            i <= l@.len(),
            find_selector(l@, p@, word, 0) == find_selector(l@, p@, word, i as int),
        decreases l@.len() - i,
    {
        if p.len() > l.len() - i {
            return None;
        }
        let end = i + p.len();
        let ends = end < l.len() && (l[end] == '"' || is_whitespace(l[end]));
        if crate::text::match_at(l, p, i) && (!word || ends) {
            return Some(i);
        }
        if end == l.len() {
            return None;
        }
        i = i + 1;
    }
}

fn search_text_exec(sel: &[char]) -> (r: Vec<char>)
    ensures
        r@ == search_text(sel@),
{
    let lt = chars_of("<");
    let lb = chars_of("[");
    let dot = chars_of(".");
    proof {
        reveal_strlit(".");
        reveal_strlit("[");
        reveal_strlit("<");
    }
    if crate::text::has_prefix(sel, lt.as_slice()) {
        slice_chars(sel, 0, sel.len())
    } else if crate::text::has_prefix(sel, lb.as_slice()) {
        let mut a: usize = 0;
        let mut b: usize = sel.len();
        assert(sel@.subrange(0, sel@.len() as int) =~= sel@);
        while a < b && (sel[a] == '[' || sel[a] == ']')
            invariant
                a <= b <= sel@.len(),
                b == sel@.len(),
                trim_brackets(sel@) == trim_brackets(sel@.subrange(a as int, b as int)),
            decreases b - a,
        {
            assert(sel@.subrange(a as int, b as int).drop_first() =~= sel@.subrange(a + 1, b as int));
            a = a + 1;
        }
        while a < b && (sel[b - 1] == '[' || sel[b - 1] == ']')
            invariant
                a <= b <= sel@.len(),
                a < b ==> !(sel@[a as int] == '[' || sel@[a as int] == ']'),
                trim_brackets(sel@) == trim_brackets(sel@.subrange(a as int, b as int)),
            decreases b - a,
        {
            assert(sel@.subrange(a as int, b as int).drop_last() =~= sel@.subrange(a as int, b - 1));
            b = b - 1;
        }
        assert(sel@.subrange(0, sel@.len() as int) =~= sel@);
        slice_chars(sel, a, b)
    } else if crate::text::has_prefix(sel, dot.as_slice()) {
        let mut r = chars_of("class=\"");
        let rest = slice_chars(sel, 1, sel.len());
        assert(rest@ =~= sel@.drop_first());
        append_chars(&mut r, rest.as_slice());
        r
    } else {
        let mut r = chars_of("<");
        append_chars(&mut r, sel);
        r
    }
}

fn is_class_selector_exec(sel: &[char]) -> (r: bool)
    ensures
        r == is_class_selector(sel@),
{
    let lt = chars_of("<");
    let lb = chars_of("[");
    let dot = chars_of(".");
    !crate::text::has_prefix(sel, lt.as_slice()) && !crate::text::has_prefix(sel, lb.as_slice())
        && crate::text::has_prefix(sel, dot.as_slice())
}

/// The bounds of the content `selector` picks, given the folded form of the HTML.
pub fn content_bounds(h: &[char], lower: &[char], selector: &[char]) -> (r: Option<(usize, usize)>)
    requires
        lower@ == folded(h@),
    ensures
        r matches Some((a, b)) ==> a <= b <= h@.len() && content_range(h@, selector@) == Some(
            (a as int, b as int),
        ),
        r is None ==> content_range(h@, selector@) is None,
{
    let search = search_text_exec(selector);
    let search_lower = fold_chars(search.as_slice());
    let word = is_class_selector_exec(selector);
    let m = match find_selector_exec(lower, search_lower.as_slice(), word) {
        Some(m) => m,
        None => return None,
    };
    if m >= lower.len() {
        return None;
    }
    let open = match rfind_char(lower, '<', m + 1) {
        Some(o) => o,
        None => return None,
    };
    proof {
        lemma_rfind_before(lower@, '<', m + 1);
    }
    let gt = chars_of(">");
    proof {
        reveal_strlit(">");
    }
    let g = match find(h, gt.as_slice(), open) {
        Some(g) => g,
        None => return None,
    };
    proof {
        crate::text::lemma_find_from(h@, gt@, open as int);
    }
    let mut k = open + 1;
    while k < h.len() && !is_whitespace(h[k]) && h[k] != '>'
        invariant
            open + 1 <= k <= h@.len(),
            name_end(h@, open + 1) == name_end(h@, k as int),
        decreases h@.len() - k,
    {
        k = k + 1;
    }
    let name = slice_chars(h, open + 1, k);
    let name_lower = fold_chars(name.as_slice());
    let mut close = chars_of("</");
    append_chars(&mut close, name_lower.as_slice());
    let e = match find(lower, close.as_slice(), g + 1) {
        Some(e) => e,
        None => return None,
    };
    proof {
        crate::text::lemma_find_from(lower@, close@, g + 1);
    }
    Some((g + 1, e))
}

proof fn lemma_rfind_before(s: Seq<char>, c: char, end: int)
    requires
        end <= s.len(),
    ensures
        rfind_before(s, c, end) matches Some(i) ==> 0 <= i < end,
    decreases end,
{
    if end > 0 && s[end - 1] != c {
        lemma_rfind_before(s, c, end - 1);
    }
}

/// The inner HTML of the first element `selector` matches (see `content_range`), if any.
pub fn extract_content(html: &[char], selector: &str) -> (r: Option<Vec<char>>)
    ensures
        r matches Some(v) ==> selected_content(html@, selector@) == Some(v@),
        r is None ==> selected_content(html@, selector@) is None,
{
    let lower = fold_chars(html);
    let sel = chars_of(selector);
    match content_bounds(html, lower.as_slice(), sel.as_slice()) {
        Some((a, b)) => Some(slice_chars(html, a, b)),
        None => None,
    }
}

} // verus!

verus! {

/// Names the markdown `htmd` produces for an HTML text with the given tags skipped.
pub uninterp spec fn htmd_markdown(skip_tags: Seq<Seq<char>>, html: Seq<char>) -> Seq<char>;

/// The tags whose content never reaches the markdown.
pub open spec fn skipped_tags() -> Seq<Seq<char>> {
    seq!["script"@, "style"@, "noscript"@, "svg"@]
}

/// `htmd::HtmlToMarkdown::builder().skip_tags(..).build().convert(html)`.
/// Trusted: it succeeds (in the version used, building the tree never fails) and the
/// markdown is `htmd_markdown` of the skip list and the HTML.
#[verifier::external_body]
fn htmd_convert(skip_tags: &Vec<&str>, html: &str) -> (r: Result<String, String>)
    ensures
        r is Ok,
        r matches Ok(m) ==> m@ == htmd_markdown(skip_tags@.map_values(|t: &str| t@), html@),
{
    htmd::HtmlToMarkdown::builder().skip_tags(skip_tags.clone()).build().convert(html).map_err(
        |e| e.to_string(),
    )
}

/// The selectors tried, in order, when none is given.
pub open spec fn default_selectors() -> Seq<Seq<char>> {
    seq!["<main"@, "<article"@, "[role=\"main\"]"@, ".content"@, "<body"@]
}

/// The content picked by the first of `sels[i..]` that matches, or the whole page.
pub open spec fn first_selected(h: Seq<char>, sels: Seq<Seq<char>>, i: int) -> Seq<char>
    decreases sels.len() - i,
{
    if i < 0 || i >= sels.len() {
        h
    } else {
        match selected_content(h, sels[i]) {
            Some(c) => c,
            None => first_selected(h, sels, i + 1),
        }
    }
}

/// The part of the page converted: what the given selector picks (the whole page when it
/// picks nothing), or without one the first of `<main>`, `<article>`, `[role="main"]`,
/// `.content`, `<body>` that matches, else the whole page.
pub open spec fn page_content_html(h: Seq<char>, selector: Option<Seq<char>>) -> Seq<char> {
    match selector {
        Some(sel) => match selected_content(h, sel) {
            Some(c) => c,
            None => h,
        },
        None => first_selected(h, default_selectors(), 0),
    }
}

/// Converts a page to markdown, with its title.
pub fn html_to_markdown(html: &str, selector: Option<&str>) -> (r: Result<ConvertedPage, String>)
    ensures
        r is Ok,
        r matches Ok(p) ==> {
            &&& p.title@ == page_title(html@)
            &&& p.markdown@ == htmd_markdown(
                skipped_tags(),
                page_content_html(html@, crate::text::opt_str_view(selector)),
            )
        },
{
    let title = extract_title(html);
    let h = chars_of(html);
    let content: Vec<char> = match selector {
        Some(sel) => match extract_content(h.as_slice(), sel) {
            Some(c) => c,
            None => h,
        },
        None => {
            let sels: Vec<&str> = vec!["<main", "<article", "[role=\"main\"]", ".content", "<body"];
            let ghost gs = sels@.map_values(|t: &str| t@);
            assert(gs =~= default_selectors());
            let mut i: usize = 0;
            let mut found: Option<Vec<char>> = None;
            while i < sels.len() && found.is_none()
                invariant
                    i <= sels@.len(),
                    gs == sels@.map_values(|t: &str| t@),
                    gs == default_selectors(),
                    h@ == html@,
                    found matches Some(c) ==> c@ == first_selected(h@, gs, 0),
                    found is None ==> first_selected(h@, gs, 0) == first_selected(h@, gs, i as int),
                decreases sels@.len() - i + (if found is None { 1int } else { 0int }),
            {
                match extract_content(h.as_slice(), sels[i]) {
                    Some(c) => {
                        found = Some(c);
                    },
                    None => {
                        i = i + 1;
                    },
                }
            }
            match found {
                Some(c) => c,
                None => h,
            }
        },
    };
    let skip: Vec<&str> = vec!["script", "style", "noscript", "svg"];
    assert(skip@.map_values(|t: &str| t@) =~= skipped_tags());
    let text = string_from(content.as_slice());
    match htmd_convert(&skip, text.as_str()) {
        Ok(markdown) => Ok(ConvertedPage { markdown, title }),
        Err(e) => Err(e),
    }
}

/// With no selector given, the part of a page that is converted is the content of the first
/// of these that the page has: a `<main>` element, an `<article>` element, an element with
/// `role="main"`, an element of class `content`, the `<body>` element; a page with none of
/// them is converted whole. A given selector alone decides: what it picks, else the whole page.
pub proof fn law_default_selector_order(h: Seq<char>)
    ensures
        selected_content(h, "<main"@) is Some ==> page_content_html(h, None) == selected_content(
            h,
            "<main"@,
        )->0,
        selected_content(h, "<main"@) is None && selected_content(h, "<article"@) is Some
            ==> page_content_html(h, None) == selected_content(h, "<article"@)->0,
        selected_content(h, "<main"@) is None && selected_content(h, "<article"@) is None
            && selected_content(h, "[role=\"main\"]"@) is Some ==> page_content_html(h, None)
            == selected_content(h, "[role=\"main\"]"@)->0,
        selected_content(h, "<main"@) is None && selected_content(h, "<article"@) is None
            && selected_content(h, "[role=\"main\"]"@) is None && selected_content(h, ".content"@)
            is Some ==> page_content_html(h, None) == selected_content(h, ".content"@)->0,
        selected_content(h, "<main"@) is None && selected_content(h, "<article"@) is None
            && selected_content(h, "[role=\"main\"]"@) is None && selected_content(h, ".content"@)
            is None && selected_content(h, "<body"@) is Some ==> page_content_html(h, None)
            == selected_content(h, "<body"@)->0,
        selected_content(h, "<main"@) is None && selected_content(h, "<article"@) is None
            && selected_content(h, "[role=\"main\"]"@) is None && selected_content(h, ".content"@)
            is None && selected_content(h, "<body"@) is None ==> page_content_html(h, None) == h,
        forall|sel: Seq<char>|
            #![trigger page_content_html(h, Some(sel))]
            page_content_html(h, Some(sel)) == if selected_content(h, sel) is Some {
                selected_content(h, sel)->0
            } else {
                h
            },
{
    let d = default_selectors();
    assert(d.len() == 5);
    assert(d[0] == "<main"@);
    assert(d[1] == "<article"@);
    assert(d[2] == "[role=\"main\"]"@);
    assert(d[3] == ".content"@);
    assert(d[4] == "<body"@);
    reveal_with_fuel(first_selected, 6);
}

} // verus!
