//! Where each scraped page is written and what the file holds.
use vstd::prelude::*;
use crate::text::{
    append_chars, append_str, chars_eq, chars_of, contains_char, ends_with, has_prefix, has_suffix,
    join_char, join_on, lemma_split_on_len, split_char, split_on, starts_with, slice_chars,
    string_from, views,
};
use crate::weburl::{parse_url, url_parses, url_path, url_query};

verus! {

/// Names the 64-bit hash that std's `DefaultHasher::new()` gives a string.
pub uninterp spec fn std_hash(s: Seq<char>) -> u64;

/// std `DefaultHasher`: a fresh `DefaultHasher::new()` fed the string with `Hash::hash`.
/// Trusted: the result is `std_hash` of the string.
#[verifier::external_body]
fn hash_str(s: &str) -> (h: u64)
    ensures
        h == std_hash(s@),
{
    std::hash::BuildHasher::hash_one(&std::hash::BuildHasherDefault::<std::collections::hash_map::DefaultHasher>::default(), s)
}

/// Names the characters `char::to_uppercase` yields for a character.
pub uninterp spec fn upper_of(c: char) -> Seq<char>;

/// Names whether a character has the Unicode `Uppercase` property (`char::is_uppercase`).
pub uninterp spec fn is_upper(c: char) -> bool;

/// std `char::to_uppercase`, collected. Trusted: the result is `upper_of(c)`, and an ASCII
/// character gives its ASCII uppercase alone.
#[verifier::external_body]
fn char_upper(c: char) -> (r: String)
    ensures
        r@ == upper_of(c),
        crate::text::is_ascii_char(c) ==> r@ == seq![crate::text::ascii_upper(c)],
{
    c.to_uppercase().collect()
}

/// std `char::is_uppercase`. Trusted: the result is `is_upper(c)`; among ASCII characters
/// exactly `A`–`Z` are uppercase.
#[verifier::external_body]
fn char_is_upper(c: char) -> (r: bool)
    ensures
        r == is_upper(c),
        crate::text::is_ascii_char(c) ==> (r <==> ('A' <= c && c <= 'Z')),
{
    c.is_uppercase()
}

/// A lowercase hexadecimal digit.
pub open spec fn hex_digit(d: nat) -> char {
    if d < 10 {
        ('0' as u32 + d) as char
    } else {
        ('a' as u32 + d - 10) as char
    }
}

/// The `n` lowest hexadecimal digits of `x`, most significant first.
pub open spec fn hex_digits(x: nat, n: nat) -> Seq<char>
    decreases n,
{
    if n == 0 {
        seq![]
    } else {
        hex_digits(x / 16, (n - 1) as nat).push(hex_digit(x % 16))
    }
}

/// A lowercase hexadecimal digit character.
pub open spec fn is_hex_char(c: char) -> bool {
    ('0' <= c && c <= '9') || ('a' <= c && c <= 'f')
}

/// `hex_digits(x, n)` has `n` characters, each a lowercase hexadecimal digit.
proof fn lemma_hex_digits(x: nat, n: nat)
    ensures
        hex_digits(x, n).len() == n,
        forall|i: int| 0 <= i < n ==> is_hex_char(#[trigger] hex_digits(x, n)[i]),
    decreases n,
{
    if n > 0 {
        lemma_hex_digits(x / 16, (n - 1) as nat);
        let d = x % 16;
        assert(is_hex_char(hex_digit(d)));
    }
}

fn hex_digits_exec(x: u64, n: usize) -> (r: Vec<char>)
    ensures
        r@ == hex_digits(x as nat, n as nat),
    decreases n,
{
    if n == 0 {
        return Vec::new();
    }
    let mut r = hex_digits_exec(x / 16, n - 1);
    let d = x % 16;
    let c = if d < 10 {
        ((48 + d) as u8) as char
    } else {
        ((97 + d - 10) as u8) as char
    };
    assert(c == hex_digit((x % 16) as nat));
    r.push(c);
    r
}

/// Eight hex digits of the low 32 bits of the string's hash (`format!("{:08x}", h & 0xFFFFFFFF)`).
pub open spec fn hash8_spec(s: Seq<char>) -> Seq<char> {
    hex_digits((std_hash(s) % 0x1_0000_0000) as nat, 8)
}

/// A short tag that keeps pages differing only in their query apart.
pub fn hash8(s: &str) -> (r: String)
    ensures
        r@ == hash8_spec(s@),
        r@.len() == 8,
        forall|i: int| 0 <= i < 8 ==> is_hex_char(#[trigger] r@[i]),
{
    proof {
        lemma_hex_digits((std_hash(s@) % 0x1_0000_0000) as nat, 8);
    }
    let h = hash_str(s);
    let low = h & 0xFFFF_FFFF;
    assert(h & 0xFFFF_FFFFu64 == h % 0x1_0000_0000) by (bit_vector);
    let v = hex_digits_exec(low, 8);
    string_from(v.as_slice())
}

/// `s` with every trailing repetition of a non-empty `p` removed (`str::trim_end_matches`).
pub open spec fn strip_suffixes(s: Seq<char>, p: Seq<char>) -> Seq<char>
    decreases s.len(),
{
    if p.len() > 0 && ends_with(s, p) {
        strip_suffixes(s.take(s.len() - p.len()), p)
    } else {
        s
    }
}

/// The length of `strip_suffixes(s[..n], p)`.
fn strip_suffixes_len(s: &[char], n: usize, p: &[char]) -> (k: usize)
    requires
        n <= s@.len(),
    ensures
        k <= n,
        strip_suffixes(s@.take(n as int), p@) == s@.take(k as int),
{
    let mut k = n;
    loop
        invariant
            k <= n <= s@.len(),
            strip_suffixes(s@.take(n as int), p@) == strip_suffixes(s@.take(k as int), p@),
        decreases k,
    {
        let head = slice_chars(s, 0, k);
        assert(head@ == s@.take(k as int));
        if p.len() > 0 && has_suffix(head.as_slice(), p) {
            assert(s@.take(k as int).take(k - p@.len()) =~= s@.take(k - p@.len()));
            k = k - p.len();
        } else {
            return k;
        }
    }
}

/// Each dash-separated word of `s` begins with its uppercase form.
pub open spec fn title_case(s: Seq<char>) -> Seq<char>
    decreases s.len(),
{
    if s.len() == 0 {
        seq![]
    } else {
        let p = s.drop_last();
        let c = s.last();
        if c == '-' {
            title_case(p).push(c)
        } else if p.len() == 0 || p.last() == '-' {
            title_case(p) + upper_of(c)
        } else {
            title_case(p).push(c)
        }
    }
}

/// The page-name form of a URL path segment:
/// `Index` for an empty one; common page extensions dropped; a dash-free word with an
/// uppercase letter kept as is; otherwise every dash-separated word capitalised.
pub open spec fn segment_name(s: Seq<char>) -> Seq<char> {
    let t = strip_suffixes(
        strip_suffixes(
            strip_suffixes(strip_suffixes(strip_suffixes(s, ".html"@), ".htm"@), ".php"@),
            ".aspx"@,
        ),
        ".jsp"@,
    );
    if s.len() == 0 || t.len() == 0 {
        "Index"@
    } else if !t.contains('-') && exists|i: int| 0 <= i < t.len() && is_upper(#[trigger] t[i]) {
        t
    } else {
        title_case(t)
    }
}

fn any_upper(s: &[char]) -> (r: bool)
    ensures
        r == exists|i: int| 0 <= i < s@.len() && is_upper(#[trigger] s@[i]),
{
    let mut i: usize = 0;
    while i < s.len()
        invariant
            i <= s@.len(),
            forall|j: int| 0 <= j < i ==> !is_upper(#[trigger] s@[j]),
        decreases s@.len() - i,
    {
        if char_is_upper(s[i]) {
            return true;
        }
        i = i + 1;
    }
    false
}

fn title_case_exec(s: &[char]) -> (r: Vec<char>)
    ensures
        r@ == title_case(s@),
{
    let mut r: Vec<char> = Vec::new();
    let mut i: usize = 0;
    while i < s.len()
        invariant
            i <= s@.len(),
            r@ == title_case(s@.take(i as int)),
        decreases s@.len() - i,
    {
        let c = s[i];
        let ghost t = s@.take(i + 1);
        assert(t.drop_last() =~= s@.take(i as int));
        assert(t.last() == c);
        if c == '-' || !(i == 0 || s[i - 1] == '-') {
            r.push(c);
        } else {
            let up = chars_of(char_upper(c).as_str());
            let ghost base = r@;
            let mut j: usize = 0;
            while j < up.len()
                invariant
                    j <= up@.len(),
                    r@ == base + up@.take(j as int),
                decreases up@.len() - j,
            {
                r.push(up[j]);
                j = j + 1;
                assert(r@ =~= base + up@.take(j as int));
            }
            assert(up@.take(up@.len() as int) =~= up@);
        }
        i = i + 1;
    }
    assert(s@.take(s@.len() as int) =~= s@);
    r
}

fn segment_to_name_chars(s: &[char]) -> (r: Vec<char>)
    ensures
        r@ == segment_name(s@),
{
    if s.len() == 0 {
        return chars_of("Index");
    }
    assert(s@.take(s@.len() as int) =~= s@);
    let k1 = strip_suffixes_len(s, s.len(), chars_of(".html").as_slice());
    let k2 = strip_suffixes_len(s, k1, chars_of(".htm").as_slice());
    let k3 = strip_suffixes_len(s, k2, chars_of(".php").as_slice());
    let k4 = strip_suffixes_len(s, k3, chars_of(".aspx").as_slice());
    let k5 = strip_suffixes_len(s, k4, chars_of(".jsp").as_slice());
    if k5 == 0 {
        return chars_of("Index");
    }
    let t = slice_chars(s, 0, k5);
    assert(t@ =~= s@.take(k5 as int));
    if !contains_char(t.as_slice(), '-') && any_upper(t.as_slice()) {
        t
    } else {
        title_case_exec(t.as_slice())
    }
}

/// The page-name form of one URL path segment.
pub fn segment_to_name(s: &str) -> (r: String)
    ensures
        r@ == segment_name(s@),
{
    let v = chars_of(s);
    let r = segment_to_name_chars(v.as_slice());
    string_from(r.as_slice())
}


/// The path segments that name something: not empty, not `.` and not `..`.
pub open spec fn named_segments(ts: Seq<Seq<char>>) -> Seq<Seq<char>>
    decreases ts.len(),
{
    if ts.len() == 0 {
        seq![]
    } else {
        let t = ts.last();
        if t.len() > 0 && t != "."@ && t != ".."@ {
            named_segments(ts.drop_last()).push(t)
        } else {
            named_segments(ts.drop_last())
        }
    }
}

/// The relative markdown file a page is saved to: its path below the base URL's path,
/// each directory segment and the last segment turned into page names (`Index` when there
/// is none), a tag of the query's hash when there is a query, and `.md`. `Index.md` when
/// either URL does not parse.
pub open spec fn filepath_for(url: Seq<char>, base: Seq<char>) -> Seq<char> {
    if !url_parses(url) || !url_parses(base) {
        "Index.md"@
    } else {
        let path = url_path(url);
        let bp = strip_suffixes(url_path(base), "/"@);
        let rel = if bp.len() > 0 && starts_with(path, bp) {
            path.skip(bp.len() as int)
        } else {
            path
        };
        let segs = named_segments(split_on(rel, '/'));
        let filename = if segs.len() == 0 {
            "Index"@
        } else {
            segment_name(segs.last())
        };
        let dirs = if segs.len() > 1 {
            segs.drop_last().map_values(|w: Seq<char>| segment_name(w))
        } else {
            seq![]
        };
        let suffix = match url_query(url) {
            Some(q) => "_"@ + hash8_spec(q),
            None => seq![],
        };
        let name = filename + suffix + ".md"@;
        if dirs.len() == 0 {
            name
        } else {
            join_on(dirs, '/') + "/"@ + name
        }
    }
}

fn keep_named(ts: &Vec<Vec<char>>) -> (r: Vec<Vec<char>>)
    ensures
        views(r@) == named_segments(views(ts@)),
{
    let dot = chars_of(".");
    let dotdot = chars_of("..");
    let mut r: Vec<Vec<char>> = Vec::new();
    let mut i: usize = 0;
    while i < ts.len()
        invariant
            i <= ts@.len(),
            dot@ == "."@,
            dotdot@ == ".."@,
            views(r@) == named_segments(views(ts@).take(i as int)),
        decreases ts@.len() - i,
    {
        let ghost sub = views(ts@).take(i + 1);
        assert(sub.drop_last() =~= views(ts@).take(i as int));
        assert(sub.last() == ts@[i as int]@);
        let t = &ts[i];
        if t.len() > 0 && !chars_eq(t.as_slice(), dot.as_slice()) && !chars_eq(t.as_slice(), dotdot.as_slice()) {
            let ghost old_r = views(r@);
            r.push(slice_chars(t.as_slice(), 0, t.len()));
            assert(t@.subrange(0, t@.len() as int) =~= t@);
            assert(views(r@) =~= old_r.push(t@));
        }
        i = i + 1;
    }
    assert(views(ts@).take(ts@.len() as int) =~= views(ts@));
    r
}

/// The markdown file, relative to the output directory, that the page at `url` is saved to.
pub fn url_to_filepath(url: &str, base_url: &str) -> (r: String)
    ensures
        r@ == filepath_for(url@, base_url@),
{
    let (u, b) = match (parse_url(url), parse_url(base_url)) {
        (Ok(u), Ok(b)) => (u, b),
        _ => return "Index.md".to_string(),
    };
    let path = chars_of(u.path.as_str());
    let bpath = chars_of(b.path.as_str());
    let slash = chars_of("/");
    let bl = strip_suffixes_len(bpath.as_slice(), bpath.len(), slash.as_slice());
    assert(bpath@.take(bpath@.len() as int) =~= bpath@);
    let bp = slice_chars(bpath.as_slice(), 0, bl);
    assert(bp@ =~= bpath@.take(bl as int));
    let rel = if bl > 0 && has_prefix(path.as_slice(), bp.as_slice()) {
        assert(path@.subrange(bl as int, path@.len() as int) =~= path@.skip(bl as int));
        slice_chars(path.as_slice(), bl, path.len())
    } else {
        slice_chars(path.as_slice(), 0, path.len())
    };
    assert(path@.subrange(0, path@.len() as int) =~= path@);
    let pieces = split_char(rel.as_slice(), '/');
    let segs = keep_named(&pieces);
    let ghost gsegs = views(segs@);
    let mut name = if segs.len() == 0 {
        chars_of("Index")
    } else {
        assert(segs@[segs@.len() - 1]@ == gsegs.last());
        segment_to_name_chars(segs[segs.len() - 1].as_slice())
    };
    let ghost name0 = name@;
    let mut dirs: Vec<Vec<char>> = Vec::new();
    if segs.len() > 1 {
        let mut i: usize = 0;
        while i < segs.len() - 1
            invariant
                segs@.len() > 1,
                i <= segs@.len() - 1,
                gsegs == views(segs@),
                views(dirs@) =~= gsegs.take(i as int).map_values(|w: Seq<char>| segment_name(w)),
            decreases segs@.len() - 1 - i,
        {
            let ghost old_d = views(dirs@);
            let n = segment_to_name_chars(segs[i].as_slice());
            dirs.push(n);
            assert(gsegs[i as int] == segs@[i as int]@);
            assert(views(dirs@) =~= old_d.push(segment_name(gsegs[i as int])));
            assert(views(dirs@) =~= gsegs.take(i + 1).map_values(|w: Seq<char>| segment_name(w)));
            i = i + 1;
        }
        assert(gsegs.take(segs@.len() - 1) =~= gsegs.drop_last());
    }
    match &u.query {
        Some(q) => {
            append_str(&mut name, "_");
            let h = hash8(q.as_str());
            append_str(&mut name, h.as_str());
        },
        None => {},
    }
    append_str(&mut name, ".md");
    proof {
        let spath = url_path(url@);
        let sbp = strip_suffixes(url_path(base_url@), "/"@);
        assert(bp@ == sbp);
        let srel = if sbp.len() > 0 && starts_with(spath, sbp) {
            spath.skip(sbp.len() as int)
        } else {
            spath
        };
        assert(rel@ == srel);
        assert(gsegs == named_segments(split_on(srel, '/')));
        let filename = if gsegs.len() == 0 {
            "Index"@
        } else {
            segment_name(gsegs.last())
        };
        let suffix = match url_query(url@) {
            Some(q) => "_"@ + hash8_spec(q),
            None => seq![],
        };
        assert(name@ == filename + suffix + ".md"@);
        let sdirs = if gsegs.len() > 1 {
            gsegs.drop_last().map_values(|w: Seq<char>| segment_name(w))
        } else {
            seq![]
        };
        assert(views(dirs@) == sdirs);
    }
    if dirs.len() == 0 {
        string_from(name.as_slice())
    } else {
        let mut out = join_char(&dirs, '/');
        append_str(&mut out, "/");
        append_chars(&mut out, name.as_slice());
        string_from(out.as_slice())
    }
}

/// `s` with each `"` written as `\"`.
pub open spec fn escape_quotes(s: Seq<char>) -> Seq<char>
    decreases s.len(),
{
    if s.len() == 0 {
        seq![]
    } else if s.last() == '"' {
        escape_quotes(s.drop_last()) + seq!['\\', '"']
    } else {
        escape_quotes(s.drop_last()).push(s.last())
    }
}

/// A saved page: YAML front matter with the title (quotes escaped) and the URL, a blank
/// line, then the markdown.
pub open spec fn page_file(title: Seq<char>, url: Seq<char>, markdown: Seq<char>) -> Seq<char> {
    "---\ntitle: \""@ + escape_quotes(title) + "\"\nurl: \""@ + url + "\"\n---\n\n"@ + markdown
}

/// The text of the file a page is saved as.
pub fn page_content(title: &str, url: &str, markdown: &str) -> (r: String)
    ensures
        r@ == page_file(title@, url@, markdown@),
{
    let t = chars_of(title);
    let mut out = chars_of("---\ntitle: \"");
    let mut i: usize = 0;
    let ghost base = out@;
    while i < t.len()
        invariant
            i <= t@.len(),
            out@ == base + escape_quotes(t@.take(i as int)),
        decreases t@.len() - i,
    {
        let ghost sub = t@.take(i + 1);
        assert(sub.drop_last() =~= t@.take(i as int));
        if t[i] == '"' {
            out.push('\\');
            out.push('"');
        } else {
            out.push(t[i]);
        }
        assert(out@ =~= base + escape_quotes(sub));
        i = i + 1;
    }
    assert(t@.take(t@.len() as int) =~= t@);
    append_str(&mut out, "\"\nurl: \"");
    append_str(&mut out, url);
    append_str(&mut out, "\"\n---\n\n");
    append_str(&mut out, markdown);
    string_from(out.as_slice())
}

/// A path, read with `/` as separator, has a `..` component.
pub open spec fn has_parent_component(p: Seq<char>) -> bool {
    split_on(p, '/').contains(".."@)
}

/// `output_dir` joined with `filepath` has a `..` component: the file's own path has one,
/// or it is relative and the directory has one.
pub open spec fn escapes_output(output_dir: Seq<char>, filepath: Seq<char>) -> bool {
    has_parent_component(filepath) || (!starts_with(filepath, "/"@) && has_parent_component(
        output_dir,
    ))
}

fn has_dotdot(p: &str) -> (r: bool)
    ensures
        r == has_parent_component(p@),
{
    let c = chars_of(p);
    let pieces = split_char(c.as_slice(), '/');
    let dd = chars_of("..");
    let mut i: usize = 0;
    while i < pieces.len()
        invariant
            i <= pieces@.len(),
            dd@ == ".."@,
            c@ == p@,
            views(pieces@) == split_on(c@, '/'),
            forall|j: int| 0 <= j < i ==> views(pieces@)[j] != ".."@,
        decreases pieces@.len() - i,
    {
        if chars_eq(pieces[i].as_slice(), dd.as_slice()) {
            assert(views(pieces@)[i as int] == ".."@);
            assert(c@ == p@);
            assert(split_on(p@, '/')[i as int] == ".."@);
            assert(split_on(p@, '/').contains(".."@));
            return true;
        }
        i = i + 1;
    }
    assert(!split_on(c@, '/').contains(".."@));
    false
}

/// Whether writing `filepath` under `output_dir` would leave it through a `..` component;
/// such a page is refused as a path traversal.
pub fn is_path_traversal(output_dir: &str, filepath: &str) -> (r: bool)
    ensures
        r == escapes_output(output_dir@, filepath@),
{
    let f = chars_of(filepath);
    let slash = chars_of("/");
    has_dotdot(filepath) || (!has_prefix(f.as_slice(), slash.as_slice()) && has_dotdot(output_dir))
}

/// `s` does not end with `p` when they differ at the `k`-th character from the end.
proof fn lemma_ends_differ(s: Seq<char>, p: Seq<char>, k: int)
    requires
        0 < k <= p.len(),
        k <= s.len(),
        s[s.len() - k] != p[p.len() - k],
    ensures
        !ends_with(s, p),
{
    if ends_with(s, p) {
        assert(s.subrange(s.len() - p.len(), s.len() as int)[p.len() - k] == s[s.len() - k]);
    }
}

/// Appending `e` to `s` does not change what removing the trailing repetitions of `e` leaves.
proof fn lemma_strip_appended(s: Seq<char>, e: Seq<char>)
    requires
        e.len() > 0,
    ensures
        strip_suffixes(s + e, e) == strip_suffixes(s, e),
{
    let t = s + e;
    assert(t.subrange(s.len() as int, t.len() as int) =~= e);
    assert(t.take(t.len() - e.len()) =~= s);
    assert(ends_with(t, e));
}

/// The page extensions, in the order `segment_name` strips them.
spec fn page_exts() -> Seq<Seq<char>> {
    seq![".html"@, ".htm"@, ".php"@, ".aspx"@, ".jsp"@]
}

/// `s`, which is `w` followed by the `k`-th page extension once or twice, names the page `w`
/// names.
proof fn lemma_extension_case(w: Seq<char>, k: int, s: Seq<char>, twice: bool)
    requires
        0 <= k < 5,
        forall|j: int| 0 <= j < 5 ==> !ends_with(w, #[trigger] page_exts()[j]),
        s == if twice { w + page_exts()[k] + page_exts()[k] } else { w + page_exts()[k] },
    ensures
        segment_name(s) == segment_name(w),
{
    reveal_strlit(".html");
    reveal_strlit(".htm");
    reveal_strlit(".php");
    reveal_strlit(".aspx");
    reveal_strlit(".jsp");
    let exts = page_exts();
    assert(!ends_with(w, exts[0]));
    assert(!ends_with(w, exts[1]));
    assert(!ends_with(w, exts[2]));
    assert(!ends_with(w, exts[3]));
    assert(!ends_with(w, exts[4]));
    assert(strip_suffixes(w, exts[0]) == w);
    assert(strip_suffixes(w, exts[1]) == w);
    assert(strip_suffixes(w, exts[2]) == w);
    assert(strip_suffixes(w, exts[3]) == w);
    assert(strip_suffixes(w, exts[4]) == w);
    let e = exts[k];
    if twice {
        lemma_strip_appended(w + e, e);
    }
    lemma_strip_appended(w, e);
    assert(strip_suffixes(s, e) == w);
    // The extensions stripped before `e` differ from it in a character near the end, so
    // they are not stripped from `s`.
    assert(s[s.len() - 1] == e[e.len() - 1]);
    if k >= 1 {
        lemma_ends_differ(s, exts[0], 1);
    }
    if k >= 2 {
        lemma_ends_differ(s, exts[1], 1);
    }
    if k == 3 {
        lemma_ends_differ(s, exts[2], 1);
    }
    if k == 4 {
        assert(s[s.len() - 3] == e[e.len() - 3]);
        lemma_ends_differ(s, exts[2], 3);
        lemma_ends_differ(s, exts[3], 1);
    }
}

/// A page extension (`.html`, `.htm`, `.php`, `.aspx` or `.jsp`) on a URL path segment does
/// not change its page name, however often it is repeated: for a segment `w` that ends with
/// none of them, `w` and `w` followed by one of them, once or twice, name the same page.
pub proof fn law_page_extension_dropped(w: Seq<char>)
    requires
        !ends_with(w, ".html"@),
        !ends_with(w, ".htm"@),
        !ends_with(w, ".php"@),
        !ends_with(w, ".aspx"@),
        !ends_with(w, ".jsp"@),
    ensures
        segment_name(w + ".html"@) == segment_name(w),
        segment_name(w + ".htm"@) == segment_name(w),
        segment_name(w + ".php"@) == segment_name(w),
        segment_name(w + ".aspx"@) == segment_name(w),
        segment_name(w + ".jsp"@) == segment_name(w),
        segment_name(w + ".html"@ + ".html"@) == segment_name(w),
        segment_name(w + ".htm"@ + ".htm"@) == segment_name(w),
        segment_name(w + ".php"@ + ".php"@) == segment_name(w),
        segment_name(w + ".aspx"@ + ".aspx"@) == segment_name(w),
        segment_name(w + ".jsp"@ + ".jsp"@) == segment_name(w),
{
    let x = page_exts();
    assert(x[0] == ".html"@ && x[1] == ".htm"@ && x[2] == ".php"@ && x[3] == ".aspx"@ && x[4] == ".jsp"@);
    assert forall|j: int| 0 <= j < 5 implies !ends_with(w, #[trigger] x[j]) by {}
    lemma_extension_case(w, 0, w + x[0], false);
    lemma_extension_case(w, 1, w + x[1], false);
    lemma_extension_case(w, 2, w + x[2], false);
    lemma_extension_case(w, 3, w + x[3], false);
    lemma_extension_case(w, 4, w + x[4], false);
    lemma_extension_case(w, 0, w + x[0] + x[0], true);
    lemma_extension_case(w, 1, w + x[1] + x[1], true);
    lemma_extension_case(w, 2, w + x[2] + x[2], true);
    lemma_extension_case(w, 3, w + x[3] + x[3], true);
    lemma_extension_case(w, 4, w + x[4] + x[4], true);
}

} // verus!
