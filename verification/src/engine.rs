//! What the page fetchers decide: the page record they return, the title and links read
//! from raw HTML, and how an HTTP status is judged.
use vstd::prelude::*;
use crate::text::{append_chars, append_str, chars_of, decimal, decimal_chars, string_from, trim, trimmed};
use crate::weburl::{join_url, parse_url, url_joined, url_parses};
use crate::text::{str_lower, to_lowercase};
use vstd::utf8::{decode_utf8, encode_utf8, is_char_boundary};
use vstd::string::StringSliceAdditionalSpecFns;

verus! {

/// A fetched page.
pub struct PageResult {
    pub url: String,
    pub html: String,
    pub title: String,
    pub links: Vec<String>,
}

/// `p` occurs in `s` at byte position `i`.
pub open spec fn bytes_match_at(s: Seq<u8>, p: Seq<u8>, i: int) -> bool {
    0 <= i && i + p.len() <= s.len() && s.subrange(i, i + p.len()) == p
}

/// The first byte position at or after `from` where `p` occurs in `s`. For an ASCII `p` in
/// UTF-8 text this is where `str::find` finds it.
pub open spec fn find_bytes(s: Seq<u8>, p: Seq<u8>, from: int) -> Option<int>
    decreases s.len() - from,
{
    if from < 0 || from + p.len() > s.len() {
        None
    } else if bytes_match_at(s, p, from) {
        Some(from)
    } else if from + p.len() == s.len() {
        None
    } else {
        find_bytes(s, p, from + 1)
    }
}

/// The bytes of `<title>`.
pub open spec fn title_open() -> Seq<u8> {
    seq![0x3cu8, 0x74u8, 0x69u8, 0x74u8, 0x6cu8, 0x65u8, 0x3eu8]
}

/// The bytes of `</title>`.
pub open spec fn title_close() -> Seq<u8> {
    seq![0x3cu8, 0x2fu8, 0x74u8, 0x69u8, 0x74u8, 0x6cu8, 0x65u8, 0x3eu8]
}

/// The byte range of a page's title: the tags are found in the bytes of the page's
/// lowercase form (`str::to_lowercase`), the first `<title>` and the first `</title>` at or
/// after it, and the range between them is then taken from the page's own bytes.
pub open spec fn title_span(h: Seq<char>) -> Option<(int, int)> {
    let lb = encode_utf8(str_lower(h));
    match find_bytes(lb, title_open(), 0) {
        None => None,
        Some(s) => match find_bytes(lb, title_close(), s) {
            None => None,
            Some(e) => Some((s + 7, e)),
        },
    }
}

/// The title's byte range can be cut from the page: it lies within the page and both ends
/// are character boundaries. Lowercasing can change a character's width in bytes, and then
/// the range found in the lowercase form may not be one (std's slicing panics there).
pub open spec fn title_span_fits(h: Seq<char>) -> bool {
    match title_span(h) {
        Some((a, b)) => a <= b <= encode_utf8(h).len() && is_char_boundary(encode_utf8(h), a)
            && is_char_boundary(encode_utf8(h), b),
        None => true,
    }
}

/// The text of a page's title, trimmed; empty when there is no `<title>…</title>`.
pub open spec fn http_title(h: Seq<char>) -> Seq<char> {
    match title_span(h) {
        None => seq![],
        Some((a, b)) => trim(decode_utf8(encode_utf8(h).subrange(a, b))),
    }
}

fn find_bytes_exec(s: &[u8], p: &[u8], from: usize) -> (r: Option<usize>)
    ensures
        r matches Some(i) ==> find_bytes(s@, p@, from as int) == Some(i as int) && from <= i && i + p@.len()
            <= s@.len(),
        r is None ==> find_bytes(s@, p@, from as int) is None,
{
    let mut i = from;
    assert(s@.len() == s.len());
    loop
        invariant
            from <= i,
            s@.len() <= usize::MAX,
            find_bytes(s@, p@, from as int) == find_bytes(s@, p@, i as int),
        decreases s@.len() - i,
    {
        if i > s.len() || p.len() > s.len() - i {
            return None;
        }
        let mut k: usize = 0;
        while k < p.len()
            invariant
                k <= p@.len(),
                i + p@.len() <= s@.len(),
                s@.len() <= usize::MAX,
                forall|j: int| 0 <= j < k ==> s@[i + j] == p@[j],
            ensures
                k <= p@.len(),
                forall|j: int| 0 <= j < k ==> s@[i + j] == p@[j],
                k < p@.len() ==> s@[i + k] != p@[k as int],
            decreases p@.len() - k,
        {
            if s[i + k] != p[k] {
                break;
            }
            k = k + 1;
        }
        if k == p.len() {
            assert(s@.subrange(i as int, i + p@.len()) =~= p@);
            return Some(i);
        }
        assert(!bytes_match_at(s@, p@, i as int)) by {
            if bytes_match_at(s@, p@, i as int) {
                assert(s@.subrange(i as int, i + p@.len())[k as int] == p@[k as int]);
            }
        }
        if i + p.len() == s.len() {
            return None;
        }
        i = i + 1;
    }
}

/// Where the title lies in the page's bytes, if it has one.
fn title_bounds(html: &str) -> (r: Option<(usize, usize)>)
    ensures
        match r {
            Some((a, b)) => title_span(html@) == Some((a as int, b as int)),
            None => title_span(html@) is None,
        },
{
    let lo = to_lowercase(html);
    let lb = lo.as_str().as_bytes();
    let open: Vec<u8> = vec![0x3c, 0x74, 0x69, 0x74, 0x6c, 0x65, 0x3e];
    let close: Vec<u8> = vec![0x3c, 0x2f, 0x74, 0x69, 0x74, 0x6c, 0x65, 0x3e];
    assert(open@ =~= title_open());
    assert(close@ =~= title_close());
    let s = match find_bytes_exec(lb, open.as_slice(), 0) {
        Some(s) => s,
        None => return None,
    };
    assert(lb@.len() == lb.len());
    match find_bytes_exec(lb, close.as_slice(), s) {
        Some(e) => Some((s + 7, e)),
        None => None,
    }
}

/// Whether the title's byte range can be cut from the page (see `title_span_fits`).
pub fn title_fits(html: &str) -> (r: bool)
    ensures
        r == title_span_fits(html@),
{
    match title_bounds(html) {
        None => true,
        Some((a, b)) => {
            let n = html.as_bytes().len();
            a <= b && b <= n && html.is_char_boundary(a) && html.is_char_boundary(b)
        },
    }
}

/// The title of a page fetched over plain HTTP: the tags are found in the page's lowercase
/// form and the text between them is cut from the page at the same byte positions.
pub fn extract_title(html: &str) -> (r: String)
    requires
        title_span_fits(html@),
    ensures
        r@ == http_title(html@),
{
    let (a, b) = match title_bounds(html) {
        None => return String::new(),
        Some(r) => r,
    };
    let inner = chars_of(cut(html, a, b).as_str());
    string_from(trimmed(inner.as_slice()).as_slice())
}

/// The title of a page fetched over plain HTTP, or `None` for a page whose title range
/// cannot be cut from it (see `title_span_fits`).
pub fn checked_title(html: &str) -> (r: Option<String>)
    ensures
        r is Some <==> title_span_fits(html@),
        r matches Some(t) ==> t@ == http_title(html@),
{
    if title_fits(html) {
        Some(extract_title(html))
    } else {
        None
    }
}

/// A match that `find_bytes` gives lies at or after `from` and is a real occurrence.
pub proof fn lemma_find_bytes(s: Seq<u8>, p: Seq<u8>, from: int)
    ensures
        find_bytes(s, p, from) matches Some(i) ==> from <= i && bytes_match_at(s, p, i),
    decreases s.len() - from,
{
    if from < 0 || from + p.len() > s.len() {
    } else if bytes_match_at(s, p, from) {
    } else if from + p.len() == s.len() {
    } else {
        lemma_find_bytes(s, p, from + 1);
    }
}

/// The bytes of `href="`.
pub open spec fn href_double() -> Seq<u8> {
    seq![0x68u8, 0x72u8, 0x65u8, 0x66u8, 0x3du8, 0x22u8]
}

/// The bytes of `href='`.
pub open spec fn href_single() -> Seq<u8> {
    seq![0x68u8, 0x72u8, 0x65u8, 0x66u8, 0x3du8, 0x27u8]
}

/// The values of the attribute that `needle` opens (such as `href="`), from byte `pos` on:
/// `needle` is found in `lb`, the bytes of the page's lowercase form, and each value is cut
/// from the page's own bytes `hb`, from the position just past the match up to the next
/// byte `q`. `None` when such a position lies past the page's end or inside one of its
/// characters (std's slicing panics there); lowercasing can change a character's width in
/// bytes, and then the two forms no longer line up.
pub open spec fn attr_spans(lb: Seq<u8>, hb: Seq<u8>, needle: Seq<u8>, q: u8, pos: int) -> Option<
    Seq<Seq<char>>,
>
    decreases lb.len() - pos,
{
    if needle.len() == 0 || pos < 0 || pos > lb.len() {
        Some(seq![])
    } else {
        match find_bytes(lb, needle, pos) {
            None => Some(seq![]),
            Some(i) => {
                proof {
                    lemma_find_bytes(lb, needle, pos);
                }
                let s = i + needle.len();
                if s > hb.len() || !is_char_boundary(hb, s) {
                    None
                } else {
                    match attr_spans(lb, hb, needle, q, s) {
                        None => None,
                        Some(rest) => match find_bytes(hb, seq![q], s) {
                            Some(e) => Some(seq![decode_utf8(hb.subrange(s, e))] + rest),
                            None => Some(rest),
                        },
                    }
                }
            },
        }
    }
}

/// The values of a page's attributes opened by `needle`, searched in its lowercase form
/// (`str::to_lowercase`) and cut from the page itself.
pub open spec fn page_attrs(h: Seq<char>, needle: Seq<u8>, q: u8) -> Option<Seq<Seq<char>>> {
    attr_spans(encode_utf8(str_lower(h)), encode_utf8(h), needle, q, 0)
}

/// Each value resolved against `base`, those that resolve, in order.
pub open spec fn resolved(base: Seq<char>, hs: Seq<Seq<char>>) -> Seq<Seq<char>>
    decreases hs.len(),
{
    if hs.len() == 0 {
        seq![]
    } else {
        match url_joined(base, hs.last()) {
            Some(a) => resolved(base, hs.drop_last()).push(a),
            None => resolved(base, hs.drop_last()),
        }
    }
}

/// The links of a page can be read from it: when its URL parses, every `href` value can be
/// cut from the page (see `attr_spans`).
pub open spec fn links_fit(h: Seq<char>, base: Seq<char>) -> bool {
    url_parses(base) ==> page_attrs(h, href_double(), 0x22u8) is Some && page_attrs(
        h,
        href_single(),
        0x27u8,
    ) is Some
}

/// The absolute links of a page: its `href="…"` values, then its `href='…'` values, each
/// resolved against the page's URL, those that resolve. None when that URL does not parse.
pub open spec fn page_links(h: Seq<char>, base: Seq<char>) -> Seq<Seq<char>> {
    if !url_parses(base) {
        seq![]
    } else {
        match (page_attrs(h, href_double(), 0x22u8), page_attrs(h, href_single(), 0x27u8)) {
            (Some(d), Some(s)) => resolved(base, d + s),
            _ => seq![],
        }
    }
}

/// The text of `html` between two of its character boundaries, given as byte positions.
fn cut(html: &str, a: usize, b: usize) -> (r: String)
    requires
        a <= b <= encode_utf8(html@).len(),
        is_char_boundary(encode_utf8(html@), a as int),
        is_char_boundary(encode_utf8(html@), b as int),
    ensures
        r@ == decode_utf8(encode_utf8(html@).subrange(a as int, b as int)),
{
    let ghost hb = encode_utf8(html@);
    proof {
        vstd::utf8::encode_utf8_valid_utf8(html@);
        vstd::utf8::valid_utf8_split(hb, b as int);
        let pre = hb.subrange(0, b as int);
        if a < b {
            vstd::utf8::is_char_boundary_iff_not_is_continuation_byte(hb, a as int);
            vstd::utf8::is_char_boundary_iff_not_is_continuation_byte(pre, a as int);
            assert(pre[a as int] == hb[a as int]);
        } else {
            vstd::utf8::is_char_boundary_start_end_of_seq(pre);
        }
    }
    let (pre, _) = html.split_at(b);
    let (_, mid) = pre.split_at(a);
    proof {
        assert(encode_utf8(mid@) =~= hb.subrange(a as int, b as int));
        vstd::utf8::encode_utf8_decode_utf8(mid@);
    }
    mid.to_owned()
}

/// The values of the attribute that `needle` opens in `html`, searched in `lb`, the bytes of
/// its lowercase form; `None` where one cannot be cut from the page.
fn collect_attr(html: &str, lb: &[u8], needle: &[u8], q: u8) -> (r: Option<Vec<String>>)
    requires
        q < 0x80,
    ensures
        match r {
            Some(v) => attr_spans(lb@, encode_utf8(html@), needle@, q, 0) == Some(
                v@.map_values(|s: String| s@),
            ),
            None => attr_spans(lb@, encode_utf8(html@), needle@, q, 0) is None,
        },
{
    let mut out: Vec<String> = Vec::new();
    if needle.len() == 0 {
        assert(out@.map_values(|s: String| s@) =~= Seq::<Seq<char>>::empty());
        return Some(out);
    }
    let hb = html.as_bytes();
    let ghost hs = encode_utf8(html@);
    let qv: Vec<u8> = vec![q];
    let mut pos: usize = 0;
    loop
        invariant
            pos <= lb@.len(),
            needle@.len() > 0,
            q < 0x80,
            hb@ == hs,
            hs == encode_utf8(html@),
            qv@ == seq![q],
            attr_spans(lb@, hs, needle@, q, 0) == match attr_spans(lb@, hs, needle@, q, pos as int) {
                None => None,
                Some(rest) => Some(out@.map_values(|s: String| s@) + rest),
            },
        decreases lb@.len() - pos,
    {
        let i = match find_bytes_exec(lb, needle, pos) {
            Some(i) => i,
            None => {
                assert(out@.map_values(|s: String| s@) + seq![] =~= out@.map_values(|s: String| s@));
                return Some(out);
            },
        };
        assert(lb@.len() == lb.len());
        let s = i + needle.len();
        if s > hb.len() || !html.is_char_boundary(s) {
            return None;
        }
        match find_bytes_exec(hb, qv.as_slice(), s) {
            Some(e) => {
                proof {
                    lemma_find_bytes(hs, seq![q], s as int);
                    assert(hs.subrange(e as int, e + 1)[0] == hs[e as int]);
                    vstd::utf8::encode_utf8_valid_utf8(html@);
                    vstd::utf8::is_char_boundary_iff_not_is_continuation_byte(hs, e as int);
                }
                let ghost before = out@.map_values(|s: String| s@);
                let v = cut(html, s, e);
                out.push(v);
                assert(out@.map_values(|s: String| s@) =~= before.push(v@));
                assert(forall|rest: Seq<Seq<char>>|
                    before + (seq![v@] + rest) =~= out@.map_values(|s: String| s@) + rest);
            },
            None => {},
        }
        pos = s;
    }
}

/// The absolute links of a page fetched over plain HTTP: `href` is found in the page's
/// lowercase form and each value is cut from the page at the same byte positions.
pub fn extract_links(html: &str, base_url: &str) -> (r: Vec<String>)
    requires
        links_fit(html@, base_url@),
    ensures
        r@.map_values(|s: String| s@) == page_links(html@, base_url@),
{
    let mut links: Vec<String> = Vec::new();
    if parse_url(base_url).is_err() {
        assert(links@.map_values(|s: String| s@) =~= Seq::<Seq<char>>::empty());
        return links;
    }
    let lo = to_lowercase(html);
    let lb = lo.as_str().as_bytes();
    let dq: Vec<u8> = vec![0x68, 0x72, 0x65, 0x66, 0x3d, 0x22];
    let sq: Vec<u8> = vec![0x68, 0x72, 0x65, 0x66, 0x3d, 0x27];
    assert(dq@ =~= href_double());
    assert(sq@ =~= href_single());
    let mut all = match collect_attr(html, lb, dq.as_slice(), 0x22) {
        Some(v) => v,
        None => return links,
    };
    let rest = match collect_attr(html, lb, sq.as_slice(), 0x27) {
        Some(v) => v,
        None => return links,
    };
    let ghost first = all@.map_values(|s: String| s@);
    let ghost second = rest@.map_values(|s: String| s@);
    let mut j: usize = 0;
    while j < rest.len()
        invariant
            j <= rest@.len(),
            second == rest@.map_values(|s: String| s@),
            all@.map_values(|s: String| s@) == first + second.take(j as int),
        decreases rest@.len() - j,
    {
        let ghost before = all@.map_values(|s: String| s@);
        let v = rest[j].clone();
        all.push(v);
        assert(all@.map_values(|s: String| s@) =~= before.push(second[j as int]));
        assert(first + second.take(j + 1) =~= (first + second.take(j as int)).push(second[j as int]));
        j = j + 1;
    }
    assert(second.take(rest@.len() as int) =~= second);
    let ghost vals = all@.map_values(|s: String| s@);
    let mut k: usize = 0;
    while k < all.len()
        invariant
            k <= all@.len(),
            vals == all@.map_values(|s: String| s@),
            links@.map_values(|s: String| s@) == resolved(base_url@, vals.take(k as int)),
        decreases all@.len() - k,
    {
        let ghost sub = vals.take(k + 1);
        assert(sub.drop_last() =~= vals.take(k as int));
        assert(sub.last() == all@[k as int]@);
        match join_url(base_url, all[k].as_str()) {
            Some(a) => {
                let ghost before = links@.map_values(|s: String| s@);
                links.push(a);
                assert(links@.map_values(|s: String| s@) =~= before.push(a@));
            },
            None => {},
        }
        k = k + 1;
    }
    assert(vals.take(all@.len() as int) =~= vals);
    links
}

/// The absolute links of a page fetched over plain HTTP, or `None` for a page whose links
/// cannot be read from it (see `links_fit`).
pub fn checked_links(html: &str, base_url: &str) -> (r: Option<Vec<String>>)
    ensures
        r is Some <==> links_fit(html@, base_url@),
        r matches Some(v) ==> v@.map_values(|s: String| s@) == page_links(html@, base_url@),
{
    if parse_url(base_url).is_err() {
        return Some(extract_links(html, base_url));
    }
    let lo = to_lowercase(html);
    let lb = lo.as_str().as_bytes();
    let dq: Vec<u8> = vec![0x68, 0x72, 0x65, 0x66, 0x3d, 0x22];
    let sq: Vec<u8> = vec![0x68, 0x72, 0x65, 0x66, 0x3d, 0x27];
    assert(dq@ =~= href_double());
    assert(sq@ =~= href_single());
    if collect_attr(html, lb, dq.as_slice(), 0x22).is_none() || collect_attr(html, lb, sq.as_slice(), 0x27).is_none() {
        return None;
    }
    Some(extract_links(html, base_url))
}

/// How an HTTP response's status is judged: `AUTH:<code>` for 401 and 403, `HTTP <code>: <url>`
/// for any other status outside 200–299.
pub open spec fn status_verdict(status: u16, url: Seq<char>) -> Result<(), Seq<char>> {
    if status == 401 || status == 403 {
        Err("AUTH:"@ + decimal(status as nat))
    } else if !(200 <= status && status <= 299) {
        Err("HTTP "@ + decimal(status as nat) + ": "@ + url)
    } else {
        Ok(())
    }
}

/// Judges an HTTP status for the page at `url`; the error text is what the crawler reads.
pub fn check_status(status: u16, url: &str) -> (r: Result<(), String>)
    ensures
        match r {
            Ok(()) => status_verdict(status, url@) is Ok,
            Err(e) => status_verdict(status, url@) == Err::<(), Seq<char>>(e@),
        },
{
    if status == 401 || status == 403 {
        let mut m = chars_of("AUTH:");
        append_chars(&mut m, decimal_chars(status as u64).as_slice());
        return Err(string_from(m.as_slice()));
    }
    if !(200 <= status && status <= 299) {
        let mut m = chars_of("HTTP ");
        append_chars(&mut m, decimal_chars(status as u64).as_slice());
        append_str(&mut m, ": ");
        append_str(&mut m, url);
        return Err(string_from(m.as_slice()));
    }
    Ok(())
}

/// The most times the browser is asked whether a page has finished rendering.
pub const RENDER_CHECKS: u32 = 30;

/// Milliseconds to wait after a check that found the page not ready.
pub const RENDER_CHECK_PAUSE_MS: u64 = 500;

/// Whether to check again whether the page has rendered, after `checks_done` checks of
/// which the last gave `ready` (the driver waits `RENDER_CHECK_PAUSE_MS` after each check
/// that found the page not ready): not once it is ready, and never more than
/// `RENDER_CHECKS` checks in all.
pub fn check_render_again(checks_done: u32, ready: bool) -> (r: bool)
    ensures
        r == (!ready && checks_done < RENDER_CHECKS),
{
    !ready && checks_done < RENDER_CHECKS
}

/// The HTML handed to the converter when the browser could read the main element's inner
/// HTML: that HTML wrapped in `<html><body>…</body></html>`, unless it is missing or blank
/// (then the page's full content is used instead).
pub open spec fn wrapped_inner(inner: Option<Seq<char>>) -> Option<Seq<char>> {
    match inner {
        Some(h) => if trim(h).len() > 0 {
            Some("<html><body>"@ + h + "</body></html>"@)
        } else {
            None
        },
        None => None,
    }
}

/// The HTML to convert, from the main element's inner HTML when the browser could read it.
pub fn wrap_inner_html(inner: Option<String>) -> (r: Option<String>)
    ensures
        crate::text::opt_view(r) == wrapped_inner(crate::text::opt_view(inner)),
{
    match inner {
        Some(h) => {
            let c = chars_of(h.as_str());
            if trimmed(c.as_slice()).len() > 0 {
                let mut m = chars_of("<html><body>");
                append_chars(&mut m, c.as_slice());
                append_str(&mut m, "</body></html>");
                Some(string_from(m.as_slice()))
            } else {
                None
            }
        },
        None => None,
    }
}

/// Names the list of strings that `serde_json::from_str::<Vec<String>>` reads from a text,
/// or `None` when the text is not a JSON array of strings.
pub uninterp spec fn json_string_list(text: Seq<char>) -> Option<Seq<Seq<char>>>;

/// `serde_json::from_str::<Vec<String>>(text)`. Trusted: the strings read are
/// `json_string_list` of the text.
#[verifier::external_body]
fn json_strings(text: &str) -> (r: Option<Vec<String>>)
    ensures
        match r {
            Some(v) => json_string_list(text@) == Some(v@.map_values(|x: String| x@)),
            None => json_string_list(text@) is None,
        },
{
    serde_json::from_str::<Vec<String>>(text).ok()
}

/// The links the browser reported, as the JSON text of an array of URLs; none when it
/// reported nothing or something else.
pub fn reported_links(json: Option<String>) -> (r: Vec<String>)
    ensures
        r@.map_values(|x: String| x@) == match json {
            Some(t) => match json_string_list(t@) {
                Some(l) => l,
                None => seq![],
            },
            None => seq![],
        },
{
    match json {
        Some(t) => match json_strings(t.as_str()) {
            Some(v) => v,
            None => {
                let r: Vec<String> = Vec::new();
                assert(r@.map_values(|x: String| x@) =~= seq![]);
                r
            },
        },
        None => {
            let r: Vec<String> = Vec::new();
            assert(r@.map_values(|x: String| x@) =~= seq![]);
            r
        },
    }
}

/// How an HTTP status is judged: a page is accepted exactly when its status is a success
/// (200 to 299); 401 and 403 are reported as `AUTH:<code>`, and every other status, the
/// server errors 500 to 599 among them, as `HTTP <code>: <url>`.
pub proof fn law_status_accepts_only_success(status: u16, url: Seq<char>)
    ensures
        status_verdict(status, url) is Ok <==> 200 <= status <= 299,
        (status == 401 || status == 403) ==> status_verdict(status, url) == Err::<(), Seq<char>>(
            "AUTH:"@ + decimal(status as nat),
        ),
        !(200 <= status <= 299) && status != 401 && status != 403 ==> status_verdict(status, url)
            == Err::<(), Seq<char>>("HTTP "@ + decimal(status as nat) + ": "@ + url),
{
}

} // verus!
