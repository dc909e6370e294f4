//! Character-level text utilities: the string operations the scraper's
//! parsers are built from, each specified over `Seq<char>`.
use vstd::prelude::*;

verus! {

/// The characters of a string slice, in order.
pub fn chars_of(s: &str) -> (v: Vec<char>)
    ensures
        v@ == s@,
{
    let mut v: Vec<char> = Vec::new();
    for c in it: s.chars()
        invariant
            v@ == it.seq().take(it.index() as int),
            it.seq() == s@,
    {
        v.push(c);
    }
    v
}

} // verus!

verus! {

/// Appends one character to a `String` (std `String::push`).
/// Trusted: the string afterwards holds its old characters followed by `c`.
#[verifier::external_body]
pub(crate) fn push_char(s: &mut String, c: char)
    ensures
        final(s)@ == old(s)@.push(c),
{
    s.push(c);
}

/// A `String` holding exactly the given characters.
pub fn string_from(v: &[char]) -> (s: String)
    ensures
        s@ == v@,
{
    let mut s = String::new();
    let mut i: usize = 0;
    while i < v.len()
        invariant
            i <= v@.len(),
            s@ == v@.take(i as int),
        decreases v@.len() - i,
    {
        push_char(&mut s, v[i]);
        i = i + 1;
        assert(s@ =~= v@.take(i as int));
    }
    assert(v@.take(v@.len() as int) =~= v@);
    s
}

/// Unicode `White_Space`, the property that `char::is_whitespace` tests.
pub open spec fn is_ws(c: char) -> bool {
    let v = c as u32;
    (0x9 <= v && v <= 0xD) || v == 0x20 || v == 0x85 || v == 0xA0 || v == 0x1680 || (0x2000 <= v
        && v <= 0x200A) || v == 0x2028 || v == 0x2029 || v == 0x202F || v == 0x205F || v == 0x3000
}

/// `char::is_whitespace`.
pub fn is_whitespace(c: char) -> (b: bool)
    ensures
        b == is_ws(c),
{
    let v = c as u32;
    (0x9 <= v && v <= 0xD) || v == 0x20 || v == 0x85 || v == 0xA0 || v == 0x1680 || (0x2000 <= v
        && v <= 0x200A) || v == 0x2028 || v == 0x2029 || v == 0x202F || v == 0x205F || v == 0x3000
}

/// `s` without its leading whitespace.
pub open spec fn trim_start(s: Seq<char>) -> Seq<char>
    decreases s.len(),
{
    if s.len() > 0 && is_ws(s[0]) {
        trim_start(s.drop_first())
    } else {
        s
    }
}

/// `s` without its trailing whitespace.
pub open spec fn trim_end(s: Seq<char>) -> Seq<char>
    decreases s.len(),
{
    if s.len() > 0 && is_ws(s.last()) {
        trim_end(s.drop_last())
    } else {
        s
    }
}

/// `s` without leading and trailing whitespace (`str::trim`).
pub open spec fn trim(s: Seq<char>) -> Seq<char> {
    trim_end(trim_start(s))
}

/// Index of the first non-whitespace character of `s[from..to]`, or `to`.
pub fn skip_ws_forward(s: &[char], from: usize, to: usize) -> (k: usize)
    requires
        from <= to <= s@.len(),
    ensures
        from <= k <= to,
        trim_start(s@.subrange(from as int, to as int)) == s@.subrange(k as int, to as int),
{
    let mut k = from;
    while k < to && is_whitespace(s[k])
        invariant
            from <= k <= to <= s@.len(),
            trim_start(s@.subrange(from as int, to as int)) == trim_start(
                s@.subrange(k as int, to as int),
            ),
        decreases to - k,
    {
        assert(s@.subrange(k as int, to as int).drop_first() =~= s@.subrange(
            k + 1,
            to as int,
        ));
        k = k + 1;
    }
    k
}

/// One past the last non-whitespace character of `s[from..to]`, or `from`.
pub fn skip_ws_backward(s: &[char], from: usize, to: usize) -> (k: usize)
    requires
        from <= to <= s@.len(),
    ensures
        from <= k <= to,
        trim_end(s@.subrange(from as int, to as int)) == s@.subrange(from as int, k as int),
{
    let mut k = to;
    while k > from && is_whitespace(s[k - 1])
        invariant
            from <= k <= to <= s@.len(),
            trim_end(s@.subrange(from as int, to as int)) == trim_end(
                s@.subrange(from as int, k as int),
            ),
        decreases k - from,
    {
        assert(s@.subrange(from as int, k as int).drop_last() =~= s@.subrange(
            from as int,
            k - 1,
        ));
        k = k - 1;
    }
    k
}

/// The bounds `(a, b)` of `trim(s[from..to])` within `s`.
pub fn trim_bounds(s: &[char], from: usize, to: usize) -> (r: (usize, usize))
    requires
        from <= to <= s@.len(),
    ensures
        from <= r.0 <= r.1 <= to,
        trim(s@.subrange(from as int, to as int)) == s@.subrange(r.0 as int, r.1 as int),
{
    let a = skip_ws_forward(s, from, to);
    let b = skip_ws_backward(s, a, to);
    (a, b)
}

/// `trim` of a whole character vector, as a new vector.
pub fn trimmed(s: &[char]) -> (r: Vec<char>)
    ensures
        r@ == trim(s@),
{
    let (a, b) = trim_bounds(s, 0, s.len());
    assert(s@.subrange(0, s@.len() as int) =~= s@);
    slice_chars(s, a, b)
}

/// A copy of `s[a..b]`.
pub fn slice_chars(s: &[char], a: usize, b: usize) -> (r: Vec<char>)
    requires
        a <= b <= s@.len(),
    ensures
        r@ == s@.subrange(a as int, b as int),
{
    let mut r: Vec<char> = Vec::new();
    let mut i = a;
    while i < b
        invariant
            a <= i <= b <= s@.len(),
            r@ == s@.subrange(a as int, i as int),
        decreases b - i,
    {
        r.push(s[i]);
        i = i + 1;
        assert(r@ =~= s@.subrange(a as int, i as int));
    }
    r
}

} // verus!

verus! {

/// Whether `s[a..b]` equals `lit`.
pub fn range_eq(s: &[char], a: usize, b: usize, lit: &[char]) -> (r: bool)
    requires
        a <= b <= s@.len(),
    ensures
        r == (s@.subrange(a as int, b as int) == lit@),
{
    if b - a != lit.len() {
        return false;
    }
    let mut i: usize = 0;
    while i < lit.len()
        invariant
            b - a == lit@.len(),
            a <= b <= s@.len(),
            i <= lit@.len(),
            forall|j: int| 0 <= j < i ==> s@[a + j] == lit@[j],
        decreases lit@.len() - i,
    {
        if s[a + i] != lit[i] {
            assert(s@.subrange(a as int, b as int)[i as int] != lit@[i as int]);
            return false;
        }
        i = i + 1;
    }
    assert(s@.subrange(a as int, b as int) =~= lit@);
    true
}

/// Whether `s` equals `lit`.
pub fn chars_eq(s: &[char], lit: &[char]) -> (r: bool)
    ensures
        r == (s@ == lit@),
{
    assert(s@.subrange(0, s@.len() as int) =~= s@);
    range_eq(s, 0, s.len(), lit)
}

/// `p` occurs in `s` starting at index `i`.
pub open spec fn matches_at(s: Seq<char>, p: Seq<char>, i: int) -> bool {
    0 <= i && i + p.len() <= s.len() && s.subrange(i, i + p.len()) == p
}

/// `s` begins with `p` (`str::starts_with`).
pub open spec fn starts_with(s: Seq<char>, p: Seq<char>) -> bool {
    matches_at(s, p, 0)
}

/// `s` ends with `p` (`str::ends_with`).
pub open spec fn ends_with(s: Seq<char>, p: Seq<char>) -> bool {
    p.len() <= s.len() && matches_at(s, p, s.len() - p.len())
}

/// The first index at or after `from` where `p` occurs in `s` (`str::find`).
pub open spec fn find_from(s: Seq<char>, p: Seq<char>, from: int) -> Option<int>
    decreases s.len() - from,
{
    if from < 0 || from + p.len() > s.len() {
        None
    } else if matches_at(s, p, from) {
        Some(from)
    } else if from + p.len() == s.len() {
        None
    } else {
        find_from(s, p, from + 1)
    }
}

/// `s` contains `p` somewhere.
pub open spec fn contains(s: Seq<char>, p: Seq<char>) -> bool {
    find_from(s, p, 0) is Some
}

/// Whether `p` occurs in `s` at index `i`.
pub fn match_at(s: &[char], p: &[char], i: usize) -> (r: bool)
    ensures
        r == matches_at(s@, p@, i as int),
{
    if i > s.len() || p.len() > s.len() - i {
        return false;
    }
    range_eq(s, i, i + p.len(), p)
}

/// The first occurrence of `p` in `s` at or after `from`.
pub fn find(s: &[char], p: &[char], from: usize) -> (r: Option<usize>)
    ensures
        r matches Some(i) ==> find_from(s@, p@, from as int) == Some(i as int),
        r is None ==> find_from(s@, p@, from as int) is None,
{
    let mut i = from;
    loop
        invariant
            from <= i,
            find_from(s@, p@, from as int) == find_from(s@, p@, i as int),
        decreases s@.len() + 1 - i,
    {
        if i > s.len() || p.len() > s.len() - i {
            return None;
        }
        if match_at(s, p, i) {
            return Some(i);
        }
        if p.len() == s.len() - i {
            return None;
        }
        i = i + 1;
    }
}

/// Whether `s` begins with `p`.
pub fn has_prefix(s: &[char], p: &[char]) -> (r: bool)
    ensures
        r == starts_with(s@, p@),
{
    match_at(s, p, 0)
}

/// Whether `s` ends with `p`.
pub fn has_suffix(s: &[char], p: &[char]) -> (r: bool)
    ensures
        r == ends_with(s@, p@),
{
    if p.len() > s.len() {
        return false;
    }
    match_at(s, p, s.len() - p.len())
}

/// Whether `p` occurs anywhere in `s`.
pub fn contains_chars(s: &[char], p: &[char]) -> (r: bool)
    ensures
        r == contains(s@, p@),
{
    find(s, p, 0).is_some()
}

/// Whether the character `c` occurs in `s`.
pub fn contains_char(s: &[char], c: char) -> (r: bool)
    ensures
        r == s@.contains(c),
{
    let mut i: usize = 0;
    while i < s.len()
        invariant
            i <= s@.len(),
            forall|j: int| 0 <= j < i ==> s@[j] != c,
        decreases s@.len() - i,
    {
        if s[i] == c {
            return true;
        }
        i = i + 1;
    }
    false
}

/// The last index before `end` holding `c` (`str::rfind` on `s[..end]`).
pub open spec fn rfind_before(s: Seq<char>, c: char, end: int) -> Option<int>
    decreases end,
{
    if end <= 0 {
        None
    } else if s[end - 1] == c {
        Some(end - 1)
    } else {
        rfind_before(s, c, end - 1)
    }
}

/// The last position before `end` that holds `c`.
pub fn rfind_char(s: &[char], c: char, end: usize) -> (r: Option<usize>)
    requires
        end <= s@.len(),
    ensures
        r matches Some(i) ==> rfind_before(s@, c, end as int) == Some(i as int),
        r is None ==> rfind_before(s@, c, end as int) is None,
{
    let mut k = end;
    while k > 0
        invariant
            k <= end <= s@.len(),
            rfind_before(s@, c, end as int) == rfind_before(s@, c, k as int),
        decreases k,
    {
        if s[k - 1] == c {
            return Some(k - 1);
        }
        k = k - 1;
    }
    None
}

} // verus!

verus! {

/// The character sequences held by a sequence of vectors.
pub open spec fn views(v: Seq<Vec<char>>) -> Seq<Seq<char>> {
    v.map_values(|x: Vec<char>| x@)
}

/// The whitespace-separated words of `s`, in order (`str::split_whitespace`).
pub open spec fn split_ws(s: Seq<char>) -> Seq<Seq<char>>
    decreases s.len(),
{
    if s.len() == 0 {
        seq![]
    } else {
        let p = s.drop_last();
        let c = s.last();
        let t = split_ws(p);
        if is_ws(c) {
            t
        } else if p.len() > 0 && !is_ws(p.last()) {
            t.update(t.len() - 1, t.last().push(c))
        } else {
            t.push(seq![c])
        }
    }
}

proof fn lemma_split_ws_nonempty(s: Seq<char>)
    requires
        s.len() > 0,
        !is_ws(s.last()),
    ensures
        split_ws(s).len() > 0,
    decreases s.len(),
{
    let p = s.drop_last();
    if p.len() > 0 && !is_ws(p.last()) {
        lemma_split_ws_nonempty(p);
    }
}

/// The whitespace-separated words of `s[a..b]`.
pub fn split_whitespace(s: &[char], a: usize, b: usize) -> (r: Vec<Vec<char>>)
    requires
        a <= b <= s@.len(),
    ensures
        views(r@) == split_ws(s@.subrange(a as int, b as int)),
{
    let mut toks: Vec<Vec<char>> = Vec::new();
    let mut cur: Vec<char> = Vec::new();
    let mut i = a;
    while i < b
        invariant
            a <= i <= b <= s@.len(),
            cur@.len() > 0 <==> (i > a && !is_ws(s@[i - 1])),
            split_ws(s@.subrange(a as int, i as int)) == (if cur@.len() > 0 {
                views(toks@).push(cur@)
            } else {
                views(toks@)
            }),
        decreases b - i,
    {
        let c = s[i];
        let ghost prev = s@.subrange(a as int, i as int);
        let ghost next = s@.subrange(a as int, i + 1);
        assert(next.drop_last() =~= prev);
        assert(next.last() == c);
        if is_whitespace(c) {
            if cur.len() > 0 {
                let ghost old_toks = views(toks@);
                let ghost cv = cur@;
                toks.push(cur);
                assert(views(toks@) =~= old_toks.push(cv));
                cur = Vec::new();
            }
        } else {
            if cur.len() > 0 {
                proof {
                    lemma_split_ws_nonempty(prev);
                }
                let ghost t = split_ws(prev);
                cur.push(c);
                assert(t.update(t.len() - 1, t.last().push(c)) =~= views(toks@).push(cur@));
            } else {
                cur.push(c);
                assert(cur@ =~= seq![c]);
            }
        }
        i = i + 1;
    }
    if cur.len() > 0 {
        let ghost old_toks = views(toks@);
        let ghost cv = cur@;
        toks.push(cur);
        assert(views(toks@) =~= old_toks.push(cv));
    }
    toks
}

/// Words joined with single spaces (`[&str]::join(" ")`).
pub open spec fn join_spaces(ws: Seq<Seq<char>>) -> Seq<char>
    decreases ws.len(),
{
    if ws.len() == 0 {
        seq![]
    } else if ws.len() == 1 {
        ws[0]
    } else {
        join_spaces(ws.drop_last()) + seq![' '] + ws.last()
    }
}

/// `ws[from..]` joined with single spaces.
pub fn join_with_spaces(ws: &Vec<Vec<char>>, from: usize) -> (r: Vec<char>)
    requires
        from <= ws@.len(),
    ensures
        r@ == join_spaces(views(ws@).subrange(from as int, ws@.len() as int)),
{
    let mut r: Vec<char> = Vec::new();
    let mut i = from;
    while i < ws.len()
        invariant
            from <= i <= ws@.len(),
            r@ == join_spaces(views(ws@).subrange(from as int, i as int)),
        decreases ws@.len() - i,
    {
        let ghost sub = views(ws@).subrange(from as int, i + 1);
        assert(sub.drop_last() =~= views(ws@).subrange(from as int, i as int));
        if i > from {
            r.push(' ');
        }
        let w = &ws[i];
        let mut j: usize = 0;
        let ghost base = r@;
        while j < w.len()
            invariant
                j <= w@.len(),
                r@ == base + w@.take(j as int),
            decreases w@.len() - j,
        {
            r.push(w[j]);
            j = j + 1;
            assert(r@ =~= base + w@.take(j as int));
        }
        assert(w@.take(w@.len() as int) =~= w@);
        assert(views(ws@)[i as int] == w@);
        if i == from {
            assert(sub.len() == 1);
            assert(r@ =~= join_spaces(sub));
        } else {
            assert(r@ =~= join_spaces(sub));
        }
        i = i + 1;
    }
    r
}

} // verus!

verus! {

/// An ASCII digit.
pub open spec fn is_digit(c: char) -> bool {
    '0' <= c && c <= '9'
}

/// The value of an ASCII digit.
pub open spec fn digit_value(c: char) -> nat {
    (c as u32 - '0' as u32) as nat
}

/// The decimal value of a sequence of digits.
pub open spec fn digits_value(s: Seq<char>) -> nat
    decreases s.len(),
{
    if s.len() == 0 {
        0
    } else {
        10 * digits_value(s.drop_last()) + digit_value(s.last())
    }
}

/// Every character is an ASCII digit.
pub open spec fn all_digits(s: Seq<char>) -> bool {
    forall|i: int| 0 <= i < s.len() ==> is_digit(#[trigger] s[i])
}

/// The number an unsigned `str::parse` reads from `s`, before its range check:
/// an optional `+` followed by at least one ASCII digit, and nothing else.
pub open spec fn unsigned_literal(s: Seq<char>) -> Option<nat> {
    let d = if s.len() > 0 && s[0] == '+' {
        s.drop_first()
    } else {
        s
    };
    if d.len() > 0 && all_digits(d) {
        Some(digits_value(d))
    } else {
        None
    }
}

/// `str::parse::<T>()` for an unsigned `T` whose largest value is `max`.
pub open spec fn parse_unsigned(s: Seq<char>, max: nat) -> Option<nat> {
    match unsigned_literal(s) {
        Some(v) => if v <= max {
            Some(v)
        } else {
            None
        },
        None => None,
    }
}

proof fn lemma_digits_value_grows(s: Seq<char>, k: int)
    requires
        0 <= k <= s.len(),
    ensures
        digits_value(s.take(k)) <= digits_value(s),
    decreases s.len() - k,
{
    if k < s.len() {
        lemma_digits_value_grows(s, k + 1);
        assert(s.take(k + 1).drop_last() =~= s.take(k));
    } else {
        assert(s.take(k) =~= s);
    }
}

/// `str::parse::<u64>()`.
pub fn parse_u64(s: &[char]) -> (r: Option<u64>)
    ensures
        r matches Some(v) ==> parse_unsigned(s@, u64::MAX as nat) == Some(v as nat),
        r is None ==> parse_unsigned(s@, u64::MAX as nat) is None,
{
    let start: usize = if s.len() > 0 && s[0] == '+' {
        1
    } else {
        0
    };
    let ghost d = if s@.len() > 0 && s@[0] == '+' {
        s@.drop_first()
    } else {
        s@
    };
    assert(d =~= s@.subrange(start as int, s@.len() as int));
    if start == s.len() {
        return None;
    }
    let mut v: u64 = 0;
    let mut i = start;
    while i < s.len()
        invariant
            start <= i <= s@.len(),
            d =~= s@.subrange(start as int, s@.len() as int),
            d == (if s@.len() > 0 && s@[0] == '+' {
                s@.drop_first()
            } else {
                s@
            }),
            forall|j: int| 0 <= j < i - start ==> is_digit(#[trigger] d[j]),
            v as nat == digits_value(d.take(i - start)),
        decreases s@.len() - i,
    {
        let c = s[i];
        if !('0' <= c && c <= '9') {
            assert(!is_digit(d[i - start]));
            assert(!all_digits(d));
            return None;
        }
        let dv = (c as u32 - '0' as u32) as u64;
        assert(d.take(i - start + 1).drop_last() =~= d.take(i - start));
        match v.checked_mul(10) {
            Some(m) => match m.checked_add(dv) {
                Some(n) => {
                    v = n;
                },
                None => {
                    proof {
                        assert(d.take(i - start + 1).last() == c);
                        assert(digits_value(d.take(i - start + 1)) == 10 * digits_value(
                            d.take(i - start),
                        ) + digit_value(c));
                        assert(digits_value(d.take(i - start + 1)) > u64::MAX);
                        lemma_digits_value_grows(d, i - start + 1);
                    }
                    return None;
                },
            },
            None => {
                proof {
                    lemma_digits_value_grows(d, i - start + 1);
                }
                return None;
            },
        }
        i = i + 1;
    }
    assert(d.take(d.len() as int) =~= d);
    Some(v)
}

/// `str::parse::<usize>()`.
pub fn parse_usize(s: &[char]) -> (r: Option<usize>)
    ensures
        r matches Some(v) ==> parse_unsigned(s@, usize::MAX as nat) == Some(v as nat),
        r is None ==> parse_unsigned(s@, usize::MAX as nat) is None,
{
    match parse_u64(s) {
        Some(v) => if v <= usize::MAX as u64 {
            Some(v as usize)
        } else {
            None
        },
        None => None,
    }
}

/// `str::parse::<u16>()`.
pub fn parse_u16(s: &[char]) -> (r: Option<u16>)
    ensures
        r matches Some(v) ==> parse_unsigned(s@, u16::MAX as nat) == Some(v as nat),
        r is None ==> parse_unsigned(s@, u16::MAX as nat) is None,
{
    match parse_u64(s) {
        Some(v) => if v <= u16::MAX as u64 {
            Some(v as u16)
        } else {
            None
        },
        None => None,
    }
}

/// An ASCII character.
pub open spec fn is_ascii_char(c: char) -> bool {
    (c as u32) < 128
}

/// The ASCII lowercase of a character: `A`–`Z` become `a`–`z`, anything else stays.
pub open spec fn ascii_lower(c: char) -> char {
    if 'A' <= c && c <= 'Z' {
        ((c as u32) + 32) as char
    } else {
        c
    }
}

/// The ASCII uppercase of a character: `a`–`z` become `A`–`Z`, anything else stays.
pub open spec fn ascii_upper(c: char) -> char {
    if 'a' <= c && c <= 'z' {
        ((c as u32) - 32) as char
    } else {
        c
    }
}

/// Names what `str::to_lowercase` returns for a string.
pub uninterp spec fn str_lower(s: Seq<char>) -> Seq<char>;

/// std `str::to_lowercase`: the Unicode lowercase mapping of the whole string.
/// Trusted: its result is `str_lower` of the argument, and an all-ASCII string maps
/// character by character to its ASCII lowercase (Unicode's lowercase of `A`–`Z` is
/// `a`–`z`, and every other ASCII character is its own lowercase).
#[verifier::external_body]
pub(crate) fn to_lowercase(s: &str) -> (r: String)
    ensures
        r@ == str_lower(s@),
        (forall|i: int| 0 <= i < s@.len() ==> is_ascii_char(#[trigger] s@[i])) ==> r@ == s@.map_values(
            |c: char| ascii_lower(c),
        ),
{
    s.to_lowercase()
}

/// Names the characters `char::to_lowercase` yields for a character.
pub uninterp spec fn lower_of(c: char) -> Seq<char>;

/// std `char::to_lowercase`, collected. Trusted: the result is `lower_of(c)`, and an ASCII
/// character gives its ASCII lowercase alone.
#[verifier::external_body]
fn char_lower(c: char) -> (r: String)
    ensures
        r@ == lower_of(c),
        is_ascii_char(c) ==> r@ == seq![ascii_lower(c)],
{
    c.to_lowercase().collect()
}

/// A character folded for case-insensitive search: its lowercase when that is a single
/// character, else the character itself; so a folded text has the original's positions.
pub open spec fn fold_char(c: char) -> char {
    if lower_of(c).len() == 1 {
        lower_of(c)[0]
    } else {
        c
    }
}

/// A text folded character by character.
pub open spec fn folded(s: Seq<char>) -> Seq<char> {
    s.map_values(|c: char| fold_char(c))
}

/// Folds a text character by character for case-insensitive search.
pub fn fold_chars(s: &[char]) -> (r: Vec<char>)
    ensures
        r@ == folded(s@),
        r@.len() == s@.len(),
{
    let mut r: Vec<char> = Vec::new();
    let mut i: usize = 0;
    while i < s.len()
        invariant
            i <= s@.len(),
            r@ == folded(s@.take(i as int)),
        decreases s@.len() - i,
    {
        let lo = chars_of(char_lower(s[i]).as_str());
        let f = if lo.len() == 1 {
            lo[0]
        } else {
            s[i]
        };
        r.push(f);
        i = i + 1;
        assert(r@ =~= folded(s@.take(i as int)));
    }
    assert(s@.take(s@.len() as int) =~= s@);
    r
}

/// `str::to_lowercase` of a text, written out for all-ASCII texts: each character's ASCII
/// lowercase.
pub open spec fn lower_text(s: Seq<char>) -> Seq<char> {
    if forall|i: int| 0 <= i < s.len() ==> is_ascii_char(#[trigger] s[i]) {
        s.map_values(|c: char| ascii_lower(c))
    } else {
        str_lower(s)
    }
}

/// The lowercase form of a character sequence, as characters.
pub fn lower_chars(s: &[char]) -> (r: Vec<char>)
    ensures
        r@ == str_lower(s@),
        r@ == lower_text(s@),
{
    let st = string_from(s);
    let lo = to_lowercase(st.as_str());
    chars_of(lo.as_str())
}

} // verus!

verus! {

/// A string with any non-whitespace character has at least one word.
pub proof fn lemma_split_ws_some(s: Seq<char>, i: int)
    requires
        0 <= i < s.len(),
        !is_ws(s[i]),
    ensures
        split_ws(s).len() > 0,
    decreases s.len(),
{
    if !is_ws(s.last()) {
        lemma_split_ws_nonempty(s);
    } else {
        assert(i < s.len() - 1);
        assert(s.drop_last()[i] == s[i]);
        lemma_split_ws_some(s.drop_last(), i);
    }
}

/// The characters of an optional string.
pub open spec fn opt_view(o: Option<String>) -> Option<Seq<char>> {
    match o {
        Some(s) => Some(s@),
        None => None,
    }
}

/// The `nat` held by an optional unsigned integer.
pub open spec fn opt_nat_usize(o: Option<usize>) -> Option<nat> {
    match o {
        Some(v) => Some(v as nat),
        None => None,
    }
}

/// An optional `u64` as a natural number.
pub open spec fn opt_nat_u64(o: Option<u64>) -> Option<nat> {
    match o {
        Some(v) => Some(v as nat),
        None => None,
    }
}

} // verus!

verus! {

/// Appends the characters of `s` to `v`.
pub fn append_chars(v: &mut Vec<char>, s: &[char])
    ensures
        final(v)@ == old(v)@ + s@,
{
    let mut j: usize = 0;
    while j < s.len()
        invariant
            j <= s@.len(),
            v@ == old(v)@ + s@.take(j as int),
        decreases s@.len() - j,
    {
        v.push(s[j]);
        j = j + 1;
        assert(v@ =~= old(v)@ + s@.take(j as int));
    }
    assert(s@.take(s@.len() as int) =~= s@);
}

/// Appends the characters of a string slice to `v`.
pub fn append_str(v: &mut Vec<char>, s: &str)
    ensures
        final(v)@ == old(v)@ + s@,
{
    let c = chars_of(s);
    append_chars(v, c.as_slice());
}

/// The pieces of `s` between occurrences of `sep`, empty pieces included (`str::split`).
pub open spec fn split_on(s: Seq<char>, sep: char) -> Seq<Seq<char>>
    decreases s.len(),
{
    if s.len() == 0 {
        seq![seq![]]
    } else {
        let t = split_on(s.drop_last(), sep);
        if s.last() == sep {
            t.push(seq![])
        } else {
            t.update(t.len() - 1, t.last().push(s.last()))
        }
    }
}

/// Splitting never gives an empty list of pieces.
pub proof fn lemma_split_on_len(s: Seq<char>, sep: char)
    ensures
        split_on(s, sep).len() >= 1,
    decreases s.len(),
{
    if s.len() > 0 {
        lemma_split_on_len(s.drop_last(), sep);
    }
}

/// The pieces of `s` between occurrences of `sep`.
pub fn split_char(s: &[char], sep: char) -> (r: Vec<Vec<char>>)
    ensures
        views(r@) == split_on(s@, sep),
{
    let mut toks: Vec<Vec<char>> = Vec::new();
    let mut cur: Vec<char> = Vec::new();
    let mut i: usize = 0;
    while i < s.len()
        invariant
            i <= s@.len(),
            split_on(s@.take(i as int), sep) == views(toks@).push(cur@),
        decreases s@.len() - i,
    {
        let c = s[i];
        let ghost t = s@.take(i + 1);
        assert(t.drop_last() =~= s@.take(i as int));
        if c == sep {
            let ghost old_toks = views(toks@);
            let ghost cv = cur@;
            toks.push(cur);
            assert(views(toks@) =~= old_toks.push(cv));
            cur = Vec::new();
            assert(views(toks@).push(cur@) =~= old_toks.push(cv).push(seq![]));
        } else {
            let ghost before = views(toks@).push(cur@);
            cur.push(c);
            assert(views(toks@).push(cur@) =~= before.update(before.len() - 1, before.last().push(c)));
        }
        i = i + 1;
    }
    assert(s@.take(s@.len() as int) =~= s@);
    let ghost old_toks = views(toks@);
    let ghost cv = cur@;
    toks.push(cur);
    assert(views(toks@) =~= old_toks.push(cv));
    toks
}

/// Words joined with a separator character.
pub open spec fn join_on(ws: Seq<Seq<char>>, sep: char) -> Seq<char>
    decreases ws.len(),
{
    if ws.len() == 0 {
        seq![]
    } else if ws.len() == 1 {
        ws[0]
    } else {
        join_on(ws.drop_last(), sep).push(sep) + ws.last()
    }
}

/// `ws` joined with `sep`.
pub fn join_char(ws: &Vec<Vec<char>>, sep: char) -> (r: Vec<char>)
    ensures
        r@ == join_on(views(ws@), sep),
{
    let mut r: Vec<char> = Vec::new();
    let mut i: usize = 0;
    while i < ws.len()
        invariant
            i <= ws@.len(),
            r@ == join_on(views(ws@).take(i as int), sep),
        decreases ws@.len() - i,
    {
        let ghost sub = views(ws@).take(i + 1);
        assert(sub.drop_last() =~= views(ws@).take(i as int));
        if i > 0 {
            r.push(sep);
        }
        append_chars(&mut r, ws[i].as_slice());
        if i == 0 {
            assert(r@ =~= join_on(sub, sep));
        } else {
            assert(r@ =~= join_on(sub, sep));
        }
        i = i + 1;
    }
    assert(views(ws@).take(ws@.len() as int) =~= views(ws@));
    r
}

} // verus!

verus! {

/// The number of bytes `c` takes in UTF-8 (`char::len_utf8`).
pub fn char_len_utf8(c: char) -> (n: usize)
    ensures
        n == vstd::utf8::encode_utf8(seq![c]).len(),
        1 <= n <= 4,
{
    let v = c as u32;
    proof {
        vstd::utf8::char_is_scalar(c);
        assert(vstd::utf8::encode_utf8(seq![c]) =~= vstd::utf8::encode_scalar(c as u32) + vstd::utf8::encode_utf8(
            seq![c].drop_first(),
        ));
        assert(vstd::utf8::encode_utf8(seq![c].drop_first()) =~= Seq::<u8>::empty());
    }
    if v <= 0x7F {
        1
    } else if v <= 0x7FF {
        2
    } else if v <= 0xFFFF {
        3
    } else {
        4
    }
}

} // verus!

verus! {

/// Where `find_from` finds a match, it is a match at or after the start.
pub proof fn lemma_find_from(s: Seq<char>, p: Seq<char>, from: int)
    ensures
        find_from(s, p, from) matches Some(i) ==> from <= i && matches_at(s, p, i),
    decreases s.len() - from,
{
    if from < 0 || from + p.len() > s.len() {
    } else if matches_at(s, p, from) {
    } else if from + p.len() == s.len() {
    } else {
        lemma_find_from(s, p, from + 1);
    }
}

} // verus!

verus! {

/// The characters of an optional string slice.
pub open spec fn opt_str_view(o: Option<&str>) -> Option<Seq<char>> {
    match o {
        Some(s) => Some(s@),
        None => None,
    }
}

} // verus!

verus! {

/// The decimal digits of `n`, most significant first (`n.to_string()` for an unsigned `n`).
pub open spec fn decimal(n: nat) -> Seq<char>
    decreases n,
{
    if n < 10 {
        seq![('0' as u32 + n) as char]
    } else {
        decimal(n / 10).push(('0' as u32 + n % 10) as char)
    }
}

/// The decimal form of `n`.
pub fn decimal_chars(n: u64) -> (r: Vec<char>)
    ensures
        r@ == decimal(n as nat),
    decreases n,
{
    if n < 10 {
        let mut v = Vec::new();
        v.push(((48 + n) as u8) as char);
        v
    } else {
        let mut v = decimal_chars(n / 10);
        v.push(((48 + n % 10) as u8) as char);
        v
    }
}

} // verus!
