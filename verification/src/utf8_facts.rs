//! Facts about character boundaries in UTF-8 text, used to keep the prompt's cursor on one.
use vstd::prelude::*;
use vstd::utf8::{
    encode_utf8, is_char_boundary, length_of_first_scalar, pop_first_scalar, valid_first_scalar,
    valid_utf8,
};

verus! {

broadcast use vstd::utf8::valid_utf8_concat, vstd::utf8::encode_utf8_valid_utf8;

/// Where two UTF-8 texts meet is a character boundary of their concatenation.
pub proof fn lemma_boundary_at_join(x: Seq<u8>, y: Seq<u8>)
    requires
        valid_utf8(x),
        valid_utf8(y),
    ensures
        valid_utf8(x + y),
        is_char_boundary(x + y, x.len() as int),
    decreases x.len(),
{
    if x.len() == 0 {
        assert(x + y =~= y);
    } else {
        let l = length_of_first_scalar(x);
        assert(valid_first_scalar(x));
        assert(1 <= l <= x.len());
        let rest = pop_first_scalar(x);
        assert(rest.len() == x.len() - l);
        lemma_boundary_at_join(rest, y);
        let xy = x + y;
        assert(xy[0] == x[0]);
        assert(length_of_first_scalar(xy) == l);
        assert(pop_first_scalar(xy) =~= rest + y);
        reveal_with_fuel(is_char_boundary, 2);
    }
}

} // verus!

verus! {

/// Splicing `e` into `b` at a boundary keeps both ends of `e` on boundaries.
pub proof fn lemma_splice_boundaries(b: Seq<u8>, p: int, e: Seq<u8>)
    requires
        valid_utf8(b),
        is_char_boundary(b, p),
        valid_utf8(e),
    ensures
        valid_utf8(b.take(p) + e + b.skip(p)),
        is_char_boundary(b.take(p) + e + b.skip(p), p),
        is_char_boundary(b.take(p) + e + b.skip(p), p + e.len()),
{
    vstd::utf8::valid_utf8_split(b, p);
    assert(b.take(p) =~= b.subrange(0, p));
    assert(b.skip(p) =~= b.subrange(p, b.len() as int));
    let a = b.take(p);
    let t = b.skip(p);
    lemma_boundary_at_join(a, e + t);
    lemma_boundary_at_join(a + e, t);
    assert(a + e + t =~= a + (e + t));
}

/// Cutting `b` between two boundaries leaves a boundary where the cut closes.
pub proof fn lemma_cut_boundary(b: Seq<u8>, p: int, q: int)
    requires
        valid_utf8(b),
        is_char_boundary(b, p),
        is_char_boundary(b, q),
        p <= q,
    ensures
        valid_utf8(b.take(p) + b.skip(q)),
        is_char_boundary(b.take(p) + b.skip(q), p),
{
    vstd::utf8::valid_utf8_split(b, p);
    vstd::utf8::valid_utf8_split(b, q);
    assert(b.take(p) =~= b.subrange(0, p));
    assert(b.skip(q) =~= b.subrange(q, b.len() as int));
    lemma_boundary_at_join(b.take(p), b.skip(q));
}

/// A boundary lies within the text.
pub proof fn lemma_boundary_in_range(b: Seq<u8>, p: int)
    requires
        valid_utf8(b),
        is_char_boundary(b, p),
    ensures
        0 <= p <= b.len(),
{
    reveal_with_fuel(is_char_boundary, 1);
}

} // verus!

verus! {

/// Every byte of a character's encoding after the first is a continuation byte.
pub proof fn lemma_encoding_tail(c: char, k: int)
    requires
        0 < k < encode_utf8(seq![c]).len(),
    ensures
        vstd::utf8::is_continuation_byte(encode_utf8(seq![c])[k]),
{
    let v = c as u32;
    assert(encode_utf8(seq![c]) =~= vstd::utf8::encode_scalar(v) + encode_utf8(seq![c].drop_first()));
    assert(encode_utf8(seq![c].drop_first()) =~= Seq::<u8>::empty());
    assert(vstd::utf8::is_continuation_byte(0x80u8 | (v & 0x3F) as u8)) by (bit_vector);
    assert(vstd::utf8::is_continuation_byte(0x80u8 | ((v >> 6) & 0x3F) as u8)) by (bit_vector);
    assert(vstd::utf8::is_continuation_byte(0x80u8 | ((v >> 12) & 0x3F) as u8)) by (bit_vector);
}

} // verus!
