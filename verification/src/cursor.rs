//! A position in a text, counted in bytes and always between two characters.
use vstd::prelude::*;
use vstd::string::*;
use vstd::utf8::*;

verus! {

/// How many bytes a text takes.
pub open spec fn byte_len(s: Seq<char>) -> nat {
    encode_utf8(s).len()
}

/// Whether `pos` lies between two characters of the text, or at either end.
pub open spec fn on_boundary(s: Seq<char>, pos: int) -> bool {
    0 <= pos <= byte_len(s) && is_char_boundary(encode_utf8(s), pos)
}

/// The text before a position.
pub open spec fn text_before(s: Seq<char>, pos: int) -> Seq<char> {
    decode_utf8(encode_utf8(s).subrange(0, pos))
}

/// The text from a position on.
pub open spec fn text_after(s: Seq<char>, pos: int) -> Seq<char> {
    decode_utf8(encode_utf8(s).subrange(pos, byte_len(s) as int))
}

/// The bytes of two texts together are those of the one and then those of the other.
pub proof fn lemma_encode_concat(a: Seq<char>, b: Seq<char>)
    ensures
        encode_utf8(a + b) == encode_utf8(a) + encode_utf8(b),
    decreases a.len(),
{
    if a.len() == 0 {
        assert(a + b == b);
        assert(encode_utf8(a) + encode_utf8(b) == encode_utf8(b));
    } else {
        assert((a + b).drop_first() == a.drop_first() + b);
        lemma_encode_concat(a.drop_first(), b);
        assert(encode_utf8(a + b) == encode_scalar(a[0] as u32) + (encode_utf8(a.drop_first())
            + encode_utf8(b)));
    }
}

/// The place where two texts meet lies between two characters.
pub proof fn lemma_joint_on_boundary(a: Seq<char>, b: Seq<char>)
    ensures
        on_boundary(a + b, byte_len(a) as int),
        text_before(a + b, byte_len(a) as int) == a,
        text_after(a + b, byte_len(a) as int) == b,
{
    lemma_encode_concat(a, b);
    lemma_joint_boundary(a, b);
    assert(encode_utf8(a + b).subrange(0, byte_len(a) as int) == encode_utf8(a));
    assert(encode_utf8(a + b).subrange(byte_len(a) as int, byte_len(a + b) as int) == encode_utf8(
        b,
    ));
    encode_utf8_decode_utf8(a);
    encode_utf8_decode_utf8(b);
}

proof fn lemma_joint_boundary(a: Seq<char>, b: Seq<char>)
    ensures
        is_char_boundary(encode_utf8(a + b), byte_len(a) as int),
    decreases a.len(),
{
    encode_utf8_valid_utf8(a + b);
    lemma_encode_concat(a, b);
    if a.len() == 0 {
    } else {
        encode_utf8_first_scalar(a + b);
        assert((a + b).drop_first() == a.drop_first() + b);
        let head = encode_scalar(a[0] as u32);
        assert(pop_first_scalar(encode_utf8(a + b)) == encode_utf8(a.drop_first() + b));
        lemma_joint_boundary(a.drop_first(), b);
        assert(byte_len(a) == head.len() + byte_len(a.drop_first()));
    }
}

/// A text is what stands before a position and then what stands from it on.
pub proof fn lemma_split(s: Seq<char>, pos: int)
    requires
        on_boundary(s, pos),
    ensures
        text_before(s, pos) + text_after(s, pos) == s,
        byte_len(text_before(s, pos)) == pos,
        text_before(s, pos).len() == 0 <==> pos == 0,
        text_after(s, pos).len() == 0 <==> pos == byte_len(s),
{
    encode_utf8_valid_utf8(s);
    valid_utf8_split(encode_utf8(s), pos);
    decode_utf8_split(encode_utf8(s), pos);
    encode_utf8_decode_utf8(s);
    decode_utf8_encode_utf8(encode_utf8(s).subrange(0, pos));
    decode_utf8_encode_utf8(encode_utf8(s).subrange(pos, byte_len(s) as int));
}

/// A text takes a byte wherever it has a character.
pub proof fn lemma_byte_len_zero(s: Seq<char>)
    ensures
        byte_len(s) == 0 <==> s.len() == 0,
{
    if s.len() > 0 {
        encode_utf8_first_scalar(s);
    }
}

/// Splits a text at a position.
pub fn split(s: &str, pos: usize) -> (r: (&str, &str))
    requires
        on_boundary(s@, pos as int),
    ensures
        r.0@ == text_before(s@, pos as int),
        r.1@ == text_after(s@, pos as int),
{
    let r = s.split_at(pos);
    proof {
        encode_utf8_decode_utf8(r.0@);
        encode_utf8_decode_utf8(r.1@);
    }
    r
}

/// How many bytes a text takes.
pub fn bytes_in(s: &str) -> (n: usize)
    ensures
        n == byte_len(s@),
{
    s.as_bytes().len()
}

}
