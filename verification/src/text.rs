//! Facts about the UTF-8 encoding of source code, and the byte offsets of its
//! characters.
use vstd::prelude::*;
use vstd::utf8::*;

verus! {

broadcast use vstd::utf8::char_is_scalar;

/// The number of bytes that encode a sequence of characters in UTF-8.
pub open spec fn byte_len(chars: Seq<char>) -> nat {
    encode_utf8(chars).len()
}

/// The byte offset of the character at index `i`.
pub open spec fn byte_offset(chars: Seq<char>, i: int) -> nat {
    byte_len(chars.take(i))
}

/// The number of bytes that encode one character in UTF-8.
pub open spec fn char_width(c: char) -> nat {
    encode_scalar(c as u32).len()
}

/// Returns the number of bytes that encode a character in UTF-8.
pub fn char_len_utf8(c: char) -> (n: usize)
    ensures
        n == char_width(c),
        1 <= n <= 4,
{
    let v = c as u32;
    proof {
        assert(is_scalar(v));
    }
    if v < 0x80 {
        1
    } else if v < 0x800 {
        2
    } else if v < 0x10000 {
        3
    } else {
        4
    }
}

/// Encoding distributes over concatenation.
pub proof fn lemma_encode_concat(a: Seq<char>, b: Seq<char>)
    ensures
        encode_utf8(a + b) == encode_utf8(a) + encode_utf8(b),
    decreases a.len(),
{
    if a.len() == 0 {
        assert(a + b =~= b);
        assert(encode_utf8(a) =~= Seq::<u8>::empty());
        assert(encode_utf8(a) + encode_utf8(b) =~= encode_utf8(b));
    } else {
        assert((a + b).drop_first() =~= a.drop_first() + b);
        assert((a + b)[0] == a[0]);
        lemma_encode_concat(a.drop_first(), b);
        assert(encode_utf8(a + b) =~= encode_utf8(a) + encode_utf8(b));
    }
}

/// The encoding of one character.
pub proof fn lemma_encode_single(c: char)
    ensures
        encode_utf8(seq![c]) == encode_scalar(c as u32),
{
    assert(seq![c].drop_first() =~= Seq::<char>::empty());
    assert(encode_utf8(seq![c]) =~= encode_scalar(c as u32) + encode_utf8(Seq::<char>::empty()));
}

/// Byte lengths add up over concatenation.
pub proof fn lemma_byte_len_concat(a: Seq<char>, b: Seq<char>)
    ensures
        byte_len(a + b) == byte_len(a) + byte_len(b),
{
    lemma_encode_concat(a, b);
}

/// Appending a character adds its width.
pub proof fn lemma_byte_len_push(a: Seq<char>, c: char)
    ensures
        byte_len(a.push(c)) == byte_len(a) + char_width(c),
{
    assert(a.push(c) =~= a + seq![c]);
    lemma_byte_len_concat(a, seq![c]);
    lemma_encode_single(c);
}

/// The bytes of a subrange: the offset of its end minus that of its start.
pub proof fn lemma_byte_len_subrange(s: Seq<char>, i: int, j: int)
    requires
        0 <= i <= j <= s.len(),
    ensures
        byte_offset(s, j) == byte_offset(s, i) + byte_len(s.subrange(i, j)),
        byte_offset(s, i) <= byte_offset(s, j) <= byte_len(s),
{
    assert(s.take(j) =~= s.take(i) + s.subrange(i, j));
    lemma_byte_len_concat(s.take(i), s.subrange(i, j));
    assert(s =~= s.take(j) + s.skip(j));
    lemma_byte_len_concat(s.take(j), s.skip(j));
}

/// The offset after a character is the offset before it plus its width.
pub proof fn lemma_byte_offset_next(s: Seq<char>, i: int)
    requires
        0 <= i < s.len(),
    ensures
        byte_offset(s, i + 1) == byte_offset(s, i) + char_width(s[i]),
{
    assert(s.take(i + 1) =~= s.take(i).push(s[i]));
    lemma_byte_len_push(s.take(i), s[i]);
}

/// Every character takes at least one byte.
pub proof fn lemma_byte_len_ge_len(s: Seq<char>)
    ensures
        byte_len(s) >= s.len(),
    decreases s.len(),
{
    if s.len() > 0 {
        assert(s =~= seq![s[0]] + s.drop_first());
        lemma_byte_len_concat(seq![s[0]], s.drop_first());
        lemma_encode_single(s[0]);
        lemma_byte_len_ge_len(s.drop_first());
    }
}

/// The end of an encoded prefix is a character boundary of the whole encoding.
pub proof fn lemma_char_boundary(a: Seq<char>, b: Seq<char>)
    ensures
        is_char_boundary(encode_utf8(a + b), encode_utf8(a).len() as int),
    decreases a.len(),
{
    broadcast use encode_utf8_valid_utf8;

    let bytes = encode_utf8(a + b);
    if a.len() == 0 {
    } else {
        lemma_encode_concat(a, b);
        encode_utf8_first_scalar(a + b);
        assert((a + b)[0] == a[0]);
        assert((a + b).drop_first() =~= a.drop_first() + b);
        let w = encode_scalar(a[0] as u32).len() as int;
        assert(pop_first_scalar(bytes) =~= encode_utf8(a.drop_first() + b));
        lemma_char_boundary(a.drop_first(), b);
        assert(encode_utf8(a).len() - w == encode_utf8(a.drop_first()).len());
    }
}

/// Splits a string slice into its first `k` characters and the rest, given
/// the byte offset `mid` of character `k`.
pub fn split_at_char<'a>(s: &'a str, Ghost(k): Ghost<int>, mid: usize) -> (parts: (&'a str, &'a str))
    requires
        0 <= k <= s@.len(),
        mid == byte_offset(s@, k),
    ensures
        parts.0@ == s@.take(k),
        parts.1@ == s@.skip(k),
{
    proof {
        broadcast use encode_utf8_decode_utf8;

        let a = s@.take(k);
        let b = s@.skip(k);
        assert(s@ =~= a + b);
        lemma_char_boundary(a, b);
        lemma_encode_concat(a, b);
    }
    let parts = s.split_at(mid);
    proof {
        broadcast use encode_utf8_decode_utf8;

        let a = s@.take(k);
        let b = s@.skip(k);
        lemma_encode_concat(a, b);
        assert(encode_utf8(parts.0@) =~= encode_utf8(a));
        assert(encode_utf8(parts.1@) =~= encode_utf8(b));
        assert(decode_utf8(encode_utf8(parts.0@)) == decode_utf8(encode_utf8(a)));
        assert(decode_utf8(encode_utf8(parts.1@)) == decode_utf8(encode_utf8(b)));
    }
    parts
}

} // verus!
