//! Access to the characters of a string slice.

use vstd::prelude::*;
use vstd::utf8::{
    encode_utf8, encode_utf8_decode_utf8, encode_utf8_first_scalar, encode_utf8_valid_utf8,
    is_char_boundary, pop_first_scalar,
};

verus! {

/// The characters of `s`, in order, as a vector that can be indexed in
/// constant time.
pub fn chars_of(s: &str) -> (out: Vec<char>)
    ensures
        out@ == s@,
{
    broadcast use vstd::string::group_string_axioms;
    let mut out: Vec<char> = Vec::new();
    let chars = s.chars();
    for c in it: chars
        invariant
            it.seq() == s@,
            out@ == s@.take(it.index()),
    {
        out.push(c);
    }
    out
}

/// The encoding of a text is the encoding of its first `m` characters followed
/// by the encoding of the rest, and the place between the two is a character
/// boundary.
pub proof fn encoding_splits(s: Seq<char>, m: int)
    requires
        0 <= m <= s.len(),
    ensures
        encode_utf8(s) == encode_utf8(s.take(m)) + encode_utf8(s.skip(m)),
        is_char_boundary(encode_utf8(s), encode_utf8(s.take(m)).len() as int),
    decreases m,
{
    encode_utf8_valid_utf8(s);
    if m == 0 {
        assert(s.take(0) =~= Seq::<char>::empty());
        assert(s.skip(0) =~= s);
        assert(encode_utf8(s) =~= encode_utf8(s.take(0)) + encode_utf8(s.skip(0)));
    } else {
        let tail = s.drop_first();
        encoding_splits(tail, m - 1);
        assert(s.take(m).drop_first() =~= tail.take(m - 1));
        assert(s.skip(m) =~= tail.skip(m - 1));
        assert(s.take(m)[0] == s[0]);
        assert(encode_utf8(s) =~= encode_utf8(s.take(m)) + encode_utf8(s.skip(m)));
        encode_utf8_first_scalar(s);
        assert(pop_first_scalar(encode_utf8(s)) =~= encode_utf8(tail));
    }
}

/// The first `m` characters of `s` and the rest of it, as slices of `s`, in
/// time proportional to `m`.
pub fn split_after<'a>(s: &'a str, m: usize) -> (parts: (&'a str, &'a str))
    requires
        m <= s@.len(),
    ensures
        parts.0@ == s@.take(m as int),
        parts.1@ == s@.skip(m as int),
{
    let head = s.substring_char(0, m);
    proof {
        assert(head@ =~= s@.take(m as int));
        encoding_splits(s@, m as int);
    }
    let width: usize = head.as_bytes().len();
    let parts = s.split_at(width);
    proof {
        let bytes = encode_utf8(s@);
        let front = encode_utf8(s@.take(m as int));
        let back = encode_utf8(s@.skip(m as int));
        assert(bytes.subrange(0, front.len() as int) =~= front);
        assert(bytes.subrange(front.len() as int, bytes.len() as int) =~= back);
        encode_utf8_decode_utf8(parts.0@);
        encode_utf8_decode_utf8(parts.1@);
        encode_utf8_decode_utf8(s@.take(m as int));
        encode_utf8_decode_utf8(s@.skip(m as int));
    }
    parts
}

/// The lowercase form of a text under Unicode's case mapping: the result of
/// `str::to_lowercase` on a string with these characters. The mapping may
/// change the number of characters, and what stands for a capital sigma
/// depends on the letters around it.
pub uninterp spec fn lowercase_of(s: Seq<char>) -> Seq<char>;

/// `str::to_lowercase` of the standard library. Taken on trust: the result
/// depends on the characters of `s` alone, so it is the named lowercase form
/// of `s`; and a string without characters has a lowercase form without
/// characters.
pub assume_specification[ str::to_lowercase ](s: &str) -> (lowered: String)
    ensures
        lowered@ == lowercase_of(s@),
        s@.len() == 0 ==> lowered@.len() == 0,
;

} // verus!
