//! Slicing of borrowed text at ASCII separators.
//!
//! Every function here works on the bytes of a `str` and is proved against
//! its characters. The separators of the protocol are ASCII, and in UTF-8 the
//! byte of an ASCII character never lies inside the encoding of another
//! character: so a search for the byte finds the character, and a cut at the
//! byte falls between characters.

use vstd::prelude::*;
use vstd::string::*;
use vstd::utf8::*;

verus! {

/// Whether `c` is one of the 128 ASCII characters, which UTF-8 encodes as a
/// single byte of the same value.
pub open spec fn is_ascii_char(c: char) -> bool {
    (c as u32) < 0x80
}

/// Position of the first occurrence of `c` in `s`, or `s.len()` when `c`
/// does not occur.
pub open spec fn first_index(s: Seq<char>, c: char) -> int
    decreases s.len(),
{
    if s.len() == 0 || s[0] == c {
        0
    } else {
        1 + first_index(s.drop_first(), c)
    }
}

/// The part of `s` before the first `c`; all of `s` when `c` does not occur.
pub open spec fn before(s: Seq<char>, c: char) -> Seq<char> {
    s.subrange(0, first_index(s, c))
}

/// The part of `s` after the first `c`; empty when `c` does not occur.
pub open spec fn after(s: Seq<char>, c: char) -> Seq<char> {
    if first_index(s, c) < s.len() {
        s.subrange(first_index(s, c) + 1, s.len() as int)
    } else {
        Seq::empty()
    }
}

/// `first_index` is within bounds, points at `c` when inside `s`, and
/// nothing before it is `c`.
pub proof fn lemma_first_index(s: Seq<char>, c: char)
    ensures
        0 <= first_index(s, c) <= s.len(),
        first_index(s, c) < s.len() ==> s[first_index(s, c)] == c,
        forall|j: int| 0 <= j < first_index(s, c) ==> s[j] != c,
        first_index(s, c) < s.len() <==> s.contains(c),
    decreases s.len(),
{
    if s.len() == 0 || s[0] == c {
    } else {
        let t = s.drop_first();
        lemma_first_index(t, c);
        assert forall|j: int| 0 <= j < first_index(s, c) implies s[j] != c by {
            if j > 0 {
                assert(s[j] == t[j - 1]);
            }
        }
        if first_index(s, c) < s.len() {
            assert(s[first_index(s, c)] == t[first_index(t, c)]);
        }
        if s.contains(c) {
            let i = choose|i: int| 0 <= i < s.len() && s[i] == c;
            assert(t[i - 1] == c);
        }
    }
}

/// Any position that holds `c` with no `c` before it is `first_index`.
pub proof fn lemma_first_index_is(s: Seq<char>, c: char, k: int)
    requires
        0 <= k <= s.len(),
        k < s.len() ==> s[k] == c,
        forall|j: int| 0 <= j < k ==> s[j] != c,
    ensures
        first_index(s, c) == k,
{
    lemma_first_index(s, c);
    let f = first_index(s, c);
    if f < k {
        assert(s[f] != c);
    }
    if k < f {
        assert(s[k] == c);
    }
}

/// Decoding bytes that nowhere hold the ASCII byte `b` gives characters that
/// nowhere are `b`.
proof fn lemma_decode_avoids(bytes: Seq<u8>, b: u8)
    requires
        valid_utf8(bytes),
        b < 0x80,
        forall|j: int| 0 <= j < bytes.len() ==> bytes[j] != b,
    ensures
        !decode_utf8(bytes).contains(b as char),
    decreases bytes.len(),
{
    let chars = decode_utf8(bytes);
    if bytes.len() == 0 {
        assert(chars =~= Seq::<char>::empty());
    } else {
        let rest = pop_first_scalar(bytes);
        let head = decode_first_scalar(bytes);
        assert forall|j: int| 0 <= j < rest.len() implies rest[j] != b by {
            assert(rest[j] == bytes[j + length_of_first_scalar(bytes)]);
        }
        lemma_decode_avoids(rest, b);
        lemma_head_not_ascii(bytes, b);
        assert(chars =~= seq![head as char] + decode_utf8(rest));
        if chars.contains(b as char) {
            let i = choose|i: int| 0 <= i < chars.len() && chars[i] == b as char;
            if i == 0 {
                assert((head as char) as u32 == head) by {
                    lemma_scalar_char(bytes);
                }
                assert((b as char) as u32 == b as u32);
                assert(false);
            } else {
                assert(decode_utf8(rest)[i - 1] == b as char);
                assert(false);
            }
        }
    }
}

/// The first scalar of valid bytes survives the round trip through `char`.
proof fn lemma_scalar_char(bytes: Seq<u8>)
    requires
        valid_utf8(bytes),
        bytes.len() > 0,
    ensures
        (decode_first_scalar(bytes) as char) as u32 == decode_first_scalar(bytes),
{
    lemma_first_scalar_range(bytes);
}

/// The first scalar of valid bytes is a Unicode scalar value.
proof fn lemma_first_scalar_range(bytes: Seq<u8>)
    requires
        valid_utf8(bytes),
        bytes.len() > 0,
    ensures
        is_scalar(decode_first_scalar(bytes)),
{
    let b0 = bytes[0];
    if is_leading_byte_width_1(b0) {
        assert((b0 & 0x7f) as u32 <= 0x7f) by (bit_vector);
    } else if is_leading_byte_width_2(b0) {
        let b1 = bytes[1];
        assert((((b0 & 0x1f) as u32) << 6 | (b1 & 0x3f) as u32) <= 0x7ff) by (bit_vector);
    } else if is_leading_byte_width_3(b0) {
        let b1 = bytes[1];
        let b2 = bytes[2];
        assert((((b0 & 0x0f) as u32) << 12 | ((b1 & 0x3f) as u32) << 6 | (b2 & 0x3f) as u32)
            <= 0xffff) by (bit_vector);
    }
}

/// When the first byte is not the ASCII byte `b`, the first scalar is not
/// `b` either.
proof fn lemma_head_not_ascii(bytes: Seq<u8>, b: u8)
    requires
        valid_utf8(bytes),
        bytes.len() > 0,
        b < 0x80,
        bytes[0] != b,
    ensures
        decode_first_scalar(bytes) != b as u32,
{
    let b0 = bytes[0];
    if is_leading_byte_width_1(b0) {
        assert((b0 & 0x7f) as u32 == b0 as u32) by (bit_vector)
            requires
                b0 <= 0x7f,
        ;
    }
}

/// A string made of `a`, one `c` and `b`, where `a` holds no `c`, splits
/// into `a` and `b` at its first `c`.
pub proof fn lemma_split_parts(s: Seq<char>, a: Seq<char>, b: Seq<char>, c: char)
    requires
        s == a + seq![c] + b,
        !a.contains(c),
    ensures
        s.contains(c),
        first_index(s, c) == a.len(),
        before(s, c) == a,
        after(s, c) == b,
{
    let k = a.len() as int;
    assert(s[k] == c);
    assert forall|j: int| 0 <= j < k implies s[j] != c by {
        assert(s[j] == a[j]);
        if a[j] == c {
            assert(a.contains(c));
        }
    }
    lemma_first_index_is(s, c, k);
    assert(before(s, c) =~= a);
    assert(after(s, c) =~= b);
}

/// The characters of a string are the decoding of its bytes, which are
/// valid UTF-8.
proof fn lemma_str_bytes(s: &str)
    ensures
        valid_utf8(s.spec_bytes()),
        decode_utf8(s.spec_bytes()) == s@,
{
    encode_utf8_valid_utf8(s@);
    encode_utf8_decode_utf8(s@);
}

/// Valid bytes that start with the ASCII byte `b` decode to the character
/// `b` followed by the decoding of the remaining bytes.
proof fn lemma_decode_ascii_head(bytes: Seq<u8>, b: u8)
    requires
        valid_utf8(bytes),
        bytes.len() > 0,
        bytes[0] == b,
        b < 0x80,
    ensures
        is_char_boundary(bytes, 1),
        valid_utf8(bytes.subrange(1, bytes.len() as int)),
        decode_utf8(bytes) == seq![b as char] + decode_utf8(bytes.subrange(1, bytes.len() as int)),
{
    reveal_with_fuel(is_char_boundary, 2);
    assert((b & 0x7f) as u32 == b as u32) by (bit_vector)
        requires
            b < 0x80,
    ;
    assert(pop_first_scalar(bytes) == bytes.subrange(1, bytes.len() as int));
    assert(decode_first_scalar(bytes) == b as u32);
}

/// Splits `s` at the first occurrence of the ASCII character `sep`, which
/// belongs to neither part. `None` when `sep` does not occur.
pub fn split_once<'a>(s: &'a str, c: char) -> (r: Option<(&'a str, &'a str)>)
    requires
        is_ascii_char(c),
    ensures
        r is Some <==> s@.contains(c),
        r matches Some((a, b)) ==> a@ == before(s@, c) && b@ == after(s@, c),
{
    let sep = c as u8;
    let bytes = s.as_bytes();
    let n = bytes.len();
    let mut k: usize = 0;
    while k < n && bytes[k] != sep
        invariant
            k <= n,
            n == bytes@.len(),
            forall|j: int| 0 <= j < k ==> bytes@[j] != sep,
        decreases n - k,
    {
        k += 1;
    }
    proof {
        lemma_str_bytes(s);
    }
    if k == n {
        proof {
            lemma_decode_avoids(bytes@, sep);
        }
        None
    } else {
        proof {
            is_char_boundary_iff_not_is_continuation_byte(bytes@, k as int);
        }
        let (a, rest) = s.split_at(k);
        proof {
            lemma_str_bytes(a);
            lemma_str_bytes(rest);
            decode_utf8_split(bytes@, k as int);
            lemma_decode_ascii_head(rest.spec_bytes(), sep);
        }
        let (_, b) = rest.split_at(1);
        proof {
            lemma_str_bytes(b);
            lemma_decode_avoids(a.spec_bytes(), sep);
            assert(s@ == a@ + rest@);
            assert(rest@ == seq![sep as char] + b@);
            assert(s@ =~= a@ + seq![sep as char] + b@);
            lemma_split_parts(s@, a@, b@, sep as char);
        }
        Some((a, b))
    }
}

/// Removes a leading ASCII character `c` from `s`. `None` when `s` does not
/// start with it.
pub fn strip_prefix<'a>(s: &'a str, first: char) -> (r: Option<&'a str>)
    requires
        is_ascii_char(first),
    ensures
        r is Some <==> s@.len() > 0 && s@[0] == first,
        r matches Some(t) ==> t@ == s@.drop_first(),
{
    let c = first as u8;
    let bytes = s.as_bytes();
    proof {
        lemma_str_bytes(s);
    }
    if bytes.len() > 0 && bytes[0] == c {
        proof {
            lemma_decode_ascii_head(bytes@, c);
        }
        let (_, t) = s.split_at(1);
        proof {
            lemma_str_bytes(t);
            assert(s@ == seq![c as char] + t@);
            assert(t@ =~= s@.drop_first());
        }
        Some(t)
    } else {
        proof {
            if bytes@.len() > 0 {
                lemma_head_not_ascii(bytes@, c);
                lemma_scalar_char(bytes@);
                assert((c as char) as u32 == c as u32);
            } else {
                assert(s@.len() == 0);
            }
        }
        None
    }
}

/// Whether two strings hold the same characters.
pub fn str_eq(a: &str, b: &str) -> (r: bool)
    ensures
        r == (a@ == b@),
{
    let x = a.as_bytes();
    let y = b.as_bytes();
    proof {
        lemma_str_bytes(a);
        lemma_str_bytes(b);
    }
    if x.len() != y.len() {
        return false;
    }
    let n = x.len();
    let mut i: usize = 0;
    while i < n
        invariant
            i <= n,
            n == x@.len(),
            n == y@.len(),
            x@ == a.spec_bytes(),
            y@ == b.spec_bytes(),
            forall|j: int| 0 <= j < i ==> x@[j] == y@[j],
        decreases n - i,
    {
        if x[i] != y[i] {
            return false;
        }
        i += 1;
    }
    proof {
        assert(x@ =~= y@);
    }
    true
}

/// Characters that end in the ASCII character `b` encode to bytes that end
/// in the byte `b`.
proof fn lemma_encode_ascii_last(chars: Seq<char>, b: u8)
    requires
        chars.len() > 0,
        chars.last() == b as char,
        b < 0x80,
    ensures
        encode_utf8(chars).len() > 0,
        encode_utf8(chars).last() == b,
    decreases chars.len(),
{
    let rest = chars.drop_first();
    if rest.len() == 0 {
        let v = chars[0] as u32;
        assert(v == b as u32);
        assert((v & 0x7f) as u8 == b) by (bit_vector)
            requires
                v == b as u32,
                b < 0x80,
        ;
        assert(encode_utf8(rest) =~= Seq::<u8>::empty());
        assert(encode_utf8(chars) =~= seq![b]);
    } else {
        assert(rest.last() == chars.last());
        lemma_encode_ascii_last(rest, b);
    }
}

/// Removes a trailing ASCII character `c` from `s`. `None` when `s` does not
/// end with it.
pub fn strip_suffix<'a>(s: &'a str, last: char) -> (r: Option<&'a str>)
    requires
        is_ascii_char(last),
    ensures
        r is Some <==> s@.len() > 0 && s@.last() == last,
        r matches Some(t) ==> t@ == s@.drop_last(),
{
    let c = last as u8;
    let bytes = s.as_bytes();
    let n = bytes.len();
    proof {
        lemma_str_bytes(s);
    }
    if n > 0 && bytes[n - 1] == c {
        proof {
            is_char_boundary_iff_not_is_continuation_byte(bytes@, n - 1);
        }
        let (t, end) = s.split_at(n - 1);
        proof {
            lemma_str_bytes(t);
            lemma_str_bytes(end);
            decode_utf8_split(bytes@, n - 1);
            lemma_decode_ascii_head(end.spec_bytes(), c);
            assert(end.spec_bytes().subrange(1, 1) =~= Seq::<u8>::empty());
            assert(end@ =~= seq![c as char]);
            assert(s@ == t@ + end@);
            assert(t@ =~= s@.drop_last());
        }
        Some(t)
    } else {
        proof {
            if s@.len() > 0 && s@.last() == c as char {
                lemma_encode_ascii_last(s@, c);
            }
        }
        None
    }
}

/// Takes the first character off `s` if it is an ASCII character.
pub fn split_first_ascii<'a>(s: &'a str) -> (r: Option<(u8, &'a str)>)
    ensures
        r is Some <==> s@.len() > 0 && is_ascii_char(s@[0]),
        r matches Some((first, rest)) ==> first < 0x80 && s@[0] == first as char && rest@
            == s@.drop_first(),
{
    let bytes = s.as_bytes();
    proof {
        lemma_str_bytes(s);
    }
    if bytes.len() == 0 {
        return None;
    }
    let first = bytes[0];
    if first < 0x80 {
        proof {
            lemma_decode_ascii_head(bytes@, first);
        }
        let (_, rest) = s.split_at(1);
        proof {
            lemma_str_bytes(rest);
            assert(s@ == seq![first as char] + rest@);
            assert(rest@ =~= s@.drop_first());
            assert((first as char) as u32 == first as u32);
        }
        Some((first, rest))
    } else {
        proof {
            lemma_scalar_char(bytes@);
            assert(decode_first_scalar(bytes@) >= 0x80);
        }
        None
    }
}

} // verus!
