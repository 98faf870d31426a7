//! Byte-level building blocks of the persisted record layout.
//!
//! Integers are stored little-endian, identities as their four words in
//! order, flags as one byte holding zero or one, timestamps as their
//! two's-complement image, and text as a 4-byte length prefix followed by
//! its UTF-8 bytes.  Each encoding comes with its reading counterpart and a
//! proof that the two are exact inverses.

use vstd::prelude::*;
use vstd::slice::slice_subrange;
use vstd::string::StringSliceAdditionalSpecFns;
use vstd::utf8::{decode_utf8, encode_utf8, valid_utf8};

use crate::pubkey::Pubkey;

verus! {

/// The little-endian bytes of a 64-bit integer.
pub open spec fn u64_le(x: u64) -> Seq<u8> {
    seq![
        (x & 0xff) as u8,
        ((x >> 8) & 0xff) as u8,
        ((x >> 16) & 0xff) as u8,
        ((x >> 24) & 0xff) as u8,
        ((x >> 32) & 0xff) as u8,
        ((x >> 40) & 0xff) as u8,
        ((x >> 48) & 0xff) as u8,
        ((x >> 56) & 0xff) as u8,
    ]
}

/// The 64-bit integer eight little-endian bytes hold.
pub open spec fn u64_of_le(b: Seq<u8>) -> u64
    recommends
        b.len() == 8,
{
    ((b[0] as u64) | ((b[1] as u64) << 8) | ((b[2] as u64) << 16) | ((b[3] as u64) << 24) | (
    (b[4] as u64) << 32) | ((b[5] as u64) << 40) | ((b[6] as u64) << 48) | ((b[7] as u64) << 56))
}

/// Reading back the bytes of an integer yields the integer.
pub proof fn lemma_u64_le_inverse(x: u64)
    ensures
        u64_le(x).len() == 8,
        u64_of_le(u64_le(x)) == x,
{
    let c0 = (x & 0xff) as u8;
    let c1 = ((x >> 8) & 0xff) as u8;
    let c2 = ((x >> 16) & 0xff) as u8;
    let c3 = ((x >> 24) & 0xff) as u8;
    let c4 = ((x >> 32) & 0xff) as u8;
    let c5 = ((x >> 40) & 0xff) as u8;
    let c6 = ((x >> 48) & 0xff) as u8;
    let c7 = ((x >> 56) & 0xff) as u8;
    assert((c0 as u64) | ((c1 as u64) << 8) | ((c2 as u64) << 16) | ((c3 as u64) << 24) | ((
    c4 as u64) << 32) | ((c5 as u64) << 40) | ((c6 as u64) << 48) | ((c7 as u64) << 56) == x)
        by (bit_vector)
        requires
            c0 == (x & 0xff) as u8,
            c1 == ((x >> 8) & 0xff) as u8,
            c2 == ((x >> 16) & 0xff) as u8,
            c3 == ((x >> 24) & 0xff) as u8,
            c4 == ((x >> 32) & 0xff) as u8,
            c5 == ((x >> 40) & 0xff) as u8,
            c6 == ((x >> 48) & 0xff) as u8,
            c7 == ((x >> 56) & 0xff) as u8,
    ;
}

/// Re-encoding the integer eight bytes hold yields the same bytes.
pub proof fn lemma_u64_of_le_inverse(b: Seq<u8>)
    requires
        b.len() == 8,
    ensures
        u64_le(u64_of_le(b)) =~= b,
{
    let b0 = b[0];
    let b1 = b[1];
    let b2 = b[2];
    let b3 = b[3];
    let b4 = b[4];
    let b5 = b[5];
    let b6 = b[6];
    let b7 = b[7];
    let x = ((b0 as u64) | ((b1 as u64) << 8) | ((b2 as u64) << 16) | ((b3 as u64) << 24) | ((
    b4 as u64) << 32) | ((b5 as u64) << 40) | ((b6 as u64) << 48) | ((b7 as u64) << 56));
    assert((x & 0xff) as u8 == b0 && ((x >> 8) & 0xff) as u8 == b1 && ((x >> 16) & 0xff) as u8
        == b2 && ((x >> 24) & 0xff) as u8 == b3 && ((x >> 32) & 0xff) as u8 == b4 && ((x >> 40)
        & 0xff) as u8 == b5 && ((x >> 48) & 0xff) as u8 == b6 && ((x >> 56) & 0xff) as u8 == b7)
        by (bit_vector)
        requires
            x == (b0 as u64) | ((b1 as u64) << 8) | ((b2 as u64) << 16) | ((b3 as u64) << 24) | ((
            b4 as u64) << 32) | ((b5 as u64) << 40) | ((b6 as u64) << 48) | ((b7 as u64) << 56),
    ;
    assert(u64_le(u64_of_le(b)) =~= b);
}

/// The little-endian bytes of a 32-bit integer.
pub open spec fn u32_le(x: u32) -> Seq<u8> {
    seq![
        (x & 0xff) as u8,
        ((x >> 8) & 0xff) as u8,
        ((x >> 16) & 0xff) as u8,
        ((x >> 24) & 0xff) as u8,
    ]
}

/// The 32-bit integer four little-endian bytes hold.
pub open spec fn u32_of_le(b: Seq<u8>) -> u32
    recommends
        b.len() == 4,
{
    ((b[0] as u32) | ((b[1] as u32) << 8) | ((b[2] as u32) << 16) | ((b[3] as u32) << 24))
}

/// Reading back the bytes of an integer yields the integer.
pub proof fn lemma_u32_le_inverse(x: u32)
    ensures
        u32_le(x).len() == 4,
        u32_of_le(u32_le(x)) == x,
{
    let c0 = (x & 0xff) as u8;
    let c1 = ((x >> 8) & 0xff) as u8;
    let c2 = ((x >> 16) & 0xff) as u8;
    let c3 = ((x >> 24) & 0xff) as u8;
    assert((c0 as u32) | ((c1 as u32) << 8) | ((c2 as u32) << 16) | ((c3 as u32) << 24) == x)
        by (bit_vector)
        requires
            c0 == (x & 0xff) as u8,
            c1 == ((x >> 8) & 0xff) as u8,
            c2 == ((x >> 16) & 0xff) as u8,
            c3 == ((x >> 24) & 0xff) as u8,
    ;
}

/// Re-encoding the integer four bytes hold yields the same bytes.
pub proof fn lemma_u32_of_le_inverse(b: Seq<u8>)
    requires
        b.len() == 4,
    ensures
        u32_le(u32_of_le(b)) =~= b,
{
    let b0 = b[0];
    let b1 = b[1];
    let b2 = b[2];
    let b3 = b[3];
    let x = ((b0 as u32) | ((b1 as u32) << 8) | ((b2 as u32) << 16) | ((b3 as u32) << 24));
    assert((x & 0xff) as u8 == b0 && ((x >> 8) & 0xff) as u8 == b1 && ((x >> 16) & 0xff) as u8
        == b2 && ((x >> 24) & 0xff) as u8 == b3)
        by (bit_vector)
        requires
            x == (b0 as u32) | ((b1 as u32) << 8) | ((b2 as u32) << 16) | ((b3 as u32) << 24),
    ;
    assert(u32_le(u32_of_le(b)) =~= b);
}

/// The two's-complement image of a signed timestamp.
pub open spec fn i64_as_u64(x: i64) -> u64 {
    if x >= 0 {
        x as u64
    } else {
        (x + 0x10000000000000000) as u64
    }
}

/// The signed timestamp a two's-complement image holds.
pub open spec fn u64_as_i64(u: u64) -> i64 {
    if u < 0x8000000000000000 {
        u as i64
    } else {
        (u - 0x10000000000000000) as i64
    }
}

/// The two's-complement image is exact in both directions.
pub proof fn lemma_i64_u64_inverse(x: i64, u: u64)
    ensures
        u64_as_i64(i64_as_u64(x)) == x,
        i64_as_u64(u64_as_i64(u)) == u,
{
}

/// Converts a timestamp to its two's-complement image.
pub fn i64_to_u64(x: i64) -> (r: u64)
    ensures
        r == i64_as_u64(x),
{
    if x >= 0 {
        x as u64
    } else {
        ((x as i128) + 0x10000000000000000i128) as u64
    }
}

/// Reads a timestamp back from its two's-complement image.
pub fn u64_to_i64(u: u64) -> (r: i64)
    ensures
        r == u64_as_i64(u),
{
    if u < 0x8000000000000000 {
        u as i64
    } else {
        ((u as i128) - 0x10000000000000000i128) as i64
    }
}

/// The 32 bytes of an identity: its four words, each little-endian.
pub open spec fn pubkey_le(p: Pubkey) -> Seq<u8> {
    u64_le(p.w0) + u64_le(p.w1) + u64_le(p.w2) + u64_le(p.w3)
}

/// The identity 32 bytes hold.
pub open spec fn pubkey_of_le(b: Seq<u8>) -> Pubkey
    recommends
        b.len() == 32,
{
    Pubkey {
        w0: u64_of_le(b.subrange(0, 8)),
        w1: u64_of_le(b.subrange(8, 16)),
        w2: u64_of_le(b.subrange(16, 24)),
        w3: u64_of_le(b.subrange(24, 32)),
    }
}

/// Reading back the bytes of an identity yields the identity.
pub proof fn lemma_pubkey_le_inverse(p: Pubkey)
    ensures
        pubkey_le(p).len() == 32,
        pubkey_of_le(pubkey_le(p)) == p,
{
    let b = pubkey_le(p);
    assert(b.subrange(0, 8) =~= u64_le(p.w0));
    assert(b.subrange(8, 16) =~= u64_le(p.w1));
    assert(b.subrange(16, 24) =~= u64_le(p.w2));
    assert(b.subrange(24, 32) =~= u64_le(p.w3));
    lemma_u64_le_inverse(p.w0);
    lemma_u64_le_inverse(p.w1);
    lemma_u64_le_inverse(p.w2);
    lemma_u64_le_inverse(p.w3);
}

/// Re-encoding the identity 32 bytes hold yields the same bytes.
pub proof fn lemma_pubkey_of_le_inverse(b: Seq<u8>)
    requires
        b.len() == 32,
    ensures
        pubkey_le(pubkey_of_le(b)) =~= b,
{
    lemma_u64_of_le_inverse(b.subrange(0, 8));
    lemma_u64_of_le_inverse(b.subrange(8, 16));
    lemma_u64_of_le_inverse(b.subrange(16, 24));
    lemma_u64_of_le_inverse(b.subrange(24, 32));
    assert(pubkey_le(pubkey_of_le(b)) =~= b);
}

/// The byte a flag is stored as.
pub open spec fn bool_byte(v: bool) -> u8 {
    if v {
        1
    } else {
        0
    }
}

/// A text field on the wire: a 4-byte length prefix counting the UTF-8
/// bytes, then the UTF-8 bytes themselves.
pub open spec fn str_field(chars: Seq<char>) -> Seq<u8>
    recommends
        encode_utf8(chars).len() < 0x100000000,
{
    u32_le(encode_utf8(chars).len() as u32) + encode_utf8(chars)
}

/// A UTF-8 encoding is never longer than four bytes per character.
pub proof fn lemma_encode_utf8_len(chars: Seq<char>)
    ensures
        encode_utf8(chars).len() <= 4 * chars.len(),
    decreases chars.len(),
{
    if chars.len() > 0 {
        lemma_encode_utf8_len(chars.drop_first());
    }
}

/// Appends the little-endian bytes of a 64-bit integer.
pub fn push_u64_le(out: &mut Vec<u8>, x: u64)
    ensures
        final(out)@ =~= old(out)@ + u64_le(x),
{
    out.push((x & 0xff) as u8);
    out.push(((x >> 8) & 0xff) as u8);
    out.push(((x >> 16) & 0xff) as u8);
    out.push(((x >> 24) & 0xff) as u8);
    out.push(((x >> 32) & 0xff) as u8);
    out.push(((x >> 40) & 0xff) as u8);
    out.push(((x >> 48) & 0xff) as u8);
    out.push(((x >> 56) & 0xff) as u8);
}

/// Appends the little-endian bytes of a 32-bit integer.
pub fn push_u32_le(out: &mut Vec<u8>, x: u32)
    ensures
        final(out)@ =~= old(out)@ + u32_le(x),
{
    out.push((x & 0xff) as u8);
    out.push(((x >> 8) & 0xff) as u8);
    out.push(((x >> 16) & 0xff) as u8);
    out.push(((x >> 24) & 0xff) as u8);
}

/// Appends the 32 bytes of an identity.
pub fn push_pubkey(out: &mut Vec<u8>, p: Pubkey)
    ensures
        final(out)@ =~= old(out)@ + pubkey_le(p),
{
    push_u64_le(out, p.w0);
    push_u64_le(out, p.w1);
    push_u64_le(out, p.w2);
    push_u64_le(out, p.w3);
}

/// Appends a flag byte.
pub fn push_bool(out: &mut Vec<u8>, v: bool)
    ensures
        final(out)@ =~= old(out)@ + seq![bool_byte(v)],
{
    if v {
        out.push(1);
    } else {
        out.push(0);
    }
}

/// Appends a text field: its length prefix, then its UTF-8 bytes.
pub fn push_str_field(out: &mut Vec<u8>, s: &str)
    requires
        s@.len() <= 0x10000000,
    ensures
        final(out)@ =~= old(out)@ + str_field(s@),
{
    proof {
        lemma_encode_utf8_len(s@);
    }
    let bytes: &[u8] = s.as_bytes();
    push_u32_le(out, bytes.len() as u32);
    out.extend_from_slice(bytes);
}

/// Reads a 64-bit integer stored little-endian at `i`.
pub fn read_u64_le(b: &[u8], i: usize) -> (r: u64)
    requires
        i + 8 <= b@.len(),
    ensures
        r == u64_of_le(b@.subrange(i as int, i as int + 8)),
{
    let r = ((b[i] as u64) | ((b[i + 1] as u64) << 8) | ((b[i + 2] as u64) << 16) | ((b[i
        + 3] as u64) << 24) | ((b[i + 4] as u64) << 32) | ((b[i + 5] as u64) << 40) | ((b[i
        + 6] as u64) << 48) | ((b[i + 7] as u64) << 56));
    proof {
        let s = b@.subrange(i as int, i as int + 8);
        assert(s[0] == b@[i as int] && s[1] == b@[i as int + 1] && s[2] == b@[i as int + 2] && s[3]
            == b@[i as int + 3] && s[4] == b@[i as int + 4] && s[5] == b@[i as int + 5] && s[6]
            == b@[i as int + 6] && s[7] == b@[i as int + 7]);
    }
    r
}

/// Reads a 32-bit integer stored little-endian at `i`.
pub fn read_u32_le(b: &[u8], i: usize) -> (r: u32)
    requires
        i + 4 <= b@.len(),
    ensures
        r == u32_of_le(b@.subrange(i as int, i as int + 4)),
{
    let r = ((b[i] as u32) | ((b[i + 1] as u32) << 8) | ((b[i + 2] as u32) << 16) | ((b[i
        + 3] as u32) << 24));
    proof {
        let s = b@.subrange(i as int, i as int + 4);
        assert(s[0] == b@[i as int] && s[1] == b@[i as int + 1] && s[2] == b@[i as int + 2] && s[3]
            == b@[i as int + 3]);
    }
    r
}

/// Reads an identity stored at `i`.
pub fn read_pubkey(b: &[u8], i: usize) -> (r: Pubkey)
    requires
        i + 32 <= b@.len(),
    ensures
        r == pubkey_of_le(b@.subrange(i as int, i as int + 32)),
{
    let n: usize = b.len();
    assert(i + 32 <= n);
    let w0 = read_u64_le(b, i);
    let w1 = read_u64_le(b, i + 8);
    let w2 = read_u64_le(b, i + 16);
    let w3 = read_u64_le(b, i + 24);
    proof {
        let s = b@.subrange(i as int, i as int + 32);
        assert(s.subrange(0, 8) =~= b@.subrange(i as int, i as int + 8));
        assert(s.subrange(8, 16) =~= b@.subrange(i as int + 8, i as int + 16));
        assert(s.subrange(16, 24) =~= b@.subrange(i as int + 16, i as int + 24));
        assert(s.subrange(24, 32) =~= b@.subrange(i as int + 24, i as int + 32));
    }
    Pubkey { w0, w1, w2, w3 }
}

/// What parsing a text field at `i` yields: the characters and the offset
/// just past the field, or nothing when the prefix overruns the input or
/// the bytes are not UTF-8.
pub open spec fn parse_str_field(b: Seq<u8>, i: int) -> Option<(Seq<char>, int)> {
    if i + 4 > b.len() {
        None
    } else {
        let n = u32_of_le(b.subrange(i, i + 4)) as int;
        if i + 4 + n > b.len() {
            None
        } else if !valid_utf8(b.subrange(i + 4, i + 4 + n)) {
            None
        } else {
            Some((decode_utf8(b.subrange(i + 4, i + 4 + n)), i + 4 + n))
        }
    }
}

/// Parsing a text field that was written by `str_field` yields the original
/// characters and stops exactly past the field.
pub proof fn lemma_parse_str_field_exact(b: Seq<u8>, i: int, chars: Seq<char>)
    requires
        0 <= i,
        encode_utf8(chars).len() < 0x100000000,
        i + 4 + encode_utf8(chars).len() <= b.len(),
        b.subrange(i, i + 4 + encode_utf8(chars).len() as int) =~= str_field(chars),
    ensures
        parse_str_field(b, i) == Some((chars, i + 4 + encode_utf8(chars).len())),
{
    broadcast use vstd::utf8::encode_utf8_valid_utf8;
    broadcast use vstd::utf8::encode_utf8_decode_utf8;

    let n = encode_utf8(chars).len() as int;
    let field = b.subrange(i, i + 4 + n);
    assert(b.subrange(i, i + 4) =~= field.subrange(0, 4));
    assert(field.subrange(0, 4) =~= u32_le(n as u32));
    lemma_u32_le_inverse(n as u32);
    assert(b.subrange(i + 4, i + 4 + n) =~= field.subrange(4, 4 + n));
    assert(field.subrange(4, 4 + n) =~= encode_utf8(chars));
}

/// Splitting a concatenation: the right part sits at the tail, and any
/// range within the left part reads the same through the whole.
pub proof fn lemma_concat_parts<A>(whole: Seq<A>, left: Seq<A>, right: Seq<A>)
    requires
        whole == left + right,
    ensures
        whole.len() == left.len() + right.len(),
        whole.subrange(left.len() as int, whole.len() as int) == right,
        forall|i: int, j: int|
            0 <= i <= j <= left.len() ==> #[trigger] whole.subrange(i, j) == left.subrange(i, j),
{
    assert(whole.subrange(left.len() as int, whole.len() as int) =~= right);
    assert forall|i: int, j: int| 0 <= i <= j <= left.len() implies #[trigger] whole.subrange(i, j)
        == left.subrange(i, j) by {
        assert(whole.subrange(i, j) =~= left.subrange(i, j));
    }
}

/// Assembling a sequence from eleven adjacent pieces of itself.
pub proof fn lemma_assemble_pieces<A>(
    b: Seq<A>,
    s1: Seq<A>,
    s2: Seq<A>,
    s3: Seq<A>,
    s4: Seq<A>,
    s5: Seq<A>,
    s6: Seq<A>,
    s7: Seq<A>,
    s8: Seq<A>,
    s9: Seq<A>,
    s10: Seq<A>,
    s11: Seq<A>,
)
    requires
        s1 == b.subrange(0, s1.len() as int),
        s2 == b.subrange(s1.len() as int, s1.len() as int + s2.len()),
        s3 == b.subrange(s1.len() as int + s2.len(), s1.len() as int + s2.len() + s3.len()),
        s4 == b.subrange(
            s1.len() as int + s2.len() + s3.len(),
            s1.len() as int + s2.len() + s3.len() + s4.len(),
        ),
        s5 == b.subrange(
            s1.len() as int + s2.len() + s3.len() + s4.len(),
            s1.len() as int + s2.len() + s3.len() + s4.len() + s5.len(),
        ),
        s6 == b.subrange(
            s1.len() as int + s2.len() + s3.len() + s4.len() + s5.len(),
            s1.len() as int + s2.len() + s3.len() + s4.len() + s5.len() + s6.len(),
        ),
        s7 == b.subrange(
            s1.len() as int + s2.len() + s3.len() + s4.len() + s5.len() + s6.len(),
            s1.len() as int + s2.len() + s3.len() + s4.len() + s5.len() + s6.len() + s7.len(),
        ),
        s8 == b.subrange(
            s1.len() as int + s2.len() + s3.len() + s4.len() + s5.len() + s6.len() + s7.len(),
            s1.len() as int + s2.len() + s3.len() + s4.len() + s5.len() + s6.len() + s7.len() + s8.len(),
        ),
        s9 == b.subrange(
            s1.len() as int + s2.len() + s3.len() + s4.len() + s5.len() + s6.len() + s7.len() + s8.len(),
            s1.len() as int + s2.len() + s3.len() + s4.len() + s5.len() + s6.len() + s7.len() + s8.len()
                + s9.len(),
        ),
        s10 == b.subrange(
            s1.len() as int + s2.len() + s3.len() + s4.len() + s5.len() + s6.len() + s7.len() + s8.len()
                + s9.len(),
            s1.len() as int + s2.len() + s3.len() + s4.len() + s5.len() + s6.len() + s7.len() + s8.len()
                + s9.len() + s10.len(),
        ),
        s11 == b.subrange(
            s1.len() as int + s2.len() + s3.len() + s4.len() + s5.len() + s6.len() + s7.len() + s8.len()
                + s9.len() + s10.len(),
            s1.len() as int + s2.len() + s3.len() + s4.len() + s5.len() + s6.len() + s7.len() + s8.len()
                + s9.len() + s10.len() + s11.len(),
        ),
        b.len() == s1.len() as int + s2.len() + s3.len() + s4.len() + s5.len() + s6.len() + s7.len()
            + s8.len() + s9.len() + s10.len() + s11.len(),
    ensures
        s1 + s2 + s3 + s4 + s5 + s6 + s7 + s8 + s9 + s10 + s11 == b,
{
    let o1 = s1.len() as int;
    let o2 = o1 + s2.len();
    let o3 = o2 + s3.len();
    let o4 = o3 + s4.len();
    let o5 = o4 + s5.len();
    let o6 = o5 + s6.len();
    let o7 = o6 + s7.len();
    let o8 = o7 + s8.len();
    let o9 = o8 + s9.len();
    let o10 = o9 + s10.len();
    assert(s1 + s2 =~= b.subrange(0, o2));
    assert(s1 + s2 + s3 =~= b.subrange(0, o3));
    assert(s1 + s2 + s3 + s4 =~= b.subrange(0, o4));
    assert(s1 + s2 + s3 + s4 + s5 =~= b.subrange(0, o5));
    assert(s1 + s2 + s3 + s4 + s5 + s6 =~= b.subrange(0, o6));
    assert(s1 + s2 + s3 + s4 + s5 + s6 + s7 =~= b.subrange(0, o7));
    assert(s1 + s2 + s3 + s4 + s5 + s6 + s7 + s8 =~= b.subrange(0, o8));
    assert(s1 + s2 + s3 + s4 + s5 + s6 + s7 + s8 + s9 =~= b.subrange(0, o9));
    assert(s1 + s2 + s3 + s4 + s5 + s6 + s7 + s8 + s9 + s10 =~= b.subrange(0, o10));
    assert(s1 + s2 + s3 + s4 + s5 + s6 + s7 + s8 + s9 + s10 + s11 =~= b);
}

/// A text field parses canonically: re-encoding what was parsed at `i`
/// yields exactly the bytes between `i` and the offset the parse returned.
pub proof fn lemma_str_field_canonical(b: Seq<u8>, i: int)
    requires
        0 <= i,
        parse_str_field(b, i) is Some,
    ensures
        i + 4 <= parse_str_field(b, i).unwrap().1 <= b.len(),
        str_field(parse_str_field(b, i).unwrap().0) == b.subrange(
            i,
            parse_str_field(b, i).unwrap().1,
        ),
{
    let f = parse_str_field(b, i).unwrap();
    let n = u32_of_le(b.subrange(i, i + 4)) as int;
    lemma_u32_of_le_inverse(b.subrange(i, i + 4));
    vstd::utf8::decode_utf8_encode_utf8(b.subrange(i + 4, i + 4 + n));
    assert(str_field(f.0) =~= b.subrange(i, i + 4 + n));
}

/// Relies on `str::from_utf8`, which succeeds exactly on valid UTF-8 and
/// returns a view of the given bytes, and on `str::to_owned`: the returned
/// string's characters are the decoding of the bytes.
#[verifier::external_body]
fn bytes_to_string(b: &[u8]) -> (r: Option<String>)
    ensures
        r is Some <==> valid_utf8(b@),
        r matches Some(s) ==> s@ == decode_utf8(b@),
{
    match core::str::from_utf8(b) {
        Ok(s) => Some(s.to_owned()),
        Err(_) => None,
    }
}

/// Reads a text field at `i`: the string and the offset just past it.
pub fn read_str_field(b: &[u8], i: usize) -> (r: Option<(String, usize)>)
    requires
        b@.len() <= usize::MAX,
    ensures
        match r {
            Some(p) => parse_str_field(b@, i as int) == Some((p.0@, p.1 as int)),
            None => parse_str_field(b@, i as int) is None,
        },
{
    if i > b.len() || b.len() - i < 4 {
        return None;
    }
    let n32 = read_u32_le(b, i);
    if (n32 as u64) > (b.len() - (i + 4)) as u64 {
        return None;
    }
    let n = n32 as usize;
    let bytes = slice_subrange(b, i + 4, i + 4 + n);
    match bytes_to_string(bytes) {
        Some(s) => Some((s, i + 4 + n)),
        None => None,
    }
}

} // verus!
