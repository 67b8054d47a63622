use vstd::prelude::*;

verus! {

/// The eight bytes of `x` in big-endian order, most significant first.
pub open spec fn be_u64_bytes(x: u64) -> Seq<u8> {
    seq![
        (x >> 56u64) as u8,
        (x >> 48u64) as u8,
        (x >> 40u64) as u8,
        (x >> 32u64) as u8,
        (x >> 24u64) as u8,
        (x >> 16u64) as u8,
        (x >> 8u64) as u8,
        x as u8,
    ]
}

/// The `u64` whose big-endian bytes are the first eight of `s`.
pub open spec fn be_u64_value(s: Seq<u8>) -> u64
    recommends
        s.len() >= 8,
{
    ((s[0] as u64) << 56u64) | ((s[1] as u64) << 48u64) | ((s[2] as u64) << 40u64) | ((
    s[3] as u64) << 32u64) | ((s[4] as u64) << 24u64) | ((s[5] as u64) << 16u64) | ((
    s[6] as u64) << 8u64) | (s[7] as u64)
}

/// The `u32` whose big-endian bytes are the first four of `s`.
pub open spec fn be_u32_value(s: Seq<u8>) -> u32
    recommends
        s.len() >= 4,
{
    ((s[0] as u32) << 24u32) | ((s[1] as u32) << 16u32) | ((s[2] as u32) << 8u32) | (s[3] as u32)
}

/// The two's complement `i32` whose big-endian bytes are the first four of `s`.
pub open spec fn be_i32_value(s: Seq<u8>) -> i32
    recommends
        s.len() >= 4,
{
    be_u32_value(s) as i32
}

/// Decoding the big-endian bytes of `x` gives back `x`, whatever follows them.
pub proof fn lemma_be_u64_roundtrip(x: u64, rest: Seq<u8>)
    ensures
        be_u64_bytes(x).len() == 8,
        be_u64_value(be_u64_bytes(x) + rest) == x,
{
    let s = be_u64_bytes(x) + rest;
    assert(s[0] == (x >> 56u64) as u8);
    assert(s[1] == (x >> 48u64) as u8);
    assert(s[2] == (x >> 40u64) as u8);
    assert(s[3] == (x >> 32u64) as u8);
    assert(s[4] == (x >> 24u64) as u8);
    assert(s[5] == (x >> 16u64) as u8);
    assert(s[6] == (x >> 8u64) as u8);
    assert(s[7] == x as u8);
    assert(((((x >> 56u64) as u8) as u64) << 56u64) | ((((x >> 48u64) as u8) as u64) << 48u64)
        | ((((x >> 40u64) as u8) as u64) << 40u64) | ((((x >> 32u64) as u8) as u64) << 32u64) | ((((
    x >> 24u64) as u8) as u64) << 24u64) | ((((x >> 16u64) as u8) as u64) << 16u64) | ((((x
        >> 8u64) as u8) as u64) << 8u64) | ((x as u8) as u64) == x) by (bit_vector);
}

/// The value of a big-endian prefix depends on those eight bytes alone.
pub proof fn lemma_be_u64_prefix(s: Seq<u8>, t: Seq<u8>)
    requires
        s.len() >= 8,
        t.len() >= 8,
        s.take(8) == t.take(8),
    ensures
        be_u64_value(s) == be_u64_value(t),
{
    assert(s[0] == s.take(8)[0] && s[1] == s.take(8)[1] && s[2] == s.take(8)[2] && s[3] == s.take(
        8,
    )[3]);
    assert(s[4] == s.take(8)[4] && s[5] == s.take(8)[5] && s[6] == s.take(8)[6] && s[7] == s.take(
        8,
    )[7]);
    assert(t[0] == t.take(8)[0] && t[1] == t.take(8)[1] && t[2] == t.take(8)[2] && t[3] == t.take(
        8,
    )[3]);
    assert(t[4] == t.take(8)[4] && t[5] == t.take(8)[5] && t[6] == t.take(8)[6] && t[7] == t.take(
        8,
    )[7]);
}

/// The number that the eight bytes `s[at..at + 8]` spell in base 256, most significant first.
pub open spec fn be_digits(s: Seq<u8>, at: int) -> int {
    s[at] * 0x100000000000000 + s[at + 1] * 0x1000000000000 + s[at + 2] * 0x10000000000 + s[at
        + 3] * 0x100000000 + s[at + 4] * 0x1000000 + s[at + 5] * 0x10000 + s[at + 6] * 0x100 + s[at
        + 7]
}

/// The big-endian bytes of `x` are its base-256 digits, most significant first.
pub proof fn lemma_be_u64_bytes_digits(x: u64)
    ensures
        be_u64_bytes(x).len() == 8,
        be_digits(be_u64_bytes(x), 0) == x,
{
    let s = be_u64_bytes(x);
    assert(((x >> 56u64) as u8) as u64 * 0x100000000000000u64 + ((x >> 48u64) as u8) as u64
        * 0x1000000000000u64 + ((x >> 40u64) as u8) as u64 * 0x10000000000u64 + ((x >> 32u64)
        as u8) as u64 * 0x100000000u64 + ((x >> 24u64) as u8) as u64 * 0x1000000u64 + ((x
        >> 16u64) as u8) as u64 * 0x10000u64 + ((x >> 8u64) as u8) as u64 * 0x100u64 + (
    x as u8) as u64 == x) by (bit_vector);
}

/// The digits of three `u64`s written one after another stand at offsets 0, 8 and 16.
pub proof fn lemma_three_be_u64_digits(a: u64, b: u64, c: u64)
    ensures
        (be_u64_bytes(a) + be_u64_bytes(b) + be_u64_bytes(c)).len() == 24,
        be_digits(be_u64_bytes(a) + be_u64_bytes(b) + be_u64_bytes(c), 0) == a,
        be_digits(be_u64_bytes(a) + be_u64_bytes(b) + be_u64_bytes(c), 8) == b,
        be_digits(be_u64_bytes(a) + be_u64_bytes(b) + be_u64_bytes(c), 16) == c,
{
    let s = be_u64_bytes(a) + be_u64_bytes(b) + be_u64_bytes(c);
    lemma_be_u64_bytes_digits(a);
    lemma_be_u64_bytes_digits(b);
    lemma_be_u64_bytes_digits(c);
    let sa = be_u64_bytes(a);
    let sb = be_u64_bytes(b);
    let sc = be_u64_bytes(c);
    assert(s[8] == sb[0] && s[9] == sb[1] && s[10] == sb[2] && s[11] == sb[3] && s[12] == sb[4]
        && s[13] == sb[5] && s[14] == sb[6] && s[15] == sb[7]);
    assert(s[16] == sc[0] && s[17] == sc[1] && s[18] == sc[2] && s[19] == sc[3] && s[20] == sc[4]
        && s[21] == sc[5] && s[22] == sc[6] && s[23] == sc[7]);
    assert(s[0] == sa[0] && s[1] == sa[1] && s[2] == sa[2] && s[3] == sa[3] && s[4] == sa[4]
        && s[5] == sa[5] && s[6] == sa[6] && s[7] == sa[7]);
}

/// Appends the big-endian bytes of `x` to `out`.
pub fn push_be_u64(out: &mut Vec<u8>, x: u64)
    ensures
        final(out)@ == old(out)@ + be_u64_bytes(x),
{
    out.push((x >> 56u64) as u8);
    out.push((x >> 48u64) as u8);
    out.push((x >> 40u64) as u8);
    out.push((x >> 32u64) as u8);
    out.push((x >> 24u64) as u8);
    out.push((x >> 16u64) as u8);
    out.push((x >> 8u64) as u8);
    out.push(x as u8);
    assert(out@ == old(out)@ + be_u64_bytes(x));
}

/// The `u64` whose big-endian bytes are `s[at..at + 8]`.
pub fn read_be_u64(s: &[u8], at: usize) -> (x: u64)
    requires
        at + 8 <= s@.len(),
    ensures
        x == be_u64_value(s@.skip(at as int)),
{
    ((s[at] as u64) << 56u64) | ((s[at + 1] as u64) << 48u64) | ((s[at + 2] as u64) << 40u64) | ((
    s[at + 3] as u64) << 32u64) | ((s[at + 4] as u64) << 24u64) | ((s[at + 5] as u64) << 16u64)
        | ((s[at + 6] as u64) << 8u64) | (s[at + 7] as u64)
}

} // verus!
