//! Big-endian fields inside fixed-size packet buffers, and the 24-bit
//! samples that both protocols carry.
use vstd::prelude::*;

verus! {

/// `n` zero bytes.
pub open spec fn zeros(n: nat) -> Seq<u8> {
    Seq::new(n, |i: int| 0u8)
}

/// `base` with `part` written over it from byte `at` on.
pub open spec fn overlay(base: Seq<u8>, at: int, part: Seq<u8>) -> Seq<u8> {
    Seq::new(
        base.len(),
        |i: int| if at <= i < at + part.len() { part[i - at] } else { base[i] },
    )
}

/// The two bytes of `x`, most significant first.
pub open spec fn be16(x: u16) -> Seq<u8> {
    seq![(x / 256) as u8, (x % 256) as u8]
}

/// The four bytes of `x`, most significant first.
pub open spec fn be32(x: u32) -> Seq<u8> {
    seq![
        (x / 0x100_0000) as u8,
        ((x / 0x1_0000) % 256) as u8,
        ((x / 256) % 256) as u8,
        (x % 256) as u8,
    ]
}

/// The 16 bits that stand for the signed value `x` on the wire.
pub open spec fn wire16(x: i16) -> u16 {
    if x < 0 {
        (x + 0x1_0000) as u16
    } else {
        x as u16
    }
}

/// The signed value that the 16 bits `x` stand for.
pub open spec fn value16(x: u16) -> i16 {
    if x >= 0x8000 {
        (x - 0x1_0000) as i16
    } else {
        x as i16
    }
}

/// The two bytes of the signed value `x`, most significant first.
pub open spec fn be16_signed(x: i16) -> Seq<u8> {
    be16(wire16(x))
}

/// The signed 24-bit value held by three big-endian bytes.
pub open spec fn value24(b0: u8, b1: u8, b2: u8) -> int {
    let raw = b0 * 0x1_0000 + b1 * 0x100 + b2;
    if raw >= 0x80_0000 {
        raw - 0x100_0000
    } else {
        raw
    }
}

/// The three big-endian bytes of the low 24 bits of `v`.
pub open spec fn be24(v: int) -> Seq<u8> {
    let raw = v % 0x100_0000;
    seq![(raw / 0x1_0000) as u8, ((raw / 256) % 256) as u8, (raw % 256) as u8]
}

/// Most significant byte of `x`.
pub fn high_byte(x: u16) -> (b: u8)
    ensures
        b == be16(x)[0],
{
    (x / 256) as u8
}

/// Least significant byte of `x`.
pub fn low_byte(x: u16) -> (b: u8)
    ensures
        b == be16(x)[1],
{
    (x % 256) as u8
}

/// The four bytes of `x`, most significant first.
pub fn be32_bytes(x: u32) -> (b: [u8; 4])
    ensures
        b@ == be32(x),
{
    [
        (x / 0x100_0000) as u8,
        ((x / 0x1_0000) % 256) as u8,
        ((x / 256) % 256) as u8,
        (x % 256) as u8,
    ]
}

/// The unsigned 16-bit value of two big-endian bytes.
pub fn u16_of(b0: u8, b1: u8) -> (x: u16)
    ensures
        x == b0 * 256 + b1,
        be16(x) == seq![b0, b1],
{
    let x: u16 = b0 as u16 * 256 + b1 as u16;
    assert(be16(x) =~= seq![b0, b1]);
    x
}

/// The bits of a signed 16-bit sample.
pub fn i16_bits(x: i16) -> (u: u16)
    ensures
        u == wire16(x),
{
    if x < 0 {
        (x as i32 + 0x1_0000) as u16
    } else {
        x as u16
    }
}

/// The signed value of 16 bits.
pub fn i16_of(x: u16) -> (v: i16)
    ensures
        v == value16(x),
{
    if x >= 0x8000 {
        (x as i32 - 0x1_0000) as i16
    } else {
        x as i16
    }
}

/// Sign-extends a 24-bit big-endian sample.
pub fn sign_extend_24(b0: u8, b1: u8, b2: u8) -> (v: i32)
    ensures
        v == value24(b0, b1, b2),
        -0x80_0000 <= v < 0x80_0000,
{
    let raw: i32 = b0 as i32 * 0x1_0000 + b1 as i32 * 0x100 + b2 as i32;
    if raw >= 0x80_0000 {
        raw - 0x100_0000
    } else {
        raw
    }
}

/// Packs the low 24 bits of a sample into three big-endian bytes.
pub fn pack_24(v: i32) -> (b: [u8; 3])
    ensures
        b@ == be24(v as int),
{
    let shifted: u64 = (v as i64 + 0x8000_0000) as u64;
    let raw: u32 = (shifted % 0x100_0000) as u32;
    assert(raw as int == v as int % 0x100_0000);
    [(raw / 0x1_0000) as u8, ((raw / 256) % 256) as u8, (raw % 256) as u8]
}

/// Writes `x` big-endian at byte `at`.
pub fn put_be32<const N: usize>(buf: &mut [u8; N], at: usize, x: u32)
    requires
        at + 4 <= N,
    ensures
        final(buf)@ == overlay(old(buf)@, at as int, be32(x)),
{
    let b: [u8; 4] = be32_bytes(x);
    buf[at] = b[0];
    buf[at + 1] = b[1];
    buf[at + 2] = b[2];
    buf[at + 3] = b[3];
    assert(buf@ =~= overlay(old(buf)@, at as int, be32(x)));
}

/// Writes `x` big-endian at byte `at`.
pub fn put_be16<const N: usize>(buf: &mut [u8; N], at: usize, x: u16)
    requires
        at + 2 <= N,
    ensures
        final(buf)@ == overlay(old(buf)@, at as int, be16(x)),
{
    buf[at] = high_byte(x);
    buf[at + 1] = low_byte(x);
    assert(buf@ =~= overlay(old(buf)@, at as int, be16(x)));
}

/// Copies `part` over the bytes from `at` on.
pub fn put_bytes<const N: usize>(buf: &mut [u8; N], at: usize, part: &[u8])
    requires
        at + part@.len() <= N,
    ensures
        final(buf)@ == overlay(old(buf)@, at as int, part@),
{
    let n: usize = part.len();
    for i in 0..n
        invariant
            n == part@.len(),
            at + n <= N,
            buf@ == overlay(old(buf)@, at as int, part@.take(i as int)),
    {
        buf[at + i] = part[i];
        assert(buf@ =~= overlay(old(buf)@, at as int, part@.take(i + 1)));
    }
    assert(part@.take(n as int) =~= part@);
}

/// A packed 24-bit sample reads back as itself.
pub proof fn law_pack_24_round_trip(v: int)
    requires
        -0x80_0000 <= v < 0x80_0000,
    ensures
        value24(be24(v)[0], be24(v)[1], be24(v)[2]) == v,
{
    let raw = v % 0x100_0000;
    assert(raw == if v < 0 { v + 0x100_0000 } else { v });
}

/// Three digits of base 256 can be read off their number again.
proof fn lemma_base256_digits(a: int, b: int, c: int)
    requires
        0 <= a < 256,
        0 <= b < 256,
        0 <= c < 256,
    ensures
        (a * 0x1_0000 + b * 0x100 + c) / 0x1_0000 == a,
        ((a * 0x1_0000 + b * 0x100 + c) / 256) % 256 == b,
        (a * 0x1_0000 + b * 0x100 + c) % 256 == c,
{
    let n = a * 0x1_0000 + b * 0x100 + c;
    assert(n / 256 == a * 256 + b);
    assert(n % 256 == c);
    assert(n / 0x1_0000 == a);
}

/// Any three bytes are the packing of the value they hold.
pub proof fn law_unpack_24_round_trip(b0: u8, b1: u8, b2: u8)
    ensures
        be24(value24(b0, b1, b2)) == seq![b0, b1, b2],
{
    let raw = b0 * 0x1_0000 + b1 * 0x100 + b2;
    lemma_base256_digits(b0 as int, b1 as int, b2 as int);
    assert(0 <= raw < 0x100_0000);
    assert(value24(b0, b1, b2) % 0x100_0000 == raw) by {
        if raw >= 0x80_0000 {
            vstd::arithmetic::div_mod::lemma_mod_add_multiples_vanish(
                raw - 0x100_0000,
                0x100_0000,
            );
        }
    }
    assert(be24(value24(b0, b1, b2)) =~= seq![b0, b1, b2]);
}

/// A 16-bit sample's bits stand for that sample.
pub proof fn law_wire16_round_trip(x: i16)
    ensures
        value16(wire16(x)) == x,
{
}

/// The three bytes of `s` from `at` on hold the signed number `v`, most
/// significant byte first.
pub open spec fn holds_24(s: Seq<u8>, at: int, v: int) -> bool {
    &&& -0x80_0000 <= v < 0x80_0000
    &&& s[at] * 0x1_0000 + s[at + 1] * 0x100 + s[at + 2] == (if v < 0 {
        v + 0x100_0000
    } else {
        v
    })
}

/// The two bytes of `s` from `at` on hold the signed number `v`, most
/// significant byte first.
pub open spec fn holds_16(s: Seq<u8>, at: int, v: int) -> bool {
    &&& -0x8000 <= v < 0x8000
    &&& s[at] * 0x100 + s[at + 1] == (if v < 0 {
        v + 0x1_0000
    } else {
        v
    })
}

/// Bytes are read as the number that they hold.
pub proof fn law_bytes_read_as_held(s: Seq<u8>, at: int, v: int)
    ensures
        holds_24(s, at, v) ==> value24(s[at], s[at + 1], s[at + 2]) == v,
        holds_16(s, at, v) ==> value16((s[at] * 256 + s[at + 1]) as u16) == v,
{
}

/// Numbers are written as the bytes that hold them.
pub proof fn law_bytes_hold_what_was_written(v: int, w: i16, x: u16, y: u32)
    requires
        -0x80_0000 <= v < 0x80_0000,
    ensures
        be24(v).len() == 3,
        holds_24(be24(v), 0, v),
        be16_signed(w).len() == 2,
        holds_16(be16_signed(w), 0, w as int),
        be16(x).len() == 2,
        be16(x)[0] * 0x100 + be16(x)[1] == x,
        be32(y).len() == 4,
        be32(y)[0] * 0x100_0000 + be32(y)[1] * 0x1_0000 + be32(y)[2] * 0x100 + be32(y)[3] == y,
{
    let raw = v % 0x100_0000;
    assert(raw == if v < 0 { v + 0x100_0000 } else { v });
}

/// What was written over a buffer stands where it was written, and every
/// other byte is as it was.
pub proof fn law_overlay(base: Seq<u8>, at: int, part: Seq<u8>, i: int)
    requires
        0 <= at,
        at + part.len() <= base.len(),
    ensures
        overlay(base, at, part).len() == base.len(),
        0 <= i < part.len() ==> overlay(base, at, part)[at + i] == part[i],
        0 <= i < base.len() && (i < at || i >= at + part.len()) ==> overlay(base, at, part)[i]
            == base[i],
{
}

/// Zero bytes are zero.
pub proof fn law_zeros(n: nat, i: int)
    ensures
        zeros(n).len() == n,
        0 <= i < n ==> zeros(n)[i] == 0,
{
}

} // verus!
