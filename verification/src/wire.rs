//! Integer encodings of the wire formats: fixed-width little-endian and
//! ULEB128.

use byteorder::{LittleEndian, WriteBytesExt};
use vstd::prelude::*;

verus! {

/// The `n`-byte little-endian encoding of `v`: least significant byte first.
/// Digits of `v` beyond the `n`-th are dropped.
pub open spec fn le_bytes(v: nat, n: nat) -> Seq<u8>
    decreases n,
{
    if n == 0 {
        Seq::empty()
    } else {
        seq![(v % 256) as u8] + le_bytes(v / 256, (n - 1) as nat)
    }
}

/// The number that a little-endian byte string stands for.
pub open spec fn le_value(bytes: Seq<u8>) -> nat
    decreases bytes.len(),
{
    if bytes.len() == 0 {
        0
    } else {
        bytes[0] as nat + 256 * le_value(bytes.skip(1))
    }
}

/// A little-endian encoding has as many bytes as asked for.
pub proof fn lemma_le_bytes_len(v: nat, n: nat)
    ensures
        le_bytes(v, n).len() == n,
    decreases n,
{
    if n > 0 {
        lemma_le_bytes_len(v / 256, (n - 1) as nat);
    }
}

/// Four little-endian bytes hold any `u32`: reading them gives it back.
pub proof fn lemma_u32_le_round_trip(v: u32)
    ensures
        le_value(le_bytes(v as nat, 4)) == v,
{
    let b = le_bytes(v as nat, 4);
    let v0 = v as nat;
    let v1 = v0 / 256;
    let v2 = v1 / 256;
    let v3 = v2 / 256;
    reveal_with_fuel(le_bytes, 5);
    assert(b =~= seq![(v0 % 256) as u8, (v1 % 256) as u8, (v2 % 256) as u8, (v3 % 256) as u8]);
    lemma_le_value_4(b);
}

/// The value of four little-endian bytes, written out.
pub proof fn lemma_le_value_4(b: Seq<u8>)
    requires
        b.len() == 4,
    ensures
        le_value(b) == b[0] as nat + 256 * (b[1] as nat) + 65536 * (b[2] as nat) + 16777216 * (
        b[3] as nat),
{
    let b1 = b.skip(1);
    let b2 = b1.skip(1);
    let b3 = b2.skip(1);
    let b4 = b3.skip(1);
    assert(le_value(b4) == 0);
    assert(le_value(b3) == b[3] as nat + 256 * le_value(b4));
    assert(le_value(b2) == b[2] as nat + 256 * le_value(b3));
    assert(le_value(b1) == b[1] as nat + 256 * le_value(b2));
    assert(le_value(b) == b[0] as nat + 256 * le_value(b1));
}

/// Appends the `n` low bytes of `v`, least significant first.
fn push_le(buf: &mut Vec<u8>, v: u64, n: usize)
    ensures
        final(buf)@ == old(buf)@ + le_bytes(v as nat, n as nat),
{
    let mut rest: u64 = v;
    let mut i: usize = 0;
    while i < n
        invariant
            i <= n,
            buf@ + le_bytes(rest as nat, (n - i) as nat) == old(buf)@ + le_bytes(
                v as nat,
                n as nat,
            ),
        decreases n - i,
    {
        let ghost before = buf@;
        buf.push((rest % 256) as u8);
        proof {
            assert(buf@ + le_bytes((rest / 256) as nat, (n - i - 1) as nat) =~= before + le_bytes(
                rest as nat,
                (n - i) as nat,
            ));
        }
        rest = rest / 256;
        i = i + 1;
    }
    assert(buf@ + le_bytes(rest as nat, 0) =~= buf@);
}

/// Appends `v` as two little-endian bytes.
pub fn push_u16_le(buf: &mut Vec<u8>, v: u16)
    ensures
        final(buf)@ == old(buf)@ + le_bytes(v as nat, 2),
{
    push_le(buf, v as u64, 2);
}

/// Appends `v` as four little-endian bytes.
pub fn push_u32_le(buf: &mut Vec<u8>, v: u32)
    ensures
        final(buf)@ == old(buf)@ + le_bytes(v as nat, 4),
{
    push_le(buf, v as u64, 4);
}

/// Appends `v` as eight little-endian bytes.
pub fn push_u64_le(buf: &mut Vec<u8>, v: u64)
    ensures
        final(buf)@ == old(buf)@ + le_bytes(v as nat, 8),
{
    push_le(buf, v, 8);
}

/// Reads the `u32` that four little-endian bytes at `at` stand for.
pub fn read_u32_le(bytes: &[u8], at: usize) -> (v: u32)
    requires
        at + 4 <= bytes@.len(),
    ensures
        v == le_value(bytes@.subrange(at as int, at + 4)),
{
    proof {
        lemma_le_value_4(bytes@.subrange(at as int, at + 4));
    }
    let b0: u32 = bytes[at] as u32;
    let b1: u32 = bytes[at + 1] as u32;
    let b2: u32 = bytes[at + 2] as u32;
    let b3: u32 = bytes[at + 3] as u32;
    b0 + 256 * b1 + 65536 * b2 + 16777216 * b3
}

/// The number that the four low bytes of `n` stand for: what is left of a
/// length where it is written in four bytes.
pub fn low_u32(n: usize) -> (v: u32)
    ensures
        le_bytes(v as nat, 4) == le_bytes(n as nat, 4),
{
    let m: u64 = n as u64;
    let low: u64 = m % 0x1_0000_0000;
    proof {
        assert(low % 256 == m % 256) by (bit_vector)
            requires
                low == m % 0x1_0000_0000,
        ;
        assert((low / 256) % 256 == (m / 256) % 256) by (bit_vector)
            requires
                low == m % 0x1_0000_0000,
        ;
        assert((low / 256 / 256) % 256 == (m / 256 / 256) % 256) by (bit_vector)
            requires
                low == m % 0x1_0000_0000,
        ;
        assert((low / 256 / 256 / 256) % 256 == (m / 256 / 256 / 256) % 256) by (bit_vector)
            requires
                low == m % 0x1_0000_0000,
        ;
        reveal_with_fuel(le_bytes, 5);
        assert(le_bytes(low as nat, 4) =~= le_bytes(m as nat, 4));
    }
    low as u32
}

/// The 32 bytes of `data` from `at` on, as an array.
pub fn array_32(data: &[u8], at: usize) -> (a: [u8; 32])
    requires
        at + 32 <= data@.len(),
    ensures
        a@ == data@.subrange(at as int, at + 32),
{
    let len = data.len();
    let mut a: [u8; 32] = [0u8; 32];
    let mut k: usize = 0;
    while k < 32
        invariant
            k <= 32,
            len == data@.len(),
            at + 32 <= len,
            forall|j: int| 0 <= j < k ==> a@[j] == data@[at + j],
        decreases 32 - k,
    {
        a[k] = data[at + k];
        k = k + 1;
    }
    assert(a@ =~= data@.subrange(at as int, at + 32));
    a
}

/// The 64 bytes of `data` from `at` on, as an array.
pub fn array_64(data: &[u8], at: usize) -> (a: [u8; 64])
    requires
        at + 64 <= data@.len(),
    ensures
        a@ == data@.subrange(at as int, at + 64),
{
    let len = data.len();
    let mut a: [u8; 64] = [0u8; 64];
    let mut k: usize = 0;
    while k < 64
        invariant
            k <= 64,
            len == data@.len(),
            at + 64 <= len,
            forall|j: int| 0 <= j < k ==> a@[j] == data@[at + j],
        decreases 64 - k,
    {
        a[k] = data[at + k];
        k = k + 1;
    }
    assert(a@ =~= data@.subrange(at as int, at + 64));
    a
}

/// `byteorder`'s `WriteBytesExt::write_u32` with `LittleEndian`, on a
/// vector: it appends the four bytes of `n`, least significant first.
/// Writing to a vector does not fail.
#[verifier::external_body]
pub(crate) fn write_u32_le(buf: &mut Vec<u8>, n: u32)
    ensures
        final(buf)@ == old(buf)@ + le_bytes(n as nat, 4),
{
    buf.write_u32::<LittleEndian>(n).unwrap();
}

/// `byteorder`'s `WriteBytesExt::write_u64` with `LittleEndian`, on a
/// vector: it appends the eight bytes of `n`, least significant first.
/// Writing to a vector does not fail.
#[verifier::external_body]
pub(crate) fn write_u64_le(buf: &mut Vec<u8>, n: u64)
    ensures
        final(buf)@ == old(buf)@ + le_bytes(n as nat, 8),
{
    buf.write_u64::<LittleEndian>(n).unwrap();
}

/// The ULEB128 encoding of `v`: seven bits per byte, least significant
/// group first, the high bit set on every byte but the last.
pub open spec fn uleb128(v: nat) -> Seq<u8>
    decreases v,
{
    if v < 128 {
        seq![v as u8]
    } else {
        seq![(v % 128 + 128) as u8] + uleb128(v / 128)
    }
}

/// Reads one ULEB128 number from the front of `bytes`: the number and what
/// follows it, or nothing where the bytes end inside a number.
pub open spec fn uleb128_decode(bytes: Seq<u8>) -> Option<(nat, Seq<u8>)>
    decreases bytes.len(),
{
    if bytes.len() == 0 {
        None
    } else if bytes[0] < 128 {
        Some((bytes[0] as nat, bytes.skip(1)))
    } else {
        match uleb128_decode(bytes.skip(1)) {
            Some((high, rest)) => Some(((bytes[0] - 128) as nat + 128 * high, rest)),
            None => None,
        }
    }
}

/// Decoding reads back what was encoded and stops where the encoding ends,
/// whatever follows it.
pub proof fn lemma_uleb128_round_trip(v: nat, rest: Seq<u8>)
    ensures
        uleb128_decode(uleb128(v) + rest) == Some((v, rest)),
    decreases v,
{
    let bytes = uleb128(v) + rest;
    if v < 128 {
        assert(bytes[0] == v as u8);
        assert(bytes.skip(1) =~= rest);
    } else {
        lemma_uleb128_round_trip(v / 128, rest);
        assert(bytes[0] == (v % 128 + 128) as u8);
        assert(bytes.skip(1) =~= uleb128(v / 128) + rest);
    }
}

/// Appends the ULEB128 encoding of `val`.
pub fn write_uleb128(buf: &mut Vec<u8>, val: u64)
    ensures
        final(buf)@ == old(buf)@ + uleb128(val as nat),
{
    let mut rest: u64 = val;
    while rest >= 128
        invariant
            buf@ + uleb128(rest as nat) == old(buf)@ + uleb128(val as nat),
        decreases rest,
    {
        let ghost before = buf@;
        buf.push((rest % 128 + 128) as u8);
        proof {
            assert(buf@ + uleb128((rest / 128) as nat) =~= before + uleb128(rest as nat));
        }
        rest = rest / 128;
    }
    let ghost before = buf@;
    buf.push(rest as u8);
    assert(buf@ =~= before + uleb128(rest as nat));
}

} // verus!
