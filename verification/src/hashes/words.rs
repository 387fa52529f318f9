//! 32-bit word arithmetic and the byte-level layout shared by the digest
//! engines: wraparound addition, left rotation, little- and big-endian word
//! reads and writes, and the block-aligning padding scheme.

use vstd::arithmetic::div_mod::{
    lemma_fundamental_div_mod, lemma_mod_multiples_vanish, lemma_small_mod,
};
use vstd::prelude::*;

verus! {

/// Addition of two 32-bit words modulo 2^32.
pub open spec fn w_add(a: u32, b: u32) -> u32 {
    ((a + b) % 0x1_0000_0000) as u32
}

/// Left rotation of a 32-bit word by `n` positions, for `0 < n < 32`.
pub open spec fn rotl(x: u32, n: u32) -> u32 {
    (x << n) | (x >> ((32 - n) as u32))
}

/// Wraparound addition of two 32-bit words.
pub fn add_wrap(a: u32, b: u32) -> (r: u32)
    ensures
        r == w_add(a, b),
{
    a.wrapping_add(b)
}

/// Rotates a 32-bit word left by `n` positions.
pub fn rotate_left(x: u32, n: u32) -> (r: u32)
    requires
        0 < n < 32,
    ensures
        r == rotl(x, n),
{
    (x << n) | (x >> (32 - n))
}

/// The 32-bit word read little-endian from bytes `4*i .. 4*i + 4` of `b`.
pub open spec fn word_le(b: Seq<u8>, i: int) -> u32 {
    (b[4 * i] + b[4 * i + 1] * 0x100 + b[4 * i + 2] * 0x1_0000 + b[4 * i + 3] * 0x100_0000) as u32
}

/// The 32-bit word read big-endian from bytes `4*i .. 4*i + 4` of `b`.
pub open spec fn word_be(b: Seq<u8>, i: int) -> u32 {
    (b[4 * i + 3] + b[4 * i + 2] * 0x100 + b[4 * i + 1] * 0x1_0000 + b[4 * i] * 0x100_0000) as u32
}

/// Reads the 32-bit word at word index `i` of `b`, little-endian.
pub fn read_word_le(b: &Vec<u8>, i: usize) -> (r: u32)
    requires
        4 * i + 4 <= b@.len(),
    ensures
        r == word_le(b@, i as int),
{
    let n = b.len();
    assert(4 * i + 4 <= n);
    let b0 = b[4 * i] as u32;
    let b1 = b[4 * i + 1] as u32;
    let b2 = b[4 * i + 2] as u32;
    let b3 = b[4 * i + 3] as u32;
    b0 + b1 * 0x100 + b2 * 0x1_0000 + b3 * 0x100_0000
}

/// Reads the 32-bit word at word index `i` of `b`, big-endian.
pub fn read_word_be(b: &Vec<u8>, i: usize) -> (r: u32)
    requires
        4 * i + 4 <= b@.len(),
    ensures
        r == word_be(b@, i as int),
{
    let n = b.len();
    assert(4 * i + 4 <= n);
    let b0 = b[4 * i] as u32;
    let b1 = b[4 * i + 1] as u32;
    let b2 = b[4 * i + 2] as u32;
    let b3 = b[4 * i + 3] as u32;
    b3 + b2 * 0x100 + b1 * 0x1_0000 + b0 * 0x100_0000
}

/// The four bytes of `w` in little-endian order.
pub open spec fn le32_bytes(w: u32) -> Seq<u8> {
    seq![
        (w % 0x100) as u8,
        ((w / 0x100) % 0x100) as u8,
        ((w / 0x1_0000) % 0x100) as u8,
        ((w / 0x100_0000) % 0x100) as u8,
    ]
}

/// The four bytes of `w` in big-endian order.
pub open spec fn be32_bytes(w: u32) -> Seq<u8> {
    seq![
        ((w / 0x100_0000) % 0x100) as u8,
        ((w / 0x1_0000) % 0x100) as u8,
        ((w / 0x100) % 0x100) as u8,
        (w % 0x100) as u8,
    ]
}

/// Appends the four bytes of `w` to `out`, little-endian.
pub fn push_le32(out: &mut Vec<u8>, w: u32)
    ensures
        final(out)@ == old(out)@ + le32_bytes(w),
{
    out.push((w % 0x100) as u8);
    out.push(((w / 0x100) % 0x100) as u8);
    out.push(((w / 0x1_0000) % 0x100) as u8);
    out.push(((w / 0x100_0000) % 0x100) as u8);
    assert(out@ =~= old(out)@ + le32_bytes(w));
}

/// Appends the four bytes of `w` to `out`, big-endian.
pub fn push_be32(out: &mut Vec<u8>, w: u32)
    ensures
        final(out)@ == old(out)@ + be32_bytes(w),
{
    out.push(((w / 0x100_0000) % 0x100) as u8);
    out.push(((w / 0x1_0000) % 0x100) as u8);
    out.push(((w / 0x100) % 0x100) as u8);
    out.push((w % 0x100) as u8);
    assert(out@ =~= old(out)@ + be32_bytes(w));
}

/// The eight bytes of `v` in little-endian order.
pub open spec fn le64_bytes(v: u64) -> Seq<u8> {
    seq![
        (v % 0x100) as u8,
        ((v / 0x100) % 0x100) as u8,
        ((v / 0x1_0000) % 0x100) as u8,
        ((v / 0x100_0000) % 0x100) as u8,
        ((v / 0x1_0000_0000) % 0x100) as u8,
        ((v / 0x100_0000_0000) % 0x100) as u8,
        ((v / 0x1_0000_0000_0000) % 0x100) as u8,
        ((v / 0x100_0000_0000_0000) % 0x100) as u8,
    ]
}

/// The eight bytes of `v` in big-endian order.
pub open spec fn be64_bytes(v: u64) -> Seq<u8> {
    seq![
        ((v / 0x100_0000_0000_0000) % 0x100) as u8,
        ((v / 0x1_0000_0000_0000) % 0x100) as u8,
        ((v / 0x100_0000_0000) % 0x100) as u8,
        ((v / 0x1_0000_0000) % 0x100) as u8,
        ((v / 0x100_0000) % 0x100) as u8,
        ((v / 0x1_0000) % 0x100) as u8,
        ((v / 0x100) % 0x100) as u8,
        (v % 0x100) as u8,
    ]
}

/// Appends the eight bytes of `v` to `out`, little-endian.
pub fn push_le64(out: &mut Vec<u8>, v: u64)
    ensures
        final(out)@ == old(out)@ + le64_bytes(v),
{
    out.push((v % 0x100) as u8);
    out.push(((v / 0x100) % 0x100) as u8);
    out.push(((v / 0x1_0000) % 0x100) as u8);
    out.push(((v / 0x100_0000) % 0x100) as u8);
    out.push(((v / 0x1_0000_0000) % 0x100) as u8);
    out.push(((v / 0x100_0000_0000) % 0x100) as u8);
    out.push(((v / 0x1_0000_0000_0000) % 0x100) as u8);
    out.push(((v / 0x100_0000_0000_0000) % 0x100) as u8);
    assert(out@ =~= old(out)@ + le64_bytes(v));
}

/// Appends the eight bytes of `v` to `out`, big-endian.
pub fn push_be64(out: &mut Vec<u8>, v: u64)
    ensures
        final(out)@ == old(out)@ + be64_bytes(v),
{
    out.push(((v / 0x100_0000_0000_0000) % 0x100) as u8);
    out.push(((v / 0x1_0000_0000_0000) % 0x100) as u8);
    out.push(((v / 0x100_0000_0000) % 0x100) as u8);
    out.push(((v / 0x1_0000_0000) % 0x100) as u8);
    out.push(((v / 0x100_0000) % 0x100) as u8);
    out.push(((v / 0x1_0000) % 0x100) as u8);
    out.push(((v / 0x100) % 0x100) as u8);
    out.push((v % 0x100) as u8);
    assert(out@ =~= old(out)@ + be64_bytes(v));
}

/// The 64-bit message bit length: eight times the byte length, truncated to
/// 64 bits. Messages of 2^61 bytes or more lose their high bits here, an
/// accepted limitation of the published padding scheme's 8-byte field.
pub open spec fn bit_len64(len: nat) -> u64 {
    ((len * 8) % 0x1_0000_0000_0000_0000) as u64
}

/// Zero bits of padding after the terminator bit: the published formula
/// `(448 - (len_bits + 1)) mod 512`, written without negative values.
pub open spec fn pad_zero_bits(len_bits: nat) -> nat {
    if (len_bits + 1) % 512 <= 448 {
        (448 - (len_bits + 1) % 512) as nat
    } else {
        (960 - (len_bits + 1) % 512) as nat
    }
}

/// Number of whole zero bytes that padding inserts after the 0x80
/// terminator so that message, terminator, zero fill and 8-byte length
/// field together fill whole 64-byte blocks.
pub open spec fn pad_zero_bytes(len: nat) -> nat {
    if len % 64 <= 55 {
        (55 - len % 64) as nat
    } else {
        (119 - len % 64) as nat
    }
}

/// A message extended by the 0x80 terminator byte, the zero fill, and the
/// given 8-byte length field.
pub open spec fn padded(msg: Seq<u8>, len_field: Seq<u8>) -> Seq<u8> {
    msg + seq![0x80u8] + Seq::new(pad_zero_bytes(msg.len()) as nat, |i: int| 0u8) + len_field
}

/// Copies the message and appends the 0x80 terminator byte and the zero
/// fill; an 8-byte length field then completes the final block.
pub fn pad_prefix(msg: &[u8]) -> (r: Vec<u8>)
    ensures
        r@ == msg@ + seq![0x80u8] + Seq::new(pad_zero_bytes(msg@.len()), |i: int| 0u8),
{
    let n = msg.len();
    let mut out: Vec<u8> = Vec::new();
    let mut i: usize = 0;
    while i < n
        invariant
            i <= n,
            n == msg@.len(),
            out@ == msg@.take(i as int),
        decreases n - i,
    {
        out.push(msg[i]);
        assert(out@ =~= msg@.take(i + 1 as int));
        i += 1;
    }
    out.push(0x80);
    assert(out@ =~= msg@ + seq![0x80u8] + Seq::new(0, |t: int| 0u8));
    let zeros = if n % 64 <= 55 {
        55 - n % 64
    } else {
        119 - n % 64
    };
    let mut j: usize = 0;
    while j < zeros
        invariant
            j <= zeros,
            zeros == pad_zero_bytes(msg@.len()),
            out@ == msg@ + seq![0x80u8] + Seq::new(j as nat, |t: int| 0u8),
        decreases zeros - j,
    {
        out.push(0);
        assert(out@ =~= msg@ + seq![0x80u8] + Seq::new((j + 1) as nat, |t: int| 0u8));
        j += 1;
    }
    out
}

/// The zero-pad count is always below one block of bits.
pub proof fn lemma_pad_zero_bits_range(len_bits: nat)
    ensures
        pad_zero_bits(len_bits) < 512,
{
}

/// For a whole-byte message the bit-level zero-pad count is eight times the
/// byte-level count plus the seven zero bits inside the 0x80 terminator.
pub proof fn lemma_pad_zero_bits_of_bytes(len: nat)
    ensures
        pad_zero_bits(len * 8) == 8 * pad_zero_bytes(len) + 7,
{
    let m = len % 64;
    lemma_fundamental_div_mod(len as int, 64);
    let q = len as int / 64;
    assert(len * 8 == 512 * q + 8 * m) by (nonlinear_arith)
        requires
            len == 64 * q + m,
    ;
    lemma_mod_multiples_vanish(q, 8 * (m as int) + 1, 512);
    lemma_small_mod((8 * m + 1) as nat, 512);
    assert((len * 8 + 1) % 512 == 8 * m + 1);
}

/// Padding always fills whole 64-byte blocks, adds at least the terminator
/// and the length field, and keeps the message as a prefix.
pub proof fn lemma_padded_len(msg: Seq<u8>, len_field: Seq<u8>)
    requires
        len_field.len() == 8,
    ensures
        padded(msg, len_field).len() % 64 == 0,
        padded(msg, len_field).len() >= msg.len() + 9,
        padded(msg, len_field).len() == msg.len() + 9 + pad_zero_bytes(msg.len()),
        padded(msg, len_field).subrange(0, msg.len() as int) == msg,
{
    assert(padded(msg, len_field).subrange(0, msg.len() as int) =~= msg);
    let len = msg.len();
    let m = len % 64;
    lemma_fundamental_div_mod(len as int, 64);
    let q = len as int / 64;
    if m <= 55 {
        assert(padded(msg, len_field).len() == 64 * (q + 1));
        lemma_mod_multiples_vanish(q + 1, 0, 64);
        lemma_small_mod(0, 64);
    } else {
        assert(padded(msg, len_field).len() == 64 * (q + 2));
        lemma_mod_multiples_vanish(q + 2, 0, 64);
        lemma_small_mod(0, 64);
    }
}

} // verus!
