//! The SHA-1 digest engine: the message is padded to whole 64-byte blocks
//! with a big-endian length field, each block's sixteen big-endian words are
//! extended to an eighty-word schedule by XOR-and-rotate, and eighty rounds
//! fold the schedule into five 32-bit registers, all arithmetic modulo 2^32.

use crate::hashes::words::{
    add_wrap, be32_bytes, be64_bytes, bit_len64, pad_prefix, padded, push_be32, push_be64,
    read_word_be, rotate_left, rotl, w_add, word_be,
};
use crate::utils::Fingerprint;
use vstd::arithmetic::div_mod::lemma_fundamental_div_mod;
use vstd::prelude::*;

verus! {

/// A 20-byte SHA-1 digest.
pub type Sha1Fingerprint = Fingerprint<20>;

/// The round function `f(t)`: choice, parity, majority, parity over the
/// four twenty-round bands.
pub open spec fn spec_f(t: int, b: u32, c: u32, d: u32) -> u32 {
    if t < 20 {
        (b & c) | (!b & d)
    } else if t < 40 {
        b ^ c ^ d
    } else if t < 60 {
        (b & c) | (b & d) | (c & d)
    } else {
        b ^ c ^ d
    }
}

/// The additive constant `k(t)` of the four bands.
pub open spec fn spec_k(t: int) -> u32 {
    if t < 20 {
        0x5a827999
    } else if t < 40 {
        0x6ed9eba1
    } else if t < 60 {
        0x8f1bbcdc
    } else {
        0xca62c1d6
    }
}

/// Word `t` of the message schedule: the block's sixteen words, extended by
/// the XOR of four earlier words rotated left once.
pub open spec fn schedule(x: Seq<u32>, t: int) -> u32
    decreases t,
{
    if t < 16 {
        x[t]
    } else {
        rotl(schedule(x, t - 3) ^ schedule(x, t - 8) ^ schedule(x, t - 14) ^ schedule(x, t - 16), 1)
    }
}

/// One round: the working registers shift down while the `a` role takes
/// the mixed sum.
pub open spec fn round(t: int, st: (u32, u32, u32, u32, u32), x: Seq<u32>) -> (
    u32,
    u32,
    u32,
    u32,
    u32,
) {
    let (a, b, c, d, e) = st;
    let temp = w_add(w_add(w_add(w_add(rotl(a, 5), spec_f(t, b, c, d)), e), schedule(x, t)), spec_k(t));
    (temp, a, rotl(b, 30), c, d)
}

/// The working registers after the first `n` of a block's eighty rounds.
pub open spec fn rounds(st: (u32, u32, u32, u32, u32), x: Seq<u32>, n: nat) -> (
    u32,
    u32,
    u32,
    u32,
    u32,
)
    decreases n,
{
    if n == 0 {
        st
    } else {
        round(n - 1, rounds(st, x, (n - 1) as nat), x)
    }
}

/// One 64-byte block folded into the register state: eighty rounds, then
/// the chaining addition of the incoming state.
pub open spec fn compress(st: (u32, u32, u32, u32, u32), x: Seq<u32>) -> (u32, u32, u32, u32, u32) {
    let r = rounds(st, x, 80);
    (w_add(st.0, r.0), w_add(st.1, r.1), w_add(st.2, r.2), w_add(st.3, r.3), w_add(st.4, r.4))
}

/// The sixteen big-endian words of block `b` of the padded buffer.
pub open spec fn block_words(buf: Seq<u8>, b: int) -> Seq<u32> {
    Seq::new(16, |j: int| word_be(buf, 16 * b + j))
}

/// The register state after the first `n` blocks, from the published
/// initial constants.
pub open spec fn states(buf: Seq<u8>, n: nat) -> (u32, u32, u32, u32, u32)
    decreases n,
{
    if n == 0 {
        (0x67452301u32, 0xefcdab89u32, 0x98badcfeu32, 0x10325476u32, 0xc3d2e1f0u32)
    } else {
        compress(states(buf, (n - 1) as nat), block_words(buf, n - 1))
    }
}

/// The padded buffer: terminator, zero fill, and the big-endian 64-bit
/// message bit length.
pub open spec fn sha1_pad(msg: Seq<u8>) -> Seq<u8> {
    padded(msg, be64_bytes(bit_len64(msg.len())))
}

/// The SHA-1 digest: every block of the padded buffer folded into the
/// initial registers, emitted as big-endian bytes.
pub open spec fn sha1_digest(msg: Seq<u8>) -> Seq<u8> {
    let buf = sha1_pad(msg);
    let st = states(buf, buf.len() / 64);
    be32_bytes(st.0) + be32_bytes(st.1) + be32_bytes(st.2) + be32_bytes(st.3) + be32_bytes(st.4)
}

/// The round function of round `t`.
pub fn f(t: usize, b: u32, c: u32, d: u32) -> (r: u32)
    requires
        t < 80,
    ensures
        r == spec_f(t as int, b, c, d),
{
    if t < 20 {
        (b & c) | (!b & d)
    } else if t < 40 {
        b ^ c ^ d
    } else if t < 60 {
        (b & c) | (b & d) | (c & d)
    } else {
        b ^ c ^ d
    }
}

/// The additive constant of round `t`.
pub fn k(t: usize) -> (r: u32)
    requires
        t < 80,
    ensures
        r == spec_k(t as int),
{
    if t < 20 {
        0x5a827999
    } else if t < 40 {
        0x6ed9eba1
    } else if t < 60 {
        0x8f1bbcdc
    } else {
        0xca62c1d6
    }
}

/// Extends a message to whole 64-byte blocks: the 0x80 terminator, the
/// zero fill, and the big-endian 64-bit message bit length.
pub fn pad(msg: &[u8]) -> (r: Vec<u8>)
    ensures
        r@ == sha1_pad(msg@),
        r@.len() % 64 == 0,
        r@.len() >= msg@.len() + 9,
{
    let mut out = pad_prefix(msg);
    let bit_len = (msg.len() as u64).wrapping_mul(8);
    push_be64(&mut out, bit_len);
    proof {
        crate::hashes::words::lemma_padded_len(msg@, be64_bytes(bit_len64(msg@.len())));
        assert(out@ =~= sha1_pad(msg@));
    }
    out
}

/// Law: the padded buffer always fills whole 64-byte blocks and keeps the
/// message as a prefix.
pub proof fn lemma_sha1_pad_blocks(msg: Seq<u8>)
    ensures
        sha1_pad(msg).len() % 64 == 0,
        sha1_pad(msg).len() >= msg.len() + 9,
        sha1_pad(msg).subrange(0, msg.len() as int) == msg,
{
    crate::hashes::words::lemma_padded_len(msg, be64_bytes(bit_len64(msg.len())));
}

/// Law: the digest is a function of the message bytes alone, so two hashes
/// of equal messages are equal.
pub proof fn lemma_sha1_deterministic(m1: Seq<u8>, m2: Seq<u8>)
    requires
        m1 == m2,
    ensures
        sha1_digest(m1) == sha1_digest(m2),
{
}

/// The SHA-1 digest of a byte message.
pub fn hash(msg: &[u8]) -> (r: Sha1Fingerprint)
    ensures
        r.wf(),
        r@ == sha1_digest(msg@),
{
    let buf = pad(msg);
    // From here on only the padded buffer is read; the original message
    // binding is left behind on purpose.
    let n_blocks = buf.len() / 64;
    proof {
        lemma_fundamental_div_mod(buf@.len() as int, 64);
        assert(64 * n_blocks == buf@.len());
    }

    let mut h0: u32 = 0x67452301;
    let mut h1: u32 = 0xefcdab89;
    let mut h2: u32 = 0x98badcfe;
    let mut h3: u32 = 0x10325476;
    let mut h4: u32 = 0xc3d2e1f0;

    let mut blk: usize = 0;
    while blk < n_blocks
        invariant
            buf@ == sha1_pad(msg@),
            64 * n_blocks == buf@.len(),
            buf@.len() <= usize::MAX,
            blk <= n_blocks,
            (h0, h1, h2, h3, h4) == states(buf@, blk as nat),
        decreases n_blocks - blk,
    {
        let ghost x = block_words(buf@, blk as int);
        let mut w: Vec<u32> = Vec::new();
        let mut j: usize = 0;
        while j < 16
            invariant
                64 * n_blocks == buf@.len(),
                buf@.len() <= usize::MAX,
                blk < n_blocks,
                j <= 16,
                w@.len() == j,
                x == block_words(buf@, blk as int),
                forall|t: int| 0 <= t < j ==> w@[t] == schedule(x, t),
            decreases 16 - j,
        {
            assert(4 * (16 * blk + j) + 4 <= buf@.len());
            w.push(read_word_be(&buf, 16 * blk + j));
            j += 1;
        }
        let mut t: usize = 16;
        while t < 80
            invariant
                16 <= t <= 80,
                w@.len() == t,
                forall|u: int| 0 <= u < t ==> w@[u] == schedule(x, u),
            decreases 80 - t,
        {
            let word = rotate_left(w[t - 3] ^ w[t - 8] ^ w[t - 14] ^ w[t - 16], 1);
            assert(word == schedule(x, t as int)) by {
                assert(w@[t - 3] == schedule(x, t as int - 3));
                assert(w@[t - 8] == schedule(x, t as int - 8));
                assert(w@[t - 14] == schedule(x, t as int - 14));
                assert(w@[t - 16] == schedule(x, t as int - 16));
            }
            w.push(word);
            t += 1;
        }

        let mut a = h0;
        let mut b = h1;
        let mut c = h2;
        let mut d = h3;
        let mut e = h4;
        let mut i: usize = 0;
        while i < 80
            invariant
                w@.len() == 80,
                forall|u: int| 0 <= u < 80 ==> w@[u] == schedule(x, u),
                i <= 80,
                (a, b, c, d, e) == rounds((h0, h1, h2, h3, h4), x, i as nat),
        decreases 80 - i,
        {
            let temp = add_wrap(
                add_wrap(add_wrap(add_wrap(rotate_left(a, 5), f(i, b, c, d)), e), w[i]),
                k(i),
            );
            let nb = a;
            let nc = rotate_left(b, 30);
            let nd = c;
            let ne = d;
            a = temp;
            b = nb;
            c = nc;
            d = nd;
            e = ne;
            i += 1;
            assert((a, b, c, d, e) == rounds((h0, h1, h2, h3, h4), x, i as nat));
        }
        h0 = add_wrap(h0, a);
        h1 = add_wrap(h1, b);
        h2 = add_wrap(h2, c);
        h3 = add_wrap(h3, d);
        h4 = add_wrap(h4, e);
        blk += 1;
        assert((h0, h1, h2, h3, h4) == states(buf@, blk as nat));
    }

    let mut out: Vec<u8> = Vec::new();
    push_be32(&mut out, h0);
    push_be32(&mut out, h1);
    push_be32(&mut out, h2);
    push_be32(&mut out, h3);
    push_be32(&mut out, h4);
    assert(out@ =~= sha1_digest(msg@));
    Fingerprint::new(out)
}

} // verus!
