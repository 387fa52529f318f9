//! The MD5 digest engine: the message is padded to whole 64-byte blocks
//! with a little-endian length field, and each block's sixteen little-endian
//! words are folded into four 32-bit registers by four rounds of sixteen
//! steps, all arithmetic modulo 2^32.

use crate::hashes::words::{
    add_wrap, bit_len64, le32_bytes, le64_bytes, pad_prefix, pad_zero_bits, padded, push_le32,
    push_le64, read_word_le, rotate_left, rotl, w_add, word_le,
};
use crate::utils::Fingerprint;
use vstd::arithmetic::div_mod::lemma_fundamental_div_mod;
use vstd::prelude::*;

verus! {

/// A 16-byte MD5 digest.
pub type Md5Fingerprint = Fingerprint<16>;

/// Round 1 mixing: each bit chooses `y` or `z` by the bit of `x`.
pub open spec fn spec_f(x: u32, y: u32, z: u32) -> u32 {
    (x & y) | (!x & z)
}

/// Round 2 mixing: each bit chooses `x` or `y` by the bit of `z`.
pub open spec fn spec_g(x: u32, y: u32, z: u32) -> u32 {
    (x & z) | (y & !z)
}

/// Round 3 mixing: bitwise parity.
pub open spec fn spec_h(x: u32, y: u32, z: u32) -> u32 {
    x ^ y ^ z
}

/// Round 4 mixing.
pub open spec fn spec_i(x: u32, y: u32, z: u32) -> u32 {
    y ^ (x | !z)
}

/// The mixing function of step `i`: F, G, H, I over the four rounds.
pub open spec fn mix(i: int, x: u32, y: u32, z: u32) -> u32 {
    if i < 16 {
        spec_f(x, y, z)
    } else if i < 32 {
        spec_g(x, y, z)
    } else if i < 48 {
        spec_h(x, y, z)
    } else {
        spec_i(x, y, z)
    }
}

/// The message-word index of step `i`: sequential in round 1, then the
/// published strides 5, 3 and 7 in rounds 2 to 4.
pub open spec fn word_index(i: int) -> int {
    if i < 16 {
        i
    } else if i < 32 {
        (5 * i + 1) % 16
    } else if i < 48 {
        (3 * i + 5) % 16
    } else {
        (7 * i) % 16
    }
}

/// The left-rotation amount of step `i`: a cycle of four per round.
pub open spec fn rot_amount(i: int) -> u32 {
    let j = i % 4;
    if i < 16 {
        if j == 0 {
            7
        } else if j == 1 {
            12
        } else if j == 2 {
            17
        } else {
            22
        }
    } else if i < 32 {
        if j == 0 {
            5
        } else if j == 1 {
            9
        } else if j == 2 {
            14
        } else {
            20
        }
    } else if i < 48 {
        if j == 0 {
            4
        } else if j == 1 {
            11
        } else if j == 2 {
            16
        } else {
            23
        }
    } else {
        if j == 0 {
            6
        } else if j == 1 {
            10
        } else if j == 2 {
            15
        } else {
            21
        }
    }
}

/// The additive constant of step `i`, from the published table.
pub open spec fn step_constant(i: int) -> u32 {
    if i < 16 {
        if i == 0 {
            0xd76aa478
        } else if i == 1 {
            0xe8c7b756
        } else if i == 2 {
            0x242070db
        } else if i == 3 {
            0xc1bdceee
        } else if i == 4 {
            0xf57c0faf
        } else if i == 5 {
            0x4787c62a
        } else if i == 6 {
            0xa8304613
        } else if i == 7 {
            0xfd469501
        } else if i == 8 {
            0x698098d8
        } else if i == 9 {
            0x8b44f7af
        } else if i == 10 {
            0xffff5bb1
        } else if i == 11 {
            0x895cd7be
        } else if i == 12 {
            0x6b901122
        } else if i == 13 {
            0xfd987193
        } else if i == 14 {
            0xa679438e
        } else {
            0x49b40821
        }
    } else if i < 32 {
        if i == 16 {
            0xf61e2562
        } else if i == 17 {
            0xc040b340
        } else if i == 18 {
            0x265e5a51
        } else if i == 19 {
            0xe9b6c7aa
        } else if i == 20 {
            0xd62f105d
        } else if i == 21 {
            0x2441453
        } else if i == 22 {
            0xd8a1e681
        } else if i == 23 {
            0xe7d3fbc8
        } else if i == 24 {
            0x21e1cde6
        } else if i == 25 {
            0xc33707d6
        } else if i == 26 {
            0xf4d50d87
        } else if i == 27 {
            0x455a14ed
        } else if i == 28 {
            0xa9e3e905
        } else if i == 29 {
            0xfcefa3f8
        } else if i == 30 {
            0x676f02d9
        } else {
            0x8d2a4c8a
        }
    } else if i < 48 {
        if i == 32 {
            0xfffa3942
        } else if i == 33 {
            0x8771f681
        } else if i == 34 {
            0x6d9d6122
        } else if i == 35 {
            0xfde5380c
        } else if i == 36 {
            0xa4beea44
        } else if i == 37 {
            0x4bdecfa9
        } else if i == 38 {
            0xf6bb4b60
        } else if i == 39 {
            0xbebfbc70
        } else if i == 40 {
            0x289b7ec6
        } else if i == 41 {
            0xeaa127fa
        } else if i == 42 {
            0xd4ef3085
        } else if i == 43 {
            0x4881d05
        } else if i == 44 {
            0xd9d4d039
        } else if i == 45 {
            0xe6db99e5
        } else if i == 46 {
            0x1fa27cf8
        } else {
            0xc4ac5665
        }
    } else {
        if i == 48 {
            0xf4292244
        } else if i == 49 {
            0x432aff97
        } else if i == 50 {
            0xab9423a7
        } else if i == 51 {
            0xfc93a039
        } else if i == 52 {
            0x655b59c3
        } else if i == 53 {
            0x8f0ccc92
        } else if i == 54 {
            0xffeff47d
        } else if i == 55 {
            0x85845dd1
        } else if i == 56 {
            0x6fa87e4f
        } else if i == 57 {
            0xfe2ce6e0
        } else if i == 58 {
            0xa3014314
        } else if i == 59 {
            0x4e0811a1
        } else if i == 60 {
            0xf7537e82
        } else if i == 61 {
            0xbd3af235
        } else if i == 62 {
            0x2ad7d2bb
        } else {
            0xeb86d391
        }
    }
}

/// One step: the register in the `a` role takes the mixed, rotated sum and
/// the roles rotate through the four registers.
pub open spec fn step(i: int, st: (u32, u32, u32, u32), x: Seq<u32>) -> (u32, u32, u32, u32) {
    let (a, b, c, d) = st;
    let sum = w_add(a, w_add(w_add(mix(i, b, c, d), x[word_index(i)]), step_constant(i)));
    (d, w_add(rotl(sum, rot_amount(i)), b), b, c)
}

/// The register state after the first `n` of a block's 64 steps.
pub open spec fn steps(st: (u32, u32, u32, u32), x: Seq<u32>, n: nat) -> (u32, u32, u32, u32)
    decreases n,
{
    if n == 0 {
        st
    } else {
        step(n - 1, steps(st, x, (n - 1) as nat), x)
    }
}

/// One 64-byte block folded into the register state: 64 steps, then the
/// chaining addition of the incoming state.
pub open spec fn compress(st: (u32, u32, u32, u32), x: Seq<u32>) -> (u32, u32, u32, u32) {
    let r = steps(st, x, 64);
    (w_add(r.0, st.0), w_add(r.1, st.1), w_add(r.2, st.2), w_add(r.3, st.3))
}

/// The sixteen little-endian words of block `b` of the padded buffer.
pub open spec fn block_words(buf: Seq<u8>, b: int) -> Seq<u32> {
    Seq::new(16, |j: int| word_le(buf, 16 * b + j))
}

/// The register state after the first `n` blocks, from the published
/// initial constants.
pub open spec fn states(buf: Seq<u8>, n: nat) -> (u32, u32, u32, u32)
    decreases n,
{
    if n == 0 {
        (0x67452301u32, 0xefcdab89u32, 0x98badcfeu32, 0x10325476u32)
    } else {
        compress(states(buf, (n - 1) as nat), block_words(buf, n - 1))
    }
}

/// The padded buffer: terminator, zero fill, and the little-endian 64-bit
/// message bit length.
pub open spec fn md5_pad(msg: Seq<u8>) -> Seq<u8> {
    padded(msg, le64_bytes(bit_len64(msg.len())))
}

/// The MD5 digest: every block of the padded buffer folded into the
/// initial registers, emitted as little-endian bytes.
pub open spec fn md5_digest(msg: Seq<u8>) -> Seq<u8> {
    let buf = md5_pad(msg);
    let st = states(buf, buf.len() / 64);
    le32_bytes(st.0) + le32_bytes(st.1) + le32_bytes(st.2) + le32_bytes(st.3)
}

/// Round 1 mixing function.
#[allow(non_snake_case)]
pub fn F(x: u32, y: u32, z: u32) -> (r: u32)
    ensures
        r == spec_f(x, y, z),
{
    (x & y) | (!x & z)
}

/// Round 2 mixing function.
#[allow(non_snake_case)]
pub fn G(x: u32, y: u32, z: u32) -> (r: u32)
    ensures
        r == spec_g(x, y, z),
{
    (x & z) | (y & !z)
}

/// Round 3 mixing function.
#[allow(non_snake_case)]
pub fn H(x: u32, y: u32, z: u32) -> (r: u32)
    ensures
        r == spec_h(x, y, z),
{
    x ^ y ^ z
}

/// Round 4 mixing function.
#[allow(non_snake_case)]
pub fn I(x: u32, y: u32, z: u32) -> (r: u32)
    ensures
        r == spec_i(x, y, z),
{
    y ^ (x | !z)
}

/// Zero bits of padding for a message of `len_bits` bits: the published
/// formula `(448 - (len_bits + 1)) mod 512`, counting the terminator bit.
pub fn pad_zero_amount(len_bits: usize) -> (r: usize)
    ensures
        r == pad_zero_bits(len_bits as nat),
        r < 512,
{
    let rest = (len_bits % 512 + 1) % 512;
    proof {
        lemma_fundamental_div_mod(len_bits as int, 512);
        vstd::arithmetic::div_mod::lemma_mod_multiples_vanish(
            len_bits as int / 512,
            len_bits as int % 512 + 1,
            512,
        );
    }
    if rest <= 448 {
        448 - rest
    } else {
        960 - rest
    }
}

/// The mixing function of step `i`.
fn mix_at(i: usize, x: u32, y: u32, z: u32) -> (r: u32)
    requires
        i < 64,
    ensures
        r == mix(i as int, x, y, z),
{
    if i < 16 {
        F(x, y, z)
    } else if i < 32 {
        G(x, y, z)
    } else if i < 48 {
        H(x, y, z)
    } else {
        I(x, y, z)
    }
}

/// The message-word index of step `i`.
fn word_index_at(i: usize) -> (r: usize)
    requires
        i < 64,
    ensures
        r == word_index(i as int),
        r < 16,
{
    if i < 16 {
        i
    } else if i < 32 {
        (5 * i + 1) % 16
    } else if i < 48 {
        (3 * i + 5) % 16
    } else {
        (7 * i) % 16
    }
}

/// The left-rotation amount of step `i`.
fn rot_amount_at(i: usize) -> (r: u32)
    requires
        i < 64,
    ensures
        r == rot_amount(i as int),
        0 < r < 32,
{
    let j = i % 4;
    if i < 16 {
        if j == 0 {
            7
        } else if j == 1 {
            12
        } else if j == 2 {
            17
        } else {
            22
        }
    } else if i < 32 {
        if j == 0 {
            5
        } else if j == 1 {
            9
        } else if j == 2 {
            14
        } else {
            20
        }
    } else if i < 48 {
        if j == 0 {
            4
        } else if j == 1 {
            11
        } else if j == 2 {
            16
        } else {
            23
        }
    } else {
        if j == 0 {
            6
        } else if j == 1 {
            10
        } else if j == 2 {
            15
        } else {
            21
        }
    }
}

/// The additive constant of step `i`.
fn step_constant_at(i: usize) -> (r: u32)
    requires
        i < 64,
    ensures
        r == step_constant(i as int),
{
    if i < 16 {
        if i == 0 {
            0xd76aa478
        } else if i == 1 {
            0xe8c7b756
        } else if i == 2 {
            0x242070db
        } else if i == 3 {
            0xc1bdceee
        } else if i == 4 {
            0xf57c0faf
        } else if i == 5 {
            0x4787c62a
        } else if i == 6 {
            0xa8304613
        } else if i == 7 {
            0xfd469501
        } else if i == 8 {
            0x698098d8
        } else if i == 9 {
            0x8b44f7af
        } else if i == 10 {
            0xffff5bb1
        } else if i == 11 {
            0x895cd7be
        } else if i == 12 {
            0x6b901122
        } else if i == 13 {
            0xfd987193
        } else if i == 14 {
            0xa679438e
        } else {
            0x49b40821
        }
    } else if i < 32 {
        if i == 16 {
            0xf61e2562
        } else if i == 17 {
            0xc040b340
        } else if i == 18 {
            0x265e5a51
        } else if i == 19 {
            0xe9b6c7aa
        } else if i == 20 {
            0xd62f105d
        } else if i == 21 {
            0x2441453
        } else if i == 22 {
            0xd8a1e681
        } else if i == 23 {
            0xe7d3fbc8
        } else if i == 24 {
            0x21e1cde6
        } else if i == 25 {
            0xc33707d6
        } else if i == 26 {
            0xf4d50d87
        } else if i == 27 {
            0x455a14ed
        } else if i == 28 {
            0xa9e3e905
        } else if i == 29 {
            0xfcefa3f8
        } else if i == 30 {
            0x676f02d9
        } else {
            0x8d2a4c8a
        }
    } else if i < 48 {
        if i == 32 {
            0xfffa3942
        } else if i == 33 {
            0x8771f681
        } else if i == 34 {
            0x6d9d6122
        } else if i == 35 {
            0xfde5380c
        } else if i == 36 {
            0xa4beea44
        } else if i == 37 {
            0x4bdecfa9
        } else if i == 38 {
            0xf6bb4b60
        } else if i == 39 {
            0xbebfbc70
        } else if i == 40 {
            0x289b7ec6
        } else if i == 41 {
            0xeaa127fa
        } else if i == 42 {
            0xd4ef3085
        } else if i == 43 {
            0x4881d05
        } else if i == 44 {
            0xd9d4d039
        } else if i == 45 {
            0xe6db99e5
        } else if i == 46 {
            0x1fa27cf8
        } else {
            0xc4ac5665
        }
    } else {
        if i == 48 {
            0xf4292244
        } else if i == 49 {
            0x432aff97
        } else if i == 50 {
            0xab9423a7
        } else if i == 51 {
            0xfc93a039
        } else if i == 52 {
            0x655b59c3
        } else if i == 53 {
            0x8f0ccc92
        } else if i == 54 {
            0xffeff47d
        } else if i == 55 {
            0x85845dd1
        } else if i == 56 {
            0x6fa87e4f
        } else if i == 57 {
            0xfe2ce6e0
        } else if i == 58 {
            0xa3014314
        } else if i == 59 {
            0x4e0811a1
        } else if i == 60 {
            0xf7537e82
        } else if i == 61 {
            0xbd3af235
        } else if i == 62 {
            0x2ad7d2bb
        } else {
            0xeb86d391
        }
    }
}

/// Law: the padded buffer always fills whole 64-byte blocks and keeps the
/// message as a prefix.
pub proof fn lemma_md5_pad_blocks(msg: Seq<u8>)
    ensures
        md5_pad(msg).len() % 64 == 0,
        md5_pad(msg).len() >= msg.len() + 9,
        md5_pad(msg).subrange(0, msg.len() as int) == msg,
{
    crate::hashes::words::lemma_padded_len(msg, le64_bytes(bit_len64(msg.len())));
}

/// Law: the digest is a function of the message bytes alone, so two hashes
/// of equal messages are equal.
pub proof fn lemma_md5_deterministic(m1: Seq<u8>, m2: Seq<u8>)
    requires
        m1 == m2,
    ensures
        md5_digest(m1) == md5_digest(m2),
{
}

/// The MD5 digest of a byte message.
pub fn hash(msg: &[u8]) -> (r: Md5Fingerprint)
    ensures
        r.wf(),
        r@ == md5_digest(msg@),
{
    let mut buf = pad_prefix(msg);
    let bit_len = (msg.len() as u64).wrapping_mul(8);
    push_le64(&mut buf, bit_len);
    proof {
        crate::hashes::words::lemma_padded_len(msg@, le64_bytes(bit_len64(msg@.len())));
        assert(buf@ =~= md5_pad(msg@));
    }
    // From here on only the padded buffer is read; the original message
    // binding is left behind on purpose.
    let n_blocks = buf.len() / 64;
    proof {
        lemma_fundamental_div_mod(buf@.len() as int, 64);
        assert(64 * n_blocks == buf@.len());
    }

    let mut a: u32 = 0x67452301;
    let mut b: u32 = 0xefcdab89;
    let mut c: u32 = 0x98badcfe;
    let mut d: u32 = 0x10325476;

    let mut blk: usize = 0;
    while blk < n_blocks
        invariant
            buf@ == md5_pad(msg@),
            64 * n_blocks == buf@.len(),
            buf@.len() <= usize::MAX,
            blk <= n_blocks,
            (a, b, c, d) == states(buf@, blk as nat),
        decreases n_blocks - blk,
    {
        let mut x: Vec<u32> = Vec::new();
        let mut j: usize = 0;
        while j < 16
            invariant
                64 * n_blocks == buf@.len(),
                buf@.len() <= usize::MAX,
                blk < n_blocks,
                j <= 16,
                x@.len() == j,
                forall|t: int| 0 <= t < j ==> x@[t] == word_le(buf@, 16 * blk + t),
            decreases 16 - j,
        {
            assert(4 * (16 * blk + j) + 4 <= buf@.len());
            x.push(read_word_le(&buf, 16 * blk + j));
            j += 1;
        }
        assert(x@ =~= block_words(buf@, blk as int));

        let aa = a;
        let bb = b;
        let cc = c;
        let dd = d;
        let mut i: usize = 0;
        while i < 64
            invariant
                x@.len() == 16,
                i <= 64,
                (a, b, c, d) == steps((aa, bb, cc, dd), x@, i as nat),
            decreases 64 - i,
        {
            let m = mix_at(i, b, c, d);
            let xi = x[word_index_at(i)];
            let kc = step_constant_at(i);
            let s = rot_amount_at(i);
            let sum = add_wrap(a, add_wrap(add_wrap(m, xi), kc));
            let nb = add_wrap(rotate_left(sum, s), b);
            let na = d;
            let nc = b;
            let nd = c;
            a = na;
            d = nd;
            c = nc;
            b = nb;
            i += 1;
            assert((a, b, c, d) == steps((aa, bb, cc, dd), x@, i as nat));
        }
        a = add_wrap(a, aa);
        b = add_wrap(b, bb);
        c = add_wrap(c, cc);
        d = add_wrap(d, dd);
        blk += 1;
        assert((a, b, c, d) == states(buf@, blk as nat));
    }

    let mut out: Vec<u8> = Vec::new();
    push_le32(&mut out, a);
    push_le32(&mut out, b);
    push_le32(&mut out, c);
    push_le32(&mut out, d);
    assert(out@ =~= md5_digest(msg@));
    Fingerprint::new(out)
}

} // verus!
