//! MD5 with a configurable number of mixing steps per block.
use vstd::prelude::*;
use crate::bits::{rotl, rotl_spec, distance, diff_words};
use crate::hex::{hex_text, hex_text_spec};
use crate::padding::{ByteOrder, pad, pad_spec, fits, block_words, load_block};

verus! {

/// Left-rotation amounts, one per step of a block.
pub const MD5_SHIFTS: [u32; 64] = [
    7, 12, 17, 22, 7, 12, 17, 22, 7, 12, 17, 22, 7, 12, 17, 22,
    5, 9, 14, 20, 5, 9, 14, 20, 5, 9, 14, 20, 5, 9, 14, 20,
    4, 11, 16, 23, 4, 11, 16, 23, 4, 11, 16, 23, 4, 11, 16, 23,
    6, 10, 15, 21, 6, 10, 15, 21, 6, 10, 15, 21, 6, 10, 15, 21,
];

/// Additive constants: the integer part of `2^32 * |sin(i + 1)|`.
pub const MD5_TABLE: [u32; 64] = [
    0xd76aa478, 0xe8c7b756, 0x242070db, 0xc1bdceee,
    0xf57c0faf, 0x4787c62a, 0xa8304613, 0xfd469501,
    0x698098d8, 0x8b44f7af, 0xffff5bb1, 0x895cd7be,
    0x6b901122, 0xfd987193, 0xa679438e, 0x49b40821,
    0xf61e2562, 0xc040b340, 0x265e5a51, 0xe9b6c7aa,
    0xd62f105d, 0x02441453, 0xd8a1e681, 0xe7d3fbc8,
    0x21e1cde6, 0xc33707d6, 0xf4d50d87, 0x455a14ed,
    0xa9e3e905, 0xfcefa3f8, 0x676f02d9, 0x8d2a4c8a,
    0xfffa3942, 0x8771f681, 0x6d9d6122, 0xfde5380c,
    0xa4beea44, 0x4bdecfa9, 0xf6bb4b60, 0xbebfbc70,
    0x289b7ec6, 0xeaa127fa, 0xd4ef3085, 0x04881d05,
    0xd9d4d039, 0xe6db99e5, 0x1fa27cf8, 0xc4ac5665,
    0xf4292244, 0x432aff97, 0xab9423a7, 0xfc93a039,
    0x655b59c3, 0x8f0ccc92, 0xffeff47d, 0x85845dd1,
    0x6fa87e4f, 0xfe2ce6e0, 0xa3014314, 0x4e0811a1,
    0xf7537e82, 0xbd3af235, 0x2ad7d2bb, 0xeb86d391,
];

/// Registers `(a, b, c, d)`.
pub type Md5State = (u32, u32, u32, u32);

/// The published initial accumulator.
pub open spec fn md5_init() -> Md5State {
    (0x67452301u32, 0xefcdab89u32, 0x98badcfeu32, 0x10325476u32)
}

/// Nonlinear function of step `i` (below 64).
pub open spec fn md5_mix(i: int, b: u32, c: u32, d: u32) -> u32 {
    if i < 16 {
        (b & c) | (!b & d)
    } else if i < 32 {
        (d & b) | (!d & c)
    } else if i < 48 {
        b ^ c ^ d
    } else {
        c ^ (b | !d)
    }
}

/// Index of the message word read at step `i` (below 64).
pub open spec fn md5_word_index(i: int) -> int {
    if i < 16 {
        i
    } else if i < 32 {
        (5 * i + 1) % 16
    } else if i < 48 {
        (3 * i + 5) % 16
    } else {
        (7 * i) % 16
    }
}

/// Step number `k` of a block; steps from 64 on reuse the tables modulo 64.
pub open spec fn md5_step(s: Md5State, m: Seq<u32>, k: nat) -> Md5State {
    let i = (k % 64) as int;
    let f = md5_mix(i, s.1, s.2, s.3).wrapping_add(s.0).wrapping_add(MD5_TABLE@[i]).wrapping_add(
        m[md5_word_index(i)],
    );
    (s.3, s.1.wrapping_add(rotl_spec(f, MD5_SHIFTS@[i])), s.1, s.2)
}

/// The registers after the first `n` steps over block words `m`.
pub open spec fn md5_steps(s: Md5State, m: Seq<u32>, n: nat) -> Md5State
    decreases n,
{
    if n == 0 {
        s
    } else {
        md5_step(md5_steps(s, m, (n - 1) as nat), m, (n - 1) as nat)
    }
}

/// The accumulator after one block of `rounds` steps.
pub open spec fn md5_block(h: Md5State, m: Seq<u32>, rounds: nat) -> Md5State {
    let w = md5_steps(h, m, rounds);
    (h.0.wrapping_add(w.0), h.1.wrapping_add(w.1), h.2.wrapping_add(w.2), h.3.wrapping_add(w.3))
}

/// The accumulator after the first `n` blocks of the padded message `p`.
pub open spec fn md5_blocks(p: Seq<u8>, n: nat, rounds: nat) -> Md5State
    decreases n,
{
    if n == 0 {
        md5_init()
    } else {
        md5_block(
            md5_blocks(p, (n - 1) as nat, rounds),
            block_words(p, n - 1, ByteOrder::Little),
            rounds,
        )
    }
}

/// The MD5 digest words of `msg` with `rounds` steps per block.
pub open spec fn md5_rounds_spec(msg: Seq<u8>, rounds: nat) -> Seq<u32> {
    let p = pad_spec(msg, ByteOrder::Little);
    let h = md5_blocks(p, p.len() / 64, rounds);
    seq![h.0, h.1, h.2, h.3]
}

/// The standard MD5 digest words of `msg`.
pub open spec fn md5_spec(msg: Seq<u8>) -> Seq<u32> {
    md5_rounds_spec(msg, 64)
}

/// Runs one step of a block.
fn md5_step_exec(s: Md5State, m: &Vec<u32>, k: usize) -> (r: Md5State)
    requires
        m@.len() == 16,
    ensures
        r == md5_step(s, m@, k as nat),
{
    let i = k % 64;
    let (a, b, c, d) = s;
    let (f, g) = if i < 16 {
        ((b & c) | (!b & d), i)
    } else if i < 32 {
        ((d & b) | (!d & c), (5 * i + 1) % 16)
    } else if i < 48 {
        (b ^ c ^ d, (3 * i + 5) % 16)
    } else {
        (c ^ (b | !d), (7 * i) % 16)
    };
    let f = f.wrapping_add(a).wrapping_add(MD5_TABLE[i]).wrapping_add(m[g]);
    (d, b.wrapping_add(rotl(f, MD5_SHIFTS[i])), b, c)
}

/// Folds one block of `rounds` steps into the accumulator `h`.
fn md5_compress(h: Md5State, m: &Vec<u32>, rounds: usize) -> (r: Md5State)
    requires
        m@.len() == 16,
    ensures
        r == md5_block(h, m@, rounds as nat),
{
    let mut s = h;
    let mut k: usize = 0;
    while k < rounds
        invariant
            k <= rounds,
            m@.len() == 16,
            s == md5_steps(h, m@, k as nat),
        decreases rounds - k,
    {
        s = md5_step_exec(s, m, k);
        k = k + 1;
    }
    (h.0.wrapping_add(s.0), h.1.wrapping_add(s.1), h.2.wrapping_add(s.2), h.3.wrapping_add(s.3))
}

/// MD5 of `input` with `rounds` mixing steps per block instead of 64.
pub fn md5_rounds(input: &[u8], rounds: usize) -> (r: MD5Digest)
    requires
        fits(input@.len()),
    ensures
        r@ == md5_rounds_spec(input@, rounds as nat),
{
    let p = pad(input, ByteOrder::Little);
    proof {
        crate::padding::lemma_pad_shape(input@, ByteOrder::Little);
    }
    let n = p.len() / 64;
    let mut h: Md5State = (0x67452301u32, 0xefcdab89u32, 0x98badcfeu32, 0x10325476u32);
    let mut blk: usize = 0;
    while blk < n
        invariant
            blk <= n,
            n == p@.len() / 64,
            p@.len() % 64 == 0,
            p@.len() <= usize::MAX,
            h == md5_blocks(p@, blk as nat, rounds as nat),
        decreases n - blk,
    {
        let m = load_block(p.as_slice(), blk, ByteOrder::Little);
        h = md5_compress(h, &m, rounds);
        blk = blk + 1;
    }
    MD5Digest::new([h.0, h.1, h.2, h.3])
}

/// Standard MD5 of `input`.
pub fn md5(input: &[u8]) -> (r: MD5Digest)
    requires
        fits(input@.len()),
    ensures
        r@ == md5_spec(input@),
{
    md5_rounds(input, 64)
}

/// Running MD5 with 64 steps per block is standard MD5.
pub proof fn lemma_md5_standard_rounds(msg: Seq<u8>)
    ensures
        md5_rounds_spec(msg, 64) == md5_spec(msg),
{
}

/// An MD5 digest: the four accumulator words.
pub struct MD5Digest {
    values: [u32; 4],
}

impl View for MD5Digest {
    type V = Seq<u32>;

    closed spec fn view(&self) -> Seq<u32> {
        self.values@
    }
}

impl MD5Digest {
    /// A digest holding the given words.
    pub fn new(values: [u32; 4]) -> (r: MD5Digest)
        ensures
            r@ == values@,
    {
        MD5Digest { values }
    }

    /// Two digests differ in no bit exactly when they are equal, the
    /// difference is symmetric, and it is at most 128, the number of bits
    /// of a digest.
    pub proof fn lemma_diff_laws(d1: &MD5Digest, d2: &MD5Digest)
        ensures
            distance(d1@, d1@) == 0,
            distance(d1@, d2@) == distance(d2@, d1@),
            distance(d1@, d2@) <= 128,
            distance(d1@, d2@) == 0 <==> d1@ == d2@,
    {
        crate::bits::lemma_distance_laws(d1@, d2@);
        if distance(d1@, d2@) == 0 {
            crate::bits::lemma_distance_zero(d1@, d2@);
        }
    }

    /// The digest's bytes, each word little-endian, as lowercase hexadecimal.
    pub fn to_hex(&self) -> (r: String)
        ensures
            r@ == hex_text_spec(self@, ByteOrder::Little),
    {
        hex_text(self.values.as_slice(), ByteOrder::Little)
    }

    /// Number of bits in which the two digests differ.
    pub fn diff_with(&self, other: &MD5Digest) -> (r: u32)
        ensures
            r as nat == distance(self@, other@),
    {
        diff_words(self.values.as_slice(), other.values.as_slice())
    }
}

} // verus!
