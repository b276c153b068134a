//! SHA-1 with a configurable number of mixing steps per block.
use vstd::prelude::*;
use crate::bits::{rotl, rotl_spec, distance, diff_words};
use crate::hex::{hex_text, hex_text_spec};
use crate::padding::{ByteOrder, pad, pad_spec, fits, block_words, load_block};

verus! {

/// Registers `(a, b, c, d, e)`.
pub type Sha1State = (u32, u32, u32, u32, u32);

/// The published initial accumulator.
pub open spec fn sha1_init() -> Sha1State {
    (0x67452301u32, 0xEFCDAB89u32, 0x98BADCFEu32, 0x10325476u32, 0xC3D2E1F0u32)
}

/// The first `n` words of the message schedule of block words `m`.
pub open spec fn sha1_schedule(m: Seq<u32>, n: nat) -> Seq<u32>
    decreases n,
{
    if n <= 16 {
        m.subrange(0, n as int)
    } else {
        let w = sha1_schedule(m, (n - 1) as nat);
        let i = n - 1;
        w.push(rotl_spec(w[i - 3] ^ w[i - 8] ^ w[i - 14] ^ w[i - 16], 1))
    }
}

/// Nonlinear function of step `i`.
pub open spec fn sha1_mix(i: nat, b: u32, c: u32, d: u32) -> u32 {
    if i < 20 {
        (b & c) | (!b & d)
    } else if i < 40 {
        b ^ c ^ d
    } else if i < 60 {
        (b & c) | (b & d) | (c & d)
    } else {
        b ^ c ^ d
    }
}

/// Additive constant of step `i`.
pub open spec fn sha1_constant(i: nat) -> u32 {
    if i < 20 {
        0x5A827999u32
    } else if i < 40 {
        0x6ED9EBA1u32
    } else if i < 60 {
        0x8F1BBCDCu32
    } else {
        0xCA62C1D6u32
    }
}

/// Step number `i` of a block over the schedule `w`.
pub open spec fn sha1_step(s: Sha1State, w: Seq<u32>, i: nat) -> Sha1State {
    let temp = rotl_spec(s.0, 5).wrapping_add(sha1_mix(i, s.1, s.2, s.3)).wrapping_add(
        s.4,
    ).wrapping_add(sha1_constant(i)).wrapping_add(w[i as int]);
    (temp, s.0, rotl_spec(s.1, 30), s.2, s.3)
}

/// The registers after the first `n` steps over the schedule `w`.
pub open spec fn sha1_steps(s: Sha1State, w: Seq<u32>, n: nat) -> Sha1State
    decreases n,
{
    if n == 0 {
        s
    } else {
        sha1_step(sha1_steps(s, w, (n - 1) as nat), w, (n - 1) as nat)
    }
}

/// The accumulator after one block of `rounds` steps.
pub open spec fn sha1_block(h: Sha1State, m: Seq<u32>, rounds: nat) -> Sha1State {
    let s = sha1_steps(h, sha1_schedule(m, 80), rounds);
    (
        h.0.wrapping_add(s.0),
        h.1.wrapping_add(s.1),
        h.2.wrapping_add(s.2),
        h.3.wrapping_add(s.3),
        h.4.wrapping_add(s.4),
    )
}

/// The accumulator after the first `n` blocks of the padded message `p`.
pub open spec fn sha1_blocks(p: Seq<u8>, n: nat, rounds: nat) -> Sha1State
    decreases n,
{
    if n == 0 {
        sha1_init()
    } else {
        sha1_block(
            sha1_blocks(p, (n - 1) as nat, rounds),
            block_words(p, n - 1, ByteOrder::Big),
            rounds,
        )
    }
}

/// The SHA-1 digest words of `msg` with `rounds` steps per block.
pub open spec fn sha1_rounds_spec(msg: Seq<u8>, rounds: nat) -> Seq<u32> {
    let p = pad_spec(msg, ByteOrder::Big);
    let h = sha1_blocks(p, p.len() / 64, rounds);
    seq![h.0, h.1, h.2, h.3, h.4]
}

/// The standard SHA-1 digest words of `msg`.
pub open spec fn sha1_spec(msg: Seq<u8>) -> Seq<u32> {
    sha1_rounds_spec(msg, 80)
}

/// Expands sixteen block words into the eighty-word schedule.
fn expand(m: &Vec<u32>) -> (w: Vec<u32>)
    requires
        m@.len() == 16,
    ensures
        w@ == sha1_schedule(m@, 80),
        w@.len() == 80,
{
    let mut w: Vec<u32> = Vec::new();
    let mut i: usize = 0;
    while i < 16
        invariant
            i <= 16,
            m@.len() == 16,
            w@ =~= m@.subrange(0, i as int),
        decreases 16 - i,
    {
        w.push(m[i]);
        i = i + 1;
        assert(w@ =~= m@.subrange(0, i as int));
    }
    while i < 80
        invariant
            16 <= i <= 80,
            m@.len() == 16,
            w@ == sha1_schedule(m@, i as nat),
            w@.len() == i,
        decreases 80 - i,
    {
        let x = w[i - 3] ^ w[i - 8] ^ w[i - 14] ^ w[i - 16];
        w.push(rotl(x, 1));
        i = i + 1;
    }
    w
}

/// Runs step `i` of a block.
fn sha1_step_exec(s: Sha1State, w: &Vec<u32>, i: usize) -> (r: Sha1State)
    requires
        i < w@.len(),
    ensures
        r == sha1_step(s, w@, i as nat),
{
    let (a, b, c, d, e) = s;
    let (f, k) = if i < 20 {
        ((b & c) | (!b & d), 0x5A827999u32)
    } else if i < 40 {
        (b ^ c ^ d, 0x6ED9EBA1u32)
    } else if i < 60 {
        ((b & c) | (b & d) | (c & d), 0x8F1BBCDCu32)
    } else {
        (b ^ c ^ d, 0xCA62C1D6u32)
    };
    let temp = rotl(a, 5).wrapping_add(f).wrapping_add(e).wrapping_add(k).wrapping_add(w[i]);
    (temp, a, rotl(b, 30), c, d)
}

/// Folds one block of `rounds` steps into the accumulator `h`.
fn sha1_compress(h: Sha1State, m: &Vec<u32>, rounds: usize) -> (r: Sha1State)
    requires
        m@.len() == 16,
        rounds <= 80,
    ensures
        r == sha1_block(h, m@, rounds as nat),
{
    let w = expand(m);
    let mut s = h;
    let mut i: usize = 0;
    while i < rounds
        invariant
            i <= rounds <= 80,
            w@.len() == 80,
            w@ == sha1_schedule(m@, 80),
            s == sha1_steps(h, w@, i as nat),
        decreases rounds - i,
    {
        s = sha1_step_exec(s, &w, i);
        i = i + 1;
    }
    (
        h.0.wrapping_add(s.0),
        h.1.wrapping_add(s.1),
        h.2.wrapping_add(s.2),
        h.3.wrapping_add(s.3),
        h.4.wrapping_add(s.4),
    )
}

/// SHA-1 of `input` with `rounds` mixing steps per block instead of 80. The
/// schedule has eighty words, so at most eighty steps can run.
pub fn sha1_rounds(input: &[u8], rounds: usize) -> (r: SHA1Digest)
    requires
        fits(input@.len()),
        rounds <= 80,
    ensures
        r@ == sha1_rounds_spec(input@, rounds as nat),
{
    let p = pad(input, ByteOrder::Big);
    proof {
        crate::padding::lemma_pad_shape(input@, ByteOrder::Big);
    }
    let n = p.len() / 64;
    let mut h: Sha1State = (0x67452301u32, 0xEFCDAB89u32, 0x98BADCFEu32, 0x10325476u32, 0xC3D2E1F0u32);
    let mut blk: usize = 0;
    while blk < n
        invariant
            blk <= n,
            n == p@.len() / 64,
            p@.len() % 64 == 0,
            p@.len() <= usize::MAX,
            rounds <= 80,
            h == sha1_blocks(p@, blk as nat, rounds as nat),
        decreases n - blk,
    {
        let m = load_block(p.as_slice(), blk, ByteOrder::Big);
        h = sha1_compress(h, &m, rounds);
        blk = blk + 1;
    }
    SHA1Digest::new([h.0, h.1, h.2, h.3, h.4])
}

/// Standard SHA-1 of `input`.
pub fn sha1(input: &[u8]) -> (r: SHA1Digest)
    requires
        fits(input@.len()),
    ensures
        r@ == sha1_spec(input@),
{
    sha1_rounds(input, 80)
}

/// Running SHA-1 with 80 steps per block is standard SHA-1.
pub proof fn lemma_sha1_standard_rounds(msg: Seq<u8>)
    ensures
        sha1_rounds_spec(msg, 80) == sha1_spec(msg),
{
}

/// A SHA-1 digest: the five accumulator words.
pub struct SHA1Digest {
    values: [u32; 5],
}

impl View for SHA1Digest {
    type V = Seq<u32>;

    closed spec fn view(&self) -> Seq<u32> {
        self.values@
    }
}

impl SHA1Digest {
    /// A digest holding the given words.
    pub fn new(values: [u32; 5]) -> (r: SHA1Digest)
        ensures
            r@ == values@,
    {
        SHA1Digest { values }
    }

    /// Two digests differ in no bit exactly when they are equal, the
    /// difference is symmetric, and it is at most 160, the number of bits
    /// of a digest.
    pub proof fn lemma_diff_laws(d1: &SHA1Digest, d2: &SHA1Digest)
        ensures
            distance(d1@, d1@) == 0,
            distance(d1@, d2@) == distance(d2@, d1@),
            distance(d1@, d2@) <= 160,
            distance(d1@, d2@) == 0 <==> d1@ == d2@,
    {
        crate::bits::lemma_distance_laws(d1@, d2@);
        if distance(d1@, d2@) == 0 {
            crate::bits::lemma_distance_zero(d1@, d2@);
        }
    }

    /// The digest's bytes, each word big-endian, as lowercase hexadecimal.
    pub fn to_hex(&self) -> (r: String)
        ensures
            r@ == hex_text_spec(self@, ByteOrder::Big),
    {
        hex_text(self.values.as_slice(), ByteOrder::Big)
    }

    /// Number of bits in which the two digests differ.
    pub fn diff_with(&self, other: &SHA1Digest) -> (r: u32)
        ensures
            r as nat == distance(self@, other@),
    {
        diff_words(self.values.as_slice(), other.values.as_slice())
    }
}

} // verus!
