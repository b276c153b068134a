//! Message padding shared by MD5 and SHA-1: a marker byte, zero fill up to 56
//! modulo 64, then the message length in bits as a 64-bit field.
use vstd::prelude::*;

verus! {

/// Byte order of the length field and of the words read from a block.
#[derive(Clone, Copy, PartialEq, Eq, Structural, Debug)]
pub enum ByteOrder {
    Little,
    Big,
}

/// Number of zero bytes placed after the marker for a message of `len` bytes.
pub open spec fn zero_fill(len: nat) -> nat {
    ((55 - len as int) % 64) as nat
}

/// The lowest `n` bytes of `v`, least significant first.
pub open spec fn le_bytes(v: u64, n: nat) -> Seq<u8>
    decreases n,
{
    if n == 0 {
        Seq::empty()
    } else {
        seq![(v & 0xff) as u8] + le_bytes(v >> 8, (n - 1) as nat)
    }
}

/// The eight bytes of `v` in the given order.
pub open spec fn u64_bytes(v: u64, order: ByteOrder) -> Seq<u8> {
    match order {
        ByteOrder::Little => le_bytes(v, 8),
        ByteOrder::Big => le_bytes(v, 8).reverse(),
    }
}

/// Value of a byte string read least significant byte first.
pub open spec fn decode_le(s: Seq<u8>) -> int
    decreases s.len(),
{
    if s.len() == 0 {
        0
    } else {
        s[0] as int + 256 * decode_le(s.subrange(1, s.len() as int))
    }
}

/// Value of a byte string in the given order.
pub open spec fn decode(s: Seq<u8>, order: ByteOrder) -> int {
    match order {
        ByteOrder::Little => decode_le(s),
        ByteOrder::Big => decode_le(s.reverse()),
    }
}

/// Message, marker byte and zero fill: everything before the length field.
pub open spec fn marked(msg: Seq<u8>) -> Seq<u8> {
    msg + seq![0x80u8] + Seq::new(zero_fill(msg.len()), |i: int| 0u8)
}

/// The padded message: marker, zero fill, then the bit length of `msg`.
pub open spec fn pad_spec(msg: Seq<u8>, order: ByteOrder) -> Seq<u8> {
    marked(msg) + u64_bytes((msg.len() * 8) as u64, order)
}

/// A message whose bit length fits the length field and the address space.
pub open spec fn fits(len: nat) -> bool {
    len * 8 <= usize::MAX
}

/// `256^n`.
pub open spec fn radix(n: nat) -> int
    decreases n,
{
    if n == 0 {
        1
    } else {
        256 * radix((n - 1) as nat)
    }
}

proof fn lemma_byte_split(x: u64)
    ensures
        x as int == (x & 0xff) as int + 256 * (x >> 8) as int,
        (x & 0xff) as u8 as int == (x & 0xff) as int,
{
    assert(x & 0xff == x % 256) by (bit_vector);
    assert(x >> 8 == x / 256) by (bit_vector);
    assert((x & 0xff) < 256) by (bit_vector);
}

proof fn lemma_decode_le_bytes(v: u64, n: nat)
    requires
        (v as int) < radix(n),
    ensures
        le_bytes(v, n).len() == n,
        decode_le(le_bytes(v, n)) == v as int,
    decreases n,
{
    if n == 0 {
        assert(v == 0);
    } else {
        let s = le_bytes(v, n);
        lemma_byte_split(v);
        assert((v >> 8) as int <= v as int / 256) by {
            assert(v >> 8 == v / 256) by (bit_vector);
        }
        assert(((v >> 8) as int) < radix((n - 1) as nat)) by (nonlinear_arith)
            requires
                (v >> 8) as int <= v as int / 256,
                (v as int) < 256 * radix((n - 1) as nat),
        ;
        lemma_decode_le_bytes(v >> 8, (n - 1) as nat);
        assert(s.subrange(1, s.len() as int) =~= le_bytes(v >> 8, (n - 1) as nat));
    }
}

/// The padded message is a whole number of 64-byte blocks, longer than the
/// message, and its last eight bytes read back, in the padding's byte order,
/// as the message length in bits.
pub proof fn lemma_pad_shape(msg: Seq<u8>, order: ByteOrder)
    requires
        fits(msg.len()),
    ensures
        pad_spec(msg, order).len() % 64 == 0,
        pad_spec(msg, order).len() > msg.len(),
        decode(pad_spec(msg, order).subrange(
            pad_spec(msg, order).len() - 8,
            pad_spec(msg, order).len() as int,
        ), order) == msg.len() * 8,
{
    let p = pad_spec(msg, order);
    let v = (msg.len() * 8) as u64;
    reveal_with_fuel(radix, 9);
    assert(radix(8) == 0x1_0000_0000_0000_0000);
    lemma_decode_le_bytes(v, 8);
    let field = u64_bytes(v, order);
    assert(p.subrange(p.len() - 8, p.len() as int) =~= field);
    if order == ByteOrder::Big {
        assert(field.reverse() =~= le_bytes(v, 8));
    }
}

/// Copies `input` and appends the marker byte and the zero fill.
pub fn padded(input: &[u8]) -> (r: Vec<u8>)
    ensures
        r@ == marked(input@),
{
    let mut out: Vec<u8> = Vec::new();
    let mut i: usize = 0;
    while i < input.len()
        invariant
            i <= input@.len(),
            out@ == input@.subrange(0, i as int),
        decreases input@.len() - i,
    {
        out.push(input[i]);
        i = i + 1;
        assert(out@ =~= input@.subrange(0, i as int));
    }
    out.push(0x80u8);
    let ghost target = input@.len() + 1 + zero_fill(input@.len());
    assert((target as int) % 64 == 56);
    while out.len() % 64 != 56
        invariant
            input@.len() + 1 <= out@.len() <= target,
            target == input@.len() + 1 + zero_fill(input@.len()),
            (target as int) % 64 == 56,
            out@ =~= input@ + seq![0x80u8] + Seq::new((out@.len() - input@.len() - 1) as nat, |j: int| 0u8),
        decreases target - out@.len(),
    {
        assert(out@.len() < target);
        out.push(0u8);
    }
    assert(out@.len() == target) by {
        assert(zero_fill(input@.len()) < 64);
    }
    assert(out@ =~= marked(input@));
    out
}

/// Appends the eight bytes of `v`, least significant first.
fn push_le_bytes(out: &mut Vec<u8>, v: u64)
    ensures
        final(out)@ == old(out)@ + le_bytes(v, 8),
{
    let ghost start = out@;
    let mut w: u64 = v;
    let mut i: usize = 0;
    while i < 8
        invariant
            i <= 8,
            out@ + le_bytes(w, (8 - i) as nat) == start + le_bytes(v, 8),
        decreases 8 - i,
    {
        let ghost before = out@;
        out.push((w & 0xff) as u8);
        assert(out@ + le_bytes(w >> 8, (8 - i - 1) as nat) =~= before + le_bytes(w, (8 - i) as nat));
        w = w >> 8;
        i = i + 1;
    }
    assert(le_bytes(w, 0) =~= Seq::<u8>::empty());
    assert(out@ =~= start + le_bytes(v, 8));
}

/// Appends the eight bytes of `v` in the given order.
fn push_u64(out: &mut Vec<u8>, v: u64, order: ByteOrder)
    ensures
        final(out)@ == old(out)@ + u64_bytes(v, order),
{
    match order {
        ByteOrder::Little => push_le_bytes(out, v),
        ByteOrder::Big => {
            let mut le: Vec<u8> = Vec::new();
            push_le_bytes(&mut le, v);
            assert(le@ =~= le_bytes(v, 8));
            proof {
                lemma_le_bytes_len(v, 8);
            }
            let ghost start = out@;
            let mut j: usize = 0;
            while j < 8
                invariant
                    j <= 8,
                    le@.len() == 8,
                    out@ =~= start + le@.reverse().subrange(0, j as int),
                decreases 8 - j,
            {
                out.push(le[7 - j]);
                j = j + 1;
                assert(out@ =~= start + le@.reverse().subrange(0, j as int));
            }
            assert(le@.reverse().subrange(0, 8) =~= le@.reverse());
        },
    }
}

proof fn lemma_le_bytes_len(v: u64, n: nat)
    ensures
        le_bytes(v, n).len() == n,
    decreases n,
{
    if n > 0 {
        lemma_le_bytes_len(v >> 8, (n - 1) as nat);
    }
}

/// Pads `input` for a block size of 64 bytes, with the length field in the
/// given byte order.
pub fn pad(input: &[u8], order: ByteOrder) -> (r: Vec<u8>)
    requires
        fits(input@.len()),
    ensures
        r@ == pad_spec(input@, order),
{
    let bits = (input.len() * 8) as u64;
    let mut out = padded(input);
    push_u64(&mut out, bits, order);
    out
}

/// The 32-bit word stored at `at` in `b`, in the given byte order.
pub open spec fn word_spec(b: Seq<u8>, at: int, order: ByteOrder) -> u32 {
    match order {
        ByteOrder::Little => (b[at] as u32) | ((b[at + 1] as u32) << 8u32) | ((b[at + 2] as u32)
            << 16u32) | ((b[at + 3] as u32) << 24u32),
        ByteOrder::Big => ((b[at] as u32) << 24u32) | ((b[at + 1] as u32) << 16u32) | ((b[at
            + 2] as u32) << 8u32) | (b[at + 3] as u32),
    }
}

/// The sixteen words of block number `blk` of the padded message `p`.
pub open spec fn block_words(p: Seq<u8>, blk: int, order: ByteOrder) -> Seq<u32> {
    Seq::new(16, |j: int| word_spec(p, 64 * blk + 4 * j, order))
}

/// Reads the 32-bit word at `at` in the given byte order.
pub fn to_u32(b: &[u8], at: usize, order: ByteOrder) -> (r: u32)
    requires
        at + 4 <= b@.len(),
    ensures
        r == word_spec(b@, at as int, order),
{
    match order {
        ByteOrder::Little => (b[at] as u32) | ((b[at + 1] as u32) << 8u32) | ((b[at + 2] as u32)
            << 16u32) | ((b[at + 3] as u32) << 24u32),
        ByteOrder::Big => ((b[at] as u32) << 24u32) | ((b[at + 1] as u32) << 16u32) | ((b[at
            + 2] as u32) << 8u32) | (b[at + 3] as u32),
    }
}

/// Reads the sixteen words of block number `blk`.
pub fn load_block(p: &[u8], blk: usize, order: ByteOrder) -> (r: Vec<u32>)
    requires
        64 * blk + 64 <= p@.len(),
        p@.len() <= usize::MAX,
    ensures
        r@ == block_words(p@, blk as int, order),
{
    let mut w: Vec<u32> = Vec::new();
    let base = 64 * blk;
    let mut j: usize = 0;
    while j < 16
        invariant
            j <= 16,
            base == 64 * blk,
            base + 64 <= p@.len(),
            w@ =~= block_words(p@, blk as int, order).subrange(0, j as int),
        decreases 16 - j,
    {
        w.push(to_u32(p, base + 4 * j, order));
        j = j + 1;
        assert(w@ =~= block_words(p@, blk as int, order).subrange(0, j as int));
    }
    assert(w@ =~= block_words(p@, blk as int, order));
    w
}

} // verus!
