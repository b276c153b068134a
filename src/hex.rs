//! Canonical text of a digest: its bytes as lowercase hexadecimal pairs.
use vstd::prelude::*;
use vstd::string::StringExecFns;
use crate::padding::ByteOrder;

verus! {

/// The lowercase hexadecimal digit of `n` (below 16).
pub open spec fn hex_char(n: u8) -> char {
    seq!['0', '1', '2', '3', '4', '5', '6', '7', '8', '9', 'a', 'b', 'c', 'd', 'e', 'f'][n as int]
}

/// The four bytes of `w` in the given order.
pub open spec fn word_bytes(w: u32, order: ByteOrder) -> Seq<u8> {
    match order {
        ByteOrder::Little => seq![w as u8, (w >> 8) as u8, (w >> 16) as u8, (w >> 24) as u8],
        ByteOrder::Big => seq![(w >> 24) as u8, (w >> 16) as u8, (w >> 8) as u8, w as u8],
    }
}

/// The bytes of the words of `ws`, each word in the given order.
pub open spec fn words_bytes(ws: Seq<u32>, order: ByteOrder) -> Seq<u8>
    decreases ws.len(),
{
    if ws.len() == 0 {
        Seq::empty()
    } else {
        words_bytes(ws.drop_last(), order) + word_bytes(ws.last(), order)
    }
}

/// Two lowercase hexadecimal digits per byte, high half first.
pub open spec fn hex_of_bytes(b: Seq<u8>) -> Seq<char>
    decreases b.len(),
{
    if b.len() == 0 {
        Seq::empty()
    } else {
        hex_of_bytes(b.drop_last()) + seq![hex_char(b.last() >> 4), hex_char(b.last() & 0xf)]
    }
}

/// The text of a digest whose words are written in the given byte order.
pub open spec fn hex_text_spec(ws: Seq<u32>, order: ByteOrder) -> Seq<char> {
    hex_of_bytes(words_bytes(ws, order))
}

fn hex_digit(n: u8) -> (r: &'static str)
    requires
        n < 16,
    ensures
        r@ == seq![hex_char(n)],
{
    proof {
        reveal_strlit("0");
        reveal_strlit("1");
        reveal_strlit("2");
        reveal_strlit("3");
        reveal_strlit("4");
        reveal_strlit("5");
        reveal_strlit("6");
        reveal_strlit("7");
        reveal_strlit("8");
        reveal_strlit("9");
        reveal_strlit("a");
        reveal_strlit("b");
        reveal_strlit("c");
        reveal_strlit("d");
        reveal_strlit("e");
        reveal_strlit("f");
    }
    match n {
        0 => "0",
        1 => "1",
        2 => "2",
        3 => "3",
        4 => "4",
        5 => "5",
        6 => "6",
        7 => "7",
        8 => "8",
        9 => "9",
        10 => "a",
        11 => "b",
        12 => "c",
        13 => "d",
        14 => "e",
        _ => "f",
    }
}

fn push_hex_byte(s: &mut String, b: u8)
    ensures
        final(s)@ == old(s)@ + seq![hex_char(b >> 4), hex_char(b & 0xf)],
{
    assert(b >> 4 < 16) by (bit_vector);
    assert(b & 0xf < 16) by (bit_vector);
    let ghost start = s@;
    s.append(hex_digit(b >> 4));
    s.append(hex_digit(b & 0xf));
    assert(s@ =~= start + seq![hex_char(b >> 4), hex_char(b & 0xf)]);
}

/// Writes each word's bytes in the given order as lowercase hexadecimal.
pub fn hex_text(words: &[u32], order: ByteOrder) -> (r: String)
    ensures
        r@ == hex_text_spec(words@, order),
{
    let mut s = String::new();
    let mut j: usize = 0;
    while j < words.len()
        invariant
            j <= words@.len(),
            s@ == hex_of_bytes(words_bytes(words@.subrange(0, j as int), order)),
        decreases words@.len() - j,
    {
        let w = words[j];
        let bytes: [u8; 4] = match order {
            ByteOrder::Little => [w as u8, (w >> 8) as u8, (w >> 16) as u8, (w >> 24) as u8],
            ByteOrder::Big => [(w >> 24) as u8, (w >> 16) as u8, (w >> 8) as u8, w as u8],
        };
        assert(bytes@ =~= word_bytes(w, order));
        let ghost prefix = words_bytes(words@.subrange(0, j as int), order);
        let mut k: usize = 0;
        while k < 4
            invariant
                k <= 4,
                bytes@ == word_bytes(w, order),
                s@ == hex_of_bytes(prefix + bytes@.subrange(0, k as int)),
            decreases 4 - k,
        {
            let ghost before = prefix + bytes@.subrange(0, k as int);
            push_hex_byte(&mut s, bytes[k]);
            k = k + 1;
            assert((prefix + bytes@.subrange(0, k as int)).drop_last() =~= before);
        }
        assert(words@.subrange(0, j + 1 as int).drop_last() =~= words@.subrange(0, j as int));
        assert(prefix + bytes@.subrange(0, 4) =~= words_bytes(words@.subrange(0, j + 1 as int), order));
        j = j + 1;
    }
    assert(words@.subrange(0, j as int) =~= words@);
    s
}

} // verus!
