use hashdiff::sha1::{sha1, sha1_rounds, SHA1Digest};

#[test]
fn test_debug_format() {
    // The words are written with their bytes in reverse order.
    let hash = SHA1Digest::new([
        0x7F2C9FDEu32.swap_bytes(),
        0x3A1B5ED2u32.swap_bytes(),
        0x5AE8D3FAu32.swap_bytes(),
        0x9B7DD10Bu32.swap_bytes(),
        0xB3B40D10u32.swap_bytes(),
    ]);
    assert_eq!(hash.to_hex(), "de9f2c7fd25e1b3afad3e85a0bd17d9b100db4b3");
}

#[test]
fn sha1_words_print_big_endian() {
    let hash = SHA1Digest::new([0x7F2C9FDE, 0x3A1B5ED2, 0x5AE8D3FA, 0x9B7DD10B, 0xB3B40D10]);
    assert_eq!(hash.to_hex(), "7f2c9fde3a1b5ed25ae8d3fa9b7dd10bb3b40d10");
}

#[test]
fn test_sha1() {
    let hash = sha1(b"The quick brown fox jumps over the lazy dog");
    assert_eq!(hash.to_hex(), "2fd4e1c67a2d28fced849ee1bb76e7391b93eb12");
}

#[test]
fn test_sha1_little_change() {
    let hash = sha1(b"The quick brown fox jumps over the lazy cog");
    assert_eq!(hash.to_hex(), "de9f2c7fd25e1b3afad3e85a0bd17d9b100db4b3");
}

#[test]
fn test_sha1_empty() {
    let hash = sha1(b"");
    assert_eq!(hash.to_hex(), "da39a3ee5e6b4b0d3255bfef95601890afd80709");
}

#[test]
fn test_sha1_one_char() {
    let hash = sha1(b"a");
    assert_eq!(hash.to_hex(), "86f7e437faa5a7fce15d1ddcb9eaeaea377667b8");
}

#[test]
fn sha1_abc() {
    assert_eq!(sha1(b"abc").to_hex(), "a9993e364706816aba3e25717850c26c9cd0d89d");
}

#[test]
fn sha1_two_blocks() {
    let msg = b"abcdbcdecdefdefgefghfghighijhijkijkljklmklmnlmnomnopnopq";
    assert_eq!(sha1(msg).to_hex(), "84983e441c3bd26ebaae4aa1f95129e5e54670f1");
}

#[test]
fn sha1_standard_step_count() {
    let msg = b"The quick brown fox jumps over the lazy dog";
    assert_eq!(sha1_rounds(msg, 80).to_hex(), sha1(msg).to_hex());
    assert_eq!(sha1_rounds(b"", 80).to_hex(), sha1(b"").to_hex());
}

#[test]
fn sha1_zero_steps_doubles_initial_words() {
    assert_eq!(sha1_rounds(b"", 0).to_hex(), "ce8a4602df9b57123175b9fc2064a8ec87a5c3e0");
}

#[test]
fn sha1_fewer_steps_differ() {
    assert_ne!(sha1_rounds(b"abc", 79).to_hex(), sha1(b"abc").to_hex());
}

#[test]
fn sha1_diff_laws() {
    let d1 = sha1(b"abc");
    let d2 = sha1(b"abd");
    assert_eq!(d1.diff_with(&sha1(b"abc")), 0);
    assert_eq!(d1.diff_with(&d2), d2.diff_with(&d1));
    assert!(d1.diff_with(&d2) <= 160);
}

#[test]
fn sha1_diff_exact() {
    let zero = SHA1Digest::new([0, 0, 0, 0, 0]);
    let some = SHA1Digest::new([0, 0x0f0f_0f0f, 0, 0, 3]);
    assert_eq!(zero.diff_with(&some), 18);
    let ones = SHA1Digest::new([u32::MAX; 5]);
    assert_eq!(ones.diff_with(&zero), 160);
}
