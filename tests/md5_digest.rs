use hashdiff::md5::{md5, md5_rounds, MD5Digest};

#[test]
fn test_md5_debug_format() {
    let hash = MD5Digest::new([
        u32::from_be(0x9e107d9d),
        u32::from_be(0x372bb682),
        u32::from_be(0x6bd81d35),
        u32::from_be(0x42a419d6),
    ]);
    assert_eq!(hash.to_hex(), "9e107d9d372bb6826bd81d3542a419d6");
}

#[test]
fn test_md5_simple() {
    let hash = md5(b"The quick brown fox jumps over the lazy dog");
    assert_eq!(hash.to_hex(), "9e107d9d372bb6826bd81d3542a419d6");
}

#[test]
fn test_md5_little_change() {
    let hash = md5(b"The quick brown fox jumps over the lazy dog.");
    assert_eq!(hash.to_hex(), "e4d909c290d0fb1ca068ffaddf22cbd0");
}

#[test]
fn test_md5_empty() {
    let hash = md5(b"");
    assert_eq!(hash.to_hex(), "d41d8cd98f00b204e9800998ecf8427e");
}

#[test]
fn test_md5_one_char() {
    let hash = md5(b"a");
    assert_eq!(hash.to_hex(), "0cc175b9c0f1b6a831c399e269772661");
}

#[test]
fn md5_abc() {
    assert_eq!(md5(b"abc").to_hex(), "900150983cd24fb0d6963f7d28e17f72");
}

#[test]
fn md5_two_blocks() {
    let msg = b"12345678901234567890123456789012345678901234567890123456789012345678901234567890";
    assert_eq!(md5(msg).to_hex(), "57edf4a22be3c955ac49da2e2107b67a");
}

#[test]
fn md5_standard_step_count() {
    let msg = b"The quick brown fox jumps over the lazy dog";
    assert_eq!(md5_rounds(msg, 64).to_hex(), md5(msg).to_hex());
    assert_eq!(md5_rounds(b"", 64).to_hex(), md5(b"").to_hex());
}

#[test]
fn md5_zero_steps_doubles_initial_words() {
    assert_eq!(md5_rounds(b"", 0).to_hex(), "02468ace12579bdffcb97531eca86420");
}

#[test]
fn md5_step_counts_beyond_64_differ() {
    let msg = b"abc";
    assert_ne!(md5_rounds(msg, 65).to_hex(), md5(msg).to_hex());
    assert_ne!(md5_rounds(msg, 63).to_hex(), md5(msg).to_hex());
}

#[test]
fn md5_diff_laws() {
    let d1 = md5(b"abc");
    let d2 = md5(b"abd");
    assert_eq!(d1.diff_with(&md5(b"abc")), 0);
    assert_eq!(d1.diff_with(&d2), d2.diff_with(&d1));
    assert!(d1.diff_with(&d2) <= 128);
}

#[test]
fn md5_diff_exact() {
    let zero = MD5Digest::new([0, 0, 0, 0]);
    let some = MD5Digest::new([0xffff_ffff, 1, 0, 0x8000_0000]);
    assert_eq!(zero.diff_with(&some), 34);
    let ones = MD5Digest::new([u32::MAX; 4]);
    assert_eq!(zero.diff_with(&ones), 128);
}
