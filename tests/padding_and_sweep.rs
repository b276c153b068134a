use hashdiff::diffusion::{md5_diffusion, sha1_diffusion};
use hashdiff::md5::md5_rounds;
use hashdiff::padding::{pad, ByteOrder};
use hashdiff::sha1::sha1_rounds;

fn read_le(b: &[u8]) -> u64 {
    let mut v: u64 = 0;
    for (i, x) in b.iter().enumerate() {
        v |= (*x as u64) << (8 * i);
    }
    v
}

#[test]
fn pad_lengths_are_whole_blocks() {
    for len in 0..200usize {
        let msg = vec![0x61u8; len];
        for order in [ByteOrder::Little, ByteOrder::Big] {
            let p = pad(&msg, order);
            assert_eq!(p.len() % 64, 0);
            assert!(p.len() > len);
            assert_eq!(&p[..len], &msg[..]);
            assert_eq!(p[len], 0x80);
        }
    }
}

#[test]
fn pad_edges() {
    assert_eq!(pad(&[0u8; 55], ByteOrder::Little).len(), 64);
    assert_eq!(pad(&[0u8; 56], ByteOrder::Little).len(), 128);
    assert_eq!(pad(&[0u8; 64], ByteOrder::Big).len(), 128);
    assert_eq!(pad(b"", ByteOrder::Big).len(), 64);
}

#[test]
fn pad_length_field() {
    let msg = vec![7u8; 300];
    let p = pad(&msg, ByteOrder::Little);
    assert_eq!(read_le(&p[p.len() - 8..]), 2400);
    let q = pad(&msg, ByteOrder::Big);
    let mut tail: Vec<u8> = q[q.len() - 8..].to_vec();
    tail.reverse();
    assert_eq!(read_le(&tail), 2400);
    assert_eq!(&q[q.len() - 8..], &[0, 0, 0, 0, 0, 0, 0x09, 0x60]);
    assert_eq!(&p[p.len() - 8..], &[0x60, 0x09, 0, 0, 0, 0, 0, 0]);
}

#[test]
fn md5_sweep_shape_and_bounds() {
    let totals = md5_diffusion(16, 6);
    assert_eq!(totals.len(), 5);
    for t in &totals {
        assert!(*t <= 128 * 16);
    }
    assert!(totals.iter().any(|t| *t > 0));
}

#[test]
fn sha1_sweep_shape_and_bounds() {
    let totals = sha1_diffusion(16, 6);
    assert_eq!(totals.len(), 5);
    for t in &totals {
        assert!(*t <= 160 * 16);
    }
    assert!(totals.iter().any(|t| *t > 0));
}

#[test]
fn sweep_single_input_exact() {
    let input = [0u8, 0u8];
    let md5_totals = md5_diffusion(1, 3);
    assert_eq!(md5_totals[0], md5_rounds(&input, 1).diff_with(&md5_rounds(&input, 2)) as u64);
    assert_eq!(md5_totals[1], md5_rounds(&input, 2).diff_with(&md5_rounds(&input, 3)) as u64);
    let sha1_totals = sha1_diffusion(1, 3);
    assert_eq!(sha1_totals[0], sha1_rounds(&input, 1).diff_with(&sha1_rounds(&input, 2)) as u64);
}

#[test]
fn sweep_second_input_bytes() {
    let one = md5_diffusion(2, 2)[0] - md5_diffusion(1, 2)[0];
    let input = [1u8, 0u8];
    assert_eq!(one, md5_rounds(&input, 1).diff_with(&md5_rounds(&input, 2)) as u64);
    let input = [0u8, 1u8];
    let last = md5_diffusion(257, 2)[0] - md5_diffusion(256, 2)[0];
    assert_eq!(last, md5_rounds(&input, 1).diff_with(&md5_rounds(&input, 2)) as u64);
}

#[test]
fn sweep_ceiling_one_is_empty() {
    assert!(md5_diffusion(4, 1).is_empty());
    assert!(sha1_diffusion(4, 1).is_empty());
}
