//! Tests for the byte-level utilities.

use std::time::{Duration, Instant};

use mcafee::utils::{enforce_delay, pad_to_block_size, random_bytes, xor_bytes};

#[test]
fn test_xor_bytes() {
    let a = vec![1, 2, 3, 4];
    let b = vec![5, 6, 7, 8];
    let result = xor_bytes(&a, &b);
    assert_eq!(result, vec![4, 4, 4, 12]);

    // XOR with itself should yield zeros
    let zeros = xor_bytes(&a, &a);
    assert!(zeros.iter().all(|&x| x == 0));
}

#[test]
fn test_xor_bytes_truncates_to_shorter() {
    let a = vec![0xffu8, 0x0f, 0xf0];
    let b = vec![0x0fu8, 0x0f];
    assert_eq!(xor_bytes(&a, &b), vec![0xf0, 0x00]);
    assert_eq!(xor_bytes(&b, &a), vec![0xf0, 0x00]);
    assert_eq!(xor_bytes(&[], &a), Vec::<u8>::new());
}

#[test]
fn test_random_bytes() {
    let bytes1 = random_bytes(1000);
    let bytes2 = random_bytes(1000);
    assert_eq!(bytes1.len(), 1000);
    assert_eq!(bytes2.len(), 1000);
    assert_ne!(bytes1, bytes2); // Should be different (astronomically unlikely to be same)
}

#[test]
fn test_enforce_delay() {
    let start = Instant::now();
    let delay = Duration::from_millis(100);
    enforce_delay(&start, 100_000_000);
    assert!(start.elapsed() >= delay);
}

#[test]
fn test_pad_to_block_size() {
    let data = vec![1, 2, 3];
    let block_size = 16;
    let padded = pad_to_block_size(&data, block_size);
    assert_eq!(padded.len(), 16);
    assert_eq!(&padded[..3], &[1, 2, 3]);
}

#[test]
fn test_pad_to_block_size_already_aligned() {
    let data = vec![7u8; 32];
    let padded = pad_to_block_size(&data, 16);
    assert_eq!(padded.len(), 32);
    assert_eq!(padded, data);
}
