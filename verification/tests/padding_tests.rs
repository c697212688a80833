//! Tests for the padding codec.

use mcafee::error::{CryptoError, CryptoResult};
use mcafee::padding::{calculate_padded_size, pad_data, unpad_data, ALIGNMENT, LENGTH_SIZE};

#[test]
fn test_large_data_padding() -> CryptoResult<()> {
    let sizes = [100_000, 500_000, 1_000_000];

    for size in sizes {
        let original = vec![0u8; size];
        let padded = pad_data(&original)?;

        // Verify alignment
        assert_eq!(padded.len() % ALIGNMENT, 0);

        // Verify data recovery
        let unpadded = unpad_data(&padded)?;
        assert_eq!(unpadded.len(), original.len(), "Size mismatch for {}", size);
        assert_eq!(unpadded, original, "Data mismatch for {}", size);
    }

    Ok(())
}

#[test]
fn test_medical_image_size() -> CryptoResult<()> {
    let image_size = 2048 * 2048 * 2; // 8MB image
    let data = vec![0u8; image_size];
    let padded = pad_data(&data)?;
    assert_eq!(padded.len() % ALIGNMENT, 0);
    let unpadded = unpad_data(&padded)?;
    assert_eq!(unpadded.len(), image_size);
    assert_eq!(unpadded, data);
    Ok(())
}

#[test]
fn test_padding_alignment() {
    for size in (1..100).chain(1000..1100) {
        let padded_size = calculate_padded_size(size);
        assert_eq!(padded_size % ALIGNMENT, 0, "Size {} not aligned", size);
        assert!(padded_size >= size + LENGTH_SIZE, "Size {} too small", size);
    }
}

#[test]
fn test_empty_input() -> CryptoResult<()> {
    let padded = pad_data(&[])?;
    assert_eq!(padded.len(), ALIGNMENT);

    let unpadded = unpad_data(&padded)?;
    assert!(unpadded.is_empty());
    Ok(())
}

#[test]
fn test_pad_layout_for_three_bytes() -> CryptoResult<()> {
    // A 3-byte secret pads to exactly one alignment unit: an 8-byte
    // little-endian length prefix of 3, the data, then 5 filler bytes.
    let padded = pad_data(b"ABC")?;
    assert_eq!(padded.len(), 16);
    assert_eq!(&padded[..LENGTH_SIZE], &[3, 0, 0, 0, 0, 0, 0, 0]);
    assert_eq!(&padded[LENGTH_SIZE..LENGTH_SIZE + 3], b"ABC");
    assert_eq!(unpad_data(&padded)?, b"ABC");
    Ok(())
}

#[test]
fn test_unpad_rejects_short_buffer() {
    let r = unpad_data(&[1, 2, 3]);
    assert!(matches!(r, Err(CryptoError::InvalidInput(_))));
}

#[test]
fn test_unpad_rejects_overlong_prefix() {
    // Length prefix of 100 inside a 16-byte buffer overruns it.
    let mut bad = vec![0u8; 16];
    bad[0] = 100;
    let r = unpad_data(&bad);
    assert!(matches!(r, Err(CryptoError::InvalidInput(_))));
}

#[test]
fn test_round_trip_various_sizes() -> CryptoResult<()> {
    for size in [1usize, 7, 8, 15, 16, 17, 255, 4096] {
        let original: Vec<u8> = (0..size).map(|i| (i % 256) as u8).collect();
        let padded = pad_data(&original)?;
        assert_eq!(padded.len() % ALIGNMENT, 0);
        assert!(padded.len() >= size + LENGTH_SIZE);
        assert_eq!(unpad_data(&padded)?, original);
    }
    Ok(())
}
