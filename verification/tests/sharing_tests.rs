//! Tests for the three-party secret sharing scheme.

use mcafee::error::{CryptoError, CryptoResult};
use mcafee::padding::ALIGNMENT;
use mcafee::sharing::{Share, SharingConfig, ThreePartySecretSharing};

#[test]
fn test_basic_sharing() -> CryptoResult<()> {
    let mut sharing = ThreePartySecretSharing::default();
    let secret = b"This is a test secret message!";

    // Split secret
    let shares = sharing.split(secret)?;
    assert_eq!(shares.len(), 3);

    // Verify shares have correct padding alignment
    for share in &shares {
        assert_eq!(share.data.len() % ALIGNMENT, 0);
        assert!(share.verify());
    }

    // Reconstruct
    let reconstructed = sharing.reconstruct(&shares)?;
    assert_eq!(&reconstructed, secret);

    Ok(())
}

#[test]
fn test_large_data_sharing() -> CryptoResult<()> {
    let mut sharing = ThreePartySecretSharing::default();
    let large_secret: Vec<u8> = (0..100_000).map(|i| (i % 256) as u8).collect();

    let shares = sharing.split(&large_secret)?;
    let reconstructed = sharing.reconstruct(&shares)?;

    assert_eq!(reconstructed, large_secret);
    Ok(())
}

#[test]
fn test_invalid_shares() -> CryptoResult<()> {
    let mut sharing = ThreePartySecretSharing::default();
    let secret = b"Test secret";

    // Split secret
    let mut shares = sharing.split(secret)?;

    // Tamper with one share
    shares[0].data[0] ^= 1;

    // Verify should fail
    assert!(!shares[0].verify());

    // Reconstruction should fail
    assert!(sharing.reconstruct(&shares).is_err());

    Ok(())
}

#[test]
fn test_parallel_large_message() -> CryptoResult<()> {
    let config = SharingConfig { parallel: true, parallel_threshold: 1024, block_size: 1024 };

    let mut sharing = ThreePartySecretSharing::new(config);
    let secret: Vec<u8> = (0..10240).map(|i| (i % 256) as u8).collect();

    let shares = sharing.split(&secret)?;
    for share in &shares {
        assert_eq!(share.data.len() % ALIGNMENT, 0);
    }

    let reconstructed = sharing.reconstruct(&shares)?;
    assert_eq!(reconstructed, secret);
    Ok(())
}

#[test]
fn test_empty_secret_rejected() {
    let mut sharing = ThreePartySecretSharing::default();
    let r = sharing.split(&[]);
    assert!(matches!(r, Err(CryptoError::InvalidInput(_))));
}

#[test]
fn test_three_byte_secret_scenario() -> CryptoResult<()> {
    // A 3-byte secret yields three 16-byte shares whose XOR is the padded
    // buffer: length prefix of 3, then the secret, then filler.
    let mut sharing = ThreePartySecretSharing::default();
    let shares = sharing.split(b"ABC")?;
    assert_eq!(shares.len(), 3);
    for share in &shares {
        assert_eq!(share.data.len(), 16);
    }
    let mut xored = vec![0u8; 16];
    for i in 0..16 {
        xored[i] = shares[0].data[i] ^ shares[1].data[i] ^ shares[2].data[i];
    }
    assert_eq!(&xored[..8], &[3, 0, 0, 0, 0, 0, 0, 0]);
    assert_eq!(&xored[8..11], b"ABC");
    let reconstructed = sharing.reconstruct(&shares)?;
    assert_eq!(&reconstructed, b"ABC");
    Ok(())
}

#[test]
fn test_share_ids_in_order() -> CryptoResult<()> {
    let mut sharing = ThreePartySecretSharing::default();
    let shares = sharing.split(b"ids")?;
    assert_eq!(shares[0].id, 0);
    assert_eq!(shares[1].id, 1);
    assert_eq!(shares[2].id, 2);
    Ok(())
}

#[test]
fn test_wrong_share_count_rejected() -> CryptoResult<()> {
    let mut sharing = ThreePartySecretSharing::default();
    let shares = sharing.split(b"A few words of secret")?;

    let two: Vec<Share> = shares[..2].to_vec();
    assert!(matches!(sharing.reconstruct(&two), Err(CryptoError::InvalidInput(_))));

    let mut four: Vec<Share> = shares.clone();
    four.push(shares[0].clone());
    assert!(matches!(sharing.reconstruct(&four), Err(CryptoError::InvalidInput(_))));
    Ok(())
}

#[test]
fn test_unequal_share_lengths_rejected() {
    let sharing = ThreePartySecretSharing::default();
    let shares = vec![
        Share::new(vec![0u8; 16], 0),
        Share::new(vec![0u8; 16], 1),
        Share::new(vec![0u8; 32], 2),
    ];
    assert!(matches!(sharing.reconstruct(&shares), Err(CryptoError::InvalidInput(_))));
}

#[test]
fn test_misaligned_share_length_rejected() {
    let sharing = ThreePartySecretSharing::default();
    let shares = vec![
        Share::new(vec![0u8; 8], 0),
        Share::new(vec![0u8; 8], 1),
        Share::new(vec![0u8; 8], 2),
    ];
    assert!(matches!(sharing.reconstruct(&shares), Err(CryptoError::InvalidInput(_))));
}

#[test]
fn test_bit_flip_anywhere_breaks_share() -> CryptoResult<()> {
    // Flipping a single bit anywhere in a share — including beyond the
    // first 32 bytes — breaks verification and reconstruction.
    let mut sharing = ThreePartySecretSharing::default();
    let secret: Vec<u8> = (0..100).map(|i| (i * 7 % 256) as u8).collect();
    for position in [0usize, 1, 31, 32, 40, 100] {
        let mut shares = sharing.split(&secret)?;
        assert!(position < shares[1].data.len());
        shares[1].data[position] ^= 0x80;
        assert!(!shares[1].verify(), "bit flip at {} not caught", position);
        assert!(matches!(
            sharing.reconstruct(&shares),
            Err(CryptoError::VerificationFailed(_))
        ));
    }
    Ok(())
}

#[test]
fn test_tampered_hash_breaks_share() -> CryptoResult<()> {
    let mut sharing = ThreePartySecretSharing::default();
    let mut shares = sharing.split(b"hash tampering")?;
    shares[2].hash[0] ^= 1;
    assert!(!shares[2].verify());
    assert!(matches!(
        sharing.reconstruct(&shares),
        Err(CryptoError::VerificationFailed(_))
    ));
    Ok(())
}

#[test]
fn test_share_hash_deterministic() {
    // The digest depends on the data alone, not on the id, and differs for
    // different data.
    let a = Share::new(vec![1, 2, 3], 0);
    let b = Share::new(vec![1, 2, 3], 1);
    let c = Share::new(vec![1, 2, 4], 2);
    assert_eq!(a.hash, b.hash);
    assert_ne!(a.hash, c.hash);
}

#[test]
fn test_sequential_matches_parallel_round_trip() -> CryptoResult<()> {
    // The same secret round-trips through both dispatch paths.
    let secret: Vec<u8> = (0..5000).map(|i| (i % 251) as u8).collect();

    let mut sequential = ThreePartySecretSharing::new(SharingConfig {
        parallel: false,
        parallel_threshold: 1024,
        block_size: 1024,
    });
    let shares = sequential.split(&secret)?;
    assert_eq!(sequential.reconstruct(&shares)?, secret);

    let mut parallel = ThreePartySecretSharing::new(SharingConfig {
        parallel: true,
        parallel_threshold: 1024,
        block_size: 1024,
    });
    let shares = parallel.split(&secret)?;
    assert_eq!(parallel.reconstruct(&shares)?, secret);

    // A parallel reconstructor accepts sequentially split shares and the
    // other way round.
    let shares = sequential.split(&secret)?;
    assert_eq!(parallel.reconstruct(&shares)?, secret);
    Ok(())
}

#[test]
fn test_block_boundary_sizes() -> CryptoResult<()> {
    // Sizes right at and around the block boundary round-trip on the
    // parallel path (the last block may be shorter than the block size).
    for size in [1008usize, 1016, 1024, 1032, 2048, 3000] {
        let secret: Vec<u8> = (0..size).map(|i| (i % 256) as u8).collect();
        let mut sharing = ThreePartySecretSharing::new(SharingConfig {
            parallel: true,
            parallel_threshold: 16,
            block_size: 1024,
        });
        let shares = sharing.split(&secret)?;
        assert_eq!(sharing.reconstruct(&shares)?, secret, "size {}", size);
    }
    Ok(())
}
