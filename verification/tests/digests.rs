use isc::checksum::digest_bytes;
use isc::configuration::Algorithm;
use sha2::Digest;

#[test]
fn digest_size_matches_algorithm() {
    assert_eq!(Algorithm::SHA2_256.digest_size(), 32);
    assert_eq!(Algorithm::SHA2_512.digest_size(), 64);
    assert_eq!(Algorithm::SHA3_256.digest_size(), 32);
    assert_eq!(Algorithm::SHA3_512.digest_size(), 64);
}

#[test]
fn digest_width_matches_for_every_algorithm() {
    let data: Vec<u8> = b"some file content".to_vec();
    for alg in [
        Algorithm::SHA2_256,
        Algorithm::SHA2_512,
        Algorithm::SHA3_256,
        Algorithm::SHA3_512,
    ] {
        let digest = digest_bytes(&alg, &data);
        assert_eq!(digest.len(), alg.digest_size());
    }
}

#[test]
fn digest_is_deterministic() {
    let first: Vec<u8> = b"hello".to_vec();
    let second: Vec<u8> = b"hello".to_vec();
    for alg in [
        Algorithm::SHA2_256,
        Algorithm::SHA2_512,
        Algorithm::SHA3_256,
        Algorithm::SHA3_512,
    ] {
        assert_eq!(digest_bytes(&alg, &first), digest_bytes(&alg, &first));
        assert_eq!(digest_bytes(&alg, &first), digest_bytes(&alg, &second));
    }
}

#[test]
fn different_contents_differ() {
    let a: Vec<u8> = b"hello".to_vec();
    let b: Vec<u8> = b"world".to_vec();
    assert_ne!(
        digest_bytes(&Algorithm::SHA2_256, &a),
        digest_bytes(&Algorithm::SHA2_256, &b)
    );
}

#[test]
fn sha2_256_known_value() {
    let data: Vec<u8> = b"hello".to_vec();
    let expected: Vec<u8> = vec![
        0x2c, 0xf2, 0x4d, 0xba, 0x5f, 0xb0, 0xa3, 0x0e, 0x26, 0xe8, 0x3b, 0x2a, 0xc5, 0xb9, 0xe2,
        0x9e, 0x1b, 0x16, 0x1e, 0x5c, 0x1f, 0xa7, 0x42, 0x5e, 0x73, 0x04, 0x33, 0x62, 0x93, 0x8b,
        0x98, 0x24,
    ];
    assert_eq!(digest_bytes(&Algorithm::SHA2_256, &data), expected);
}

#[test]
fn digests_agree_with_hash_crates() {
    let data: Vec<u8> = b"cross-checked content".to_vec();
    assert_eq!(
        digest_bytes(&Algorithm::SHA2_256, &data),
        sha2::Sha256::digest(&data).to_vec()
    );
    assert_eq!(
        digest_bytes(&Algorithm::SHA2_512, &data),
        sha2::Sha512::digest(&data).to_vec()
    );
    assert_eq!(
        digest_bytes(&Algorithm::SHA3_256, &data),
        sha3::Sha3_256::digest(&data).to_vec()
    );
    assert_eq!(
        digest_bytes(&Algorithm::SHA3_512, &data),
        sha3::Sha3_512::digest(&data).to_vec()
    );
}

#[test]
fn digest_is_not_the_input() {
    let data: Vec<u8> = vec![1, 2, 3];
    let digest = digest_bytes(&Algorithm::SHA2_256, &data);
    assert_ne!(digest, data);
    let empty: Vec<u8> = Vec::new();
    let digest_of_empty = digest_bytes(&Algorithm::SHA2_256, &empty);
    assert_eq!(digest_of_empty.len(), 32);
    assert_ne!(digest_of_empty, empty);
}
