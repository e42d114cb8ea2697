use sha2::Digest;
use veritas::signer::{
    assemble_signed_image, commitment_input, compute_lattice_hash, generate_keypair, hash_out_to_bytes,
    signing_preimage, verify_signature, HashPreimage, SigningMode, GOLDILOCKS_PRIME, LATTICE_N, LATTICE_SEED,
};

#[test]
fn test_lattice_hash() {
    let pixels: Vec<u8> = (0..100).map(|i| (i % 256) as u8).collect();
    let hash = compute_lattice_hash(&pixels, 12345);
    assert_eq!(hash.len(), LATTICE_N);
}

#[test]
fn lattice_hash_exact_values() {
    let hash = compute_lattice_hash(&[1, 2, 3], 7);
    assert_eq!(hash[0], 22008524000);
    assert_eq!(hash[1], 18957061814);
    assert_eq!(hash[2], 20200566924);
    assert_eq!(hash[127], 12429948445);
}

#[test]
fn lattice_hash_row_seed_wraps() {
    let hash = compute_lattice_hash(&[255; 5], u64::MAX);
    assert_eq!(hash[0], 3702772367760);
    assert_eq!(hash[1], 1719569820300);
}

#[test]
fn lattice_hash_of_empty_image_is_zero() {
    assert!(compute_lattice_hash(&[], 1).iter().all(|&h| h == 0));
}

#[test]
fn lattice_hash_is_linear() {
    let a = [10u8, 20, 30, 40];
    let b = [1u8, 2, 3, 200];
    let c: Vec<u8> = a.iter().zip(b.iter()).map(|(x, y)| x + y).collect();
    let ha = compute_lattice_hash(&a, LATTICE_SEED);
    let hb = compute_lattice_hash(&b, LATTICE_SEED);
    let hc = compute_lattice_hash(&c, LATTICE_SEED);
    for i in 0..LATTICE_N {
        let sum = (ha[i] as u128 + hb[i] as u128) % GOLDILOCKS_PRIME as u128;
        assert_eq!(hc[i] as u128, sum);
    }
}

#[test]
fn hash_out_bytes_are_little_endian() {
    let bytes = hash_out_to_bytes(&[1, 0x0102030405060708]);
    assert_eq!(bytes, vec![1, 0, 0, 0, 0, 0, 0, 0, 8, 7, 6, 5, 4, 3, 2, 1]);
}

#[test]
fn commitment_input_pads_to_power_of_two() {
    assert_eq!(commitment_input(&[5, 6, 7, 8, 9]), vec![5, 6, 7, 8, 9, 0, 0, 0]);
    assert_eq!(commitment_input(&[]), vec![0]);
    assert_eq!(commitment_input(&[1, 2]), vec![1, 2]);
}

#[test]
fn preimage_of_mode1_is_three_lattice_hashes() {
    let r = vec![100u8; 4];
    let g = vec![150u8; 4];
    let b = vec![200u8; 4];
    match signing_preimage(SigningMode::LatticePostion, &r, &g, &b) {
        HashPreimage::Lattice(v) => {
            assert_eq!(v.len(), 3 * LATTICE_N);
            assert_eq!(&v[..LATTICE_N], &compute_lattice_hash(&r, LATTICE_SEED)[..]);
            assert_eq!(&v[2 * LATTICE_N..], &compute_lattice_hash(&b, LATTICE_SEED)[..]);
        }
        HashPreimage::Polynomial(_) => panic!("wrong mode"),
    }
}

#[test]
fn preimage_of_mode2_is_padded_pixels() {
    match signing_preimage(SigningMode::PolynomialCommitment, &[1, 2], &[3], &[4, 5]) {
        HashPreimage::Polynomial(v) => assert_eq!(v, vec![1, 2, 3, 4, 5, 0, 0, 0]),
        HashPreimage::Lattice(_) => panic!("wrong mode"),
    }
}

#[test]
fn keypair_public_key_is_digest_of_private_key() {
    let (sk, pk) = generate_keypair();
    assert_eq!(sk.len(), 32);
    assert_eq!(pk, sha2::Sha256::digest(&sk).to_vec());
}

#[test]
fn signed_image_mode1_signs_digest_bytes() {
    let sk = vec![7u8; 32];
    let pk = sha2::Sha256::digest(&sk).to_vec();
    let lattice = vec![1u64, 2, 3];
    let signed = assemble_signed_image(HashPreimage::Lattice(lattice.clone()), &[1, 2, 3, 4], 8, 8, 99, &sk, pk.clone(), 5);
    assert_eq!(signed.mode, SigningMode::LatticePostion);
    assert_eq!(signed.image_hash, hash_out_to_bytes(&[1, 2, 3, 4]));
    assert_eq!(signed.lattice_hash, Some(lattice));
    assert!(signed.polynomial_commitment.is_none());
    let mut data = sk.clone();
    data.extend_from_slice(&signed.image_hash);
    assert_eq!(signed.signature, sha2::Sha256::digest(&data).to_vec());
    assert_eq!(signed.metadata.device_id, "VerITAS-Demo-Camera-v1");
    assert_eq!((signed.metadata.image_width, signed.metadata.image_height), (8, 8));
    assert_eq!((signed.metadata.timestamp, signed.metadata.color_depth, signed.signing_time_ms), (99, 8, 5));
    assert!(verify_signature(&signed, &signed.image_hash.clone()));
}

#[test]
fn signed_image_mode2_hashes_commitment() {
    let sk = vec![1u8; 32];
    let signed = assemble_signed_image(HashPreimage::Polynomial(vec![0]), &[9, 8, 7, 6], 1, 1, 0, &sk, vec![5], 0);
    assert_eq!(signed.mode, SigningMode::PolynomialCommitment);
    let commitment = hash_out_to_bytes(&[9, 8, 7, 6]);
    assert_eq!(signed.polynomial_commitment, Some(commitment.clone()));
    assert_eq!(signed.image_hash, sha2::Sha256::digest(&commitment).to_vec());
    assert!(signed.lattice_hash.is_none());
}

#[test]
fn signature_check_rejects_other_hash_and_missing_key() {
    let sk = vec![3u8; 32];
    let signed = assemble_signed_image(HashPreimage::Lattice(vec![]), &[1, 1, 1, 1], 1, 1, 0, &sk, vec![], 0);
    assert!(!verify_signature(&signed, &signed.image_hash.clone()));
    let signed = assemble_signed_image(HashPreimage::Lattice(vec![]), &[1, 1, 1, 1], 1, 1, 0, &sk, vec![1], 0);
    assert!(!verify_signature(&signed, &[0u8; 32]));
}
