use veritas::circuit::ProofArtifacts;
use veritas::client::{quick_verify, verify_proof, VerifyError};
use veritas::proofs::{get_proof_stats, verify_proof as verify_proof_bytes, ProofOutput};
use veritas::prover::{finish_edit_proof, EditParams, EditProof, EditType, ProverConfig};
use veritas::signer::{assemble_signed_image, HashPreimage, SignedImage};

fn artifacts(proof_len: usize) -> ProofArtifacts {
    ProofArtifacts {
        proof_bytes: vec![7; proof_len],
        public_inputs: vec![1, 2, 3],
        verifier_data: vec![1],
        common_data: vec![2],
    }
}

fn signed_mode1() -> SignedImage {
    assemble_signed_image(HashPreimage::Lattice(vec![11, 22, 33]), &[1, 2, 3, 4], 4, 4, 0, &[9; 32], vec![1; 32], 0)
}

fn signed_mode2() -> SignedImage {
    assemble_signed_image(HashPreimage::Polynomial(vec![0]), &[1, 2, 3, 4], 4, 4, 0, &[9; 32], vec![1; 32], 0)
}

fn package(signed: &SignedImage, proof_len: usize) -> EditProof {
    finish_edit_proof(EditParams::Grayscale, artifacts(proof_len), signed, &ProverConfig::default(), 3).unwrap()
}

#[test]
fn prover_config_default() {
    let c = ProverConfig::default();
    assert!(c.use_zk);
    assert_eq!(c.security_bits, 100);
}

#[test]
fn package_carries_lattice_hash_in_mode1() {
    let signed = signed_mode1();
    let proof = package(&signed, 2000);
    assert_eq!(proof.edit_type, EditType::Grayscale);
    assert_eq!(proof.signed_image_hash, signed.image_hash);
    let hash_proof = proof.hash_proof_data.clone().unwrap();
    let decoded: Vec<u64> = bincode::deserialize(&hash_proof).unwrap();
    assert_eq!(decoded, vec![11, 22, 33]);
    assert!(package(&signed_mode2(), 2000).hash_proof_data.is_none());
}

#[test]
fn honest_package_verifies_in_mode1() {
    let signed = signed_mode1();
    let proof = package(&signed, 2000);
    let r = verify_proof(&proof, &signed, None).unwrap();
    assert!(r.valid);
    assert!(r.signature_valid);
    assert!(r.edit_proof_valid);
    assert_eq!(r.hash_proof_valid, Some(true));
    assert!(r.error.is_none());
    assert_eq!(r.steps.len(), 4);
    assert_eq!(r.steps[0].name, "C2PA Signature Verification");
    assert_eq!(r.steps[1].name, "Lattice+Poseidon Hash Proof");
    assert_eq!(r.steps[2].name, "Grayscale Edit Proof (Plonky2)");
    assert_eq!(r.steps[2].details.as_deref(), Some("Proof verified with 3 public inputs"));
    assert_eq!(r.steps[3].details.as_deref(), Some("Same image used in hash and edit proofs"));
}

#[test]
fn honest_package_verifies_in_mode2() {
    let signed = signed_mode2();
    let proof = package(&signed, 2000);
    let r = verify_proof(&proof, &signed, None).unwrap();
    assert!(r.valid);
    assert_eq!(r.hash_proof_valid, None);
    assert_eq!(r.steps[1].name, "Polynomial Commitment Mode");
    assert_eq!(r.steps[1].time_ms, 0);
}

#[test]
fn short_edit_proof_fails_structure_check() {
    let signed = signed_mode1();
    let proof = package(&signed, 999);
    let r = verify_proof(&proof, &signed, None).unwrap();
    assert!(!r.valid);
    assert!(!r.edit_proof_valid);
    assert_eq!(r.error.as_deref(), Some("One or more verification steps failed"));
    assert_eq!(r.steps[2].details.as_deref(), Some("Edit proof verification failed"));
}

#[test]
fn bad_signature_stops_verification() {
    let mut signed = signed_mode1();
    let proof = package(&signed, 2000);
    signed.signature.pop();
    let r = verify_proof(&proof, &signed, None).unwrap();
    assert!(!r.valid);
    assert!(!r.signature_valid);
    assert_eq!(r.steps.len(), 1);
    assert_eq!(r.error.as_deref(), Some("C2PA signature verification failed"));
}

#[test]
fn wrong_lattice_hash_fails_hash_proof() {
    let signed = signed_mode1();
    let mut proof = package(&signed, 2000);
    proof.hash_proof_data = Some(bincode::serialize(&vec![11u64, 22, 34]).unwrap());
    let r = verify_proof(&proof, &signed, None).unwrap();
    assert!(!r.valid);
    assert_eq!(r.hash_proof_valid, Some(false));
    assert_eq!(r.steps.len(), 2);
    assert_eq!(r.error.as_deref(), Some("Hash proof verification failed"));
}

#[test]
fn undecodable_hash_proof_is_an_error() {
    let signed = signed_mode1();
    let mut proof = package(&signed, 2000);
    proof.hash_proof_data = Some(vec![1, 2, 3]);
    assert_eq!(verify_proof(&proof, &signed, None).err(), Some(VerifyError::HashProofEncoding));
}

#[test]
fn package_for_other_image_is_inconsistent() {
    let signed = signed_mode2();
    let mut proof = package(&signed, 2000);
    proof.signed_image_hash[0] ^= 1;
    let r = verify_proof(&proof, &signed, None).unwrap();
    assert!(!r.valid);
    assert!(r.edit_proof_valid);
    assert!(!r.steps[3].passed);
}

#[test]
fn quick_verify_reports_structure() {
    let signed = signed_mode1();
    let proof = package(&signed, 1001);
    let r = quick_verify(&proof);
    assert!(r.valid);
    assert_eq!(r.hash_proof_valid, Some(true));
    assert_eq!(r.steps[0].details.as_deref(), Some("Proof: 1001 bytes, Public inputs: 3, Verifier data: 1 bytes"));
    let proof = package(&signed, 1000);
    let r = quick_verify(&proof);
    assert!(!r.valid);
    assert_eq!(r.error.as_deref(), Some("Invalid proof structure"));
}

#[test]
fn proof_size_check_message() {
    let r = verify_proof_bytes(&[0u8; 10], &[], "crop");
    assert!(!r.valid);
    assert_eq!(r.error.as_deref(), Some("Proof too small: 10 bytes (expected > 1000)"));
    let r = verify_proof_bytes(&[0u8; 1001], &[], "crop");
    assert!(r.valid);
    assert!(r.error.is_none());
}

#[test]
fn proof_stats_count_bytes_and_inputs() {
    let out = ProofOutput { proof_data: vec![0; 42], public_inputs: vec![1, 2], proving_time_ms: 0, peak_memory_bytes: None };
    let stats = get_proof_stats(&out, "blur");
    assert_eq!(stats.proof_size_bytes, 42);
    assert_eq!(stats.num_public_inputs, 2);
    assert_eq!(stats.circuit_info.edit_type, "blur");
    assert_eq!(stats.circuit_info.degree, 32);
    assert_eq!(stats.circuit_info.field, "Goldilocks (64-bit prime)");
}
