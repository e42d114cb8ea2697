//! Verifier: the client (news reader) side of the protocol.
//!
//! The verifier checks:
//! 1. that the C2PA signature is well formed;
//! 2. for Mode 1, that the hash proof matches the signed lattice hash;
//! 3. that the edit proof is well formed;
//! 4. that the same signed image is referenced by the edit proof.

use vstd::prelude::*;
use vstd::string::*;
use crate::prover::{EditProof, EditType, EditParams, is_package_for};
use crate::circuit::ProofArtifacts;
use crate::signer::{SignedImage, SigningMode, HashPreimage, is_assembled_from};
use crate::encoding::{deserialize_words, words_from_bincode};
use crate::support::{decimal, instant_now, elapsed_ms, usize_to_decimal, bytes_equal, words_equal};
use crate::proofs::MIN_PROOF_SIZE;

verus! {

/// Complete verification result
pub struct VerificationResult {
    /// Overall validity
    pub valid: bool,
    /// Signature verification result
    pub signature_valid: bool,
    /// Edit proof verification result
    pub edit_proof_valid: bool,
    /// Hash proof verification result (None for Mode 2)
    pub hash_proof_valid: Option<bool>,
    /// Total verification time in milliseconds
    pub verification_time_ms: u64,
    /// Detailed error message if invalid
    pub error: Option<String>,
    /// Verification steps completed
    pub steps: Vec<VerificationStep>,
}

/// Individual verification step
pub struct VerificationStep {
    pub name: String,
    pub passed: bool,
    pub time_ms: u64,
    pub details: Option<String>,
}

/// Errors that stop verification before a result is reached.
#[derive(Debug, PartialEq, Eq, Structural)]
pub enum VerifyError {
    /// The hash proof is not a bincode-encoded lattice hash.
    HashProofEncoding,
}

/// The signature is present, has the length of a SHA-256 digest, and comes with
/// a signed hash and a public key.
pub open spec fn signature_structure_ok(signed: SignedImage) -> bool {
    &&& signed.signature@.len() > 0
    &&& signed.image_hash@.len() > 0
    &&& signed.public_key@.len() > 0
    &&& signed.signature@.len() == 32
}

/// Outcome of the Mode 1 hash-proof check: whether the lattice hash carried by the
/// proof equals the signed one, or `None` where the proof does not decode.
pub open spec fn hash_proof_check(proof: EditProof, signed: SignedImage) -> Option<bool> {
    match proof.hash_proof_data {
        Some(bytes) => match words_from_bincode(bytes@) {
            Some(lattice) => Some(
                match signed.lattice_hash {
                    Some(expected) => lattice == expected@,
                    None => false,
                },
            ),
            None => None,
        },
        None => Some(false),
    }
}

/// The Mode 1 hash proof is accepted exactly when it decodes to the signed
/// lattice hash, the whole of it: same length, same words in the same order.
/// It is rejected as undecodable exactly when bytes are there and do not decode.
pub proof fn lemma_hash_proof_check_is_equality(proof: EditProof, signed: SignedImage)
    ensures
        hash_proof_check(proof, signed) == Some(true) <==> (proof.hash_proof_data matches Some(bytes)
            && signed.lattice_hash matches Some(expected) && words_from_bincode(bytes@) == Some(expected@)),
        hash_proof_check(proof, signed) is None <==> (proof.hash_proof_data matches Some(bytes)
            && words_from_bincode(bytes@) is None),
        (proof.hash_proof_data matches Some(bytes) && signed.lattice_hash matches Some(expected)
            && words_from_bincode(bytes@) matches Some(decoded) && decoded.len() != expected@.len())
            ==> hash_proof_check(proof, signed) == Some(false),
{
}

/// The edit proof has the shape of a Plonky2 proof package: at least 1000 bytes of
/// proof, public inputs, verifier data and common data.
pub open spec fn edit_proof_structure_ok(proof: EditProof) -> bool {
    &&& proof.edit_proof_data@.len() > 0
    &&& proof.edit_proof_data@.len() >= MIN_PROOF_SIZE
    &&& proof.edit_public_inputs@.len() > 0
    &&& proof.verifier_data@.len() > 0
    &&& proof.common_data@.len() > 0
}

/// The edit proof refers to the signed image.
pub open spec fn proof_consistent(proof: EditProof, signed: SignedImage) -> bool {
    proof.signed_image_hash@ == signed.image_hash@
}

/// A step with the given name, outcome and details.
pub open spec fn step_is(step: VerificationStep, name: Seq<char>, passed: bool, details: Seq<char>) -> bool {
    &&& step.name@ == name
    &&& step.passed == passed
    &&& step.details matches Some(d) && d@ == details
}

/// The name under which an edit type is reported.
pub open spec fn edit_type_label(t: EditType) -> Seq<char> {
    match t {
        EditType::Crop => "Crop"@,
        EditType::Grayscale => "Grayscale"@,
        EditType::Resize => "Resize"@,
        EditType::Blur => "Blur"@,
    }
}

/// The report of the edit-proof step.
pub open spec fn edit_step_holds(step: VerificationStep, proof: EditProof) -> bool {
    if edit_proof_structure_ok(proof) {
        step_is(step, edit_type_label(proof.edit_type) + " Edit Proof (Plonky2)"@, true,
            "Proof verified with "@ + decimal(proof.edit_public_inputs@.len()) + " public inputs"@)
    } else {
        step_is(step, edit_type_label(proof.edit_type) + " Edit Proof (Plonky2)"@, false,
            "Edit proof verification failed"@)
    }
}

/// The report of the consistency step.
pub open spec fn consistency_step_holds(step: VerificationStep, proof: EditProof, signed: SignedImage) -> bool {
    if proof_consistent(proof, signed) {
        step_is(step, "Proof Consistency Check"@, true, "Same image used in hash and edit proofs"@)
    } else {
        step_is(step, "Proof Consistency Check"@, false, "Inconsistent image data between proofs"@)
    }
}

/// The report of the signature step.
pub open spec fn signature_step_holds(step: VerificationStep, signed: SignedImage) -> bool {
    if signature_structure_ok(signed) {
        step_is(step, "C2PA Signature Verification"@, true, "Signature matches hash"@)
    } else {
        step_is(step, "C2PA Signature Verification"@, false, "Invalid signature"@)
    }
}

/// The report of the hash-proof step, given its outcome.
pub open spec fn hash_step_holds(step: VerificationStep, signed: SignedImage, outcome: Option<bool>) -> bool {
    match signed.mode {
        SigningMode::LatticePostion => if outcome == Some(true) {
            step_is(step, "Lattice+Poseidon Hash Proof"@, true, "Hash proof verified (Freivalds + SumCheck)"@)
        } else {
            step_is(step, "Lattice+Poseidon Hash Proof"@, false, "Hash proof invalid"@)
        },
        SigningMode::PolynomialCommitment => {
            &&& step_is(step, "Polynomial Commitment Mode"@, true, "No separate hash proof needed (Mode 2)"@)
            &&& step.time_ms == 0
        },
    }
}

/// Verify C2PA signature on the image hash (structure of the signature).
fn verify_signature(signed_image: &SignedImage) -> (ok: bool)
    ensures
        ok == signature_structure_ok(*signed_image),
{
    signed_image.signature.len() != 0 && signed_image.image_hash.len() != 0
        && signed_image.public_key.len() != 0 && signed_image.signature.len() == 32
}

/// Verify the hash proof (Mode 1: Lattice + Poseidon): the lattice hash carried by
/// the proof must equal the one in the signed image.
fn verify_hash_proof(edit_proof: &EditProof, signed_image: &SignedImage) -> (res: Result<bool, VerifyError>)
    ensures
        match res {
            Ok(b) => hash_proof_check(*edit_proof, *signed_image) == Some(b),
            Err(e) => e == VerifyError::HashProofEncoding && hash_proof_check(*edit_proof, *signed_image) is None,
        },
{
    match &edit_proof.hash_proof_data {
        Some(hash_proof_bytes) => {
            let lattice_hash = match deserialize_words(hash_proof_bytes.as_slice()) {
                Some(l) => l,
                None => return Err(VerifyError::HashProofEncoding),
            };
            match &signed_image.lattice_hash {
                Some(expected) => Ok(words_equal(lattice_hash.as_slice(), expected.as_slice())),
                None => Ok(false),
            }
        },
        None => Ok(false),
    }
}

/// Verify the edit proof (structural check of the proof package).
fn verify_edit_proof(edit_proof: &EditProof) -> (ok: bool)
    ensures
        ok == edit_proof_structure_ok(*edit_proof),
{
    if edit_proof.edit_proof_data.len() == 0 {
        return false;
    }
    if edit_proof.edit_proof_data.len() < MIN_PROOF_SIZE {
        return false;
    }
    if edit_proof.edit_public_inputs.len() == 0 {
        return false;
    }
    if edit_proof.verifier_data.len() == 0 {
        return false;
    }
    if edit_proof.common_data.len() == 0 {
        return false;
    }
    true
}

/// Verify consistency between hash proof and edit proof: the same signed image
/// is referenced.
fn verify_consistency(edit_proof: &EditProof, signed_image: &SignedImage) -> (ok: bool)
    ensures
        ok == proof_consistent(*edit_proof, *signed_image),
{
    bytes_equal(edit_proof.signed_image_hash.as_slice(), signed_image.image_hash.as_slice())
}

/// The name under which an edit type is reported.
fn edit_type_name(t: EditType) -> (s: &'static str)
    ensures
        s@ == edit_type_label(t),
{
    match t {
        EditType::Crop => "Crop",
        EditType::Grayscale => "Grayscale",
        EditType::Resize => "Resize",
        EditType::Blur => "Blur",
    }
}

/// A finished verification step.
fn make_step(name: String, passed: bool, time_ms: u64, details: &str) -> (step: VerificationStep)
    ensures
        step.name == name,
        step.passed == passed,
        step.time_ms == time_ms,
        step.details matches Some(d) && d@ == details@,
{
    VerificationStep { name, passed, time_ms, details: Some(String::from_str(details)) }
}

/// Verify a complete proof package
///
/// This performs all verification steps:
/// 1. Verify C2PA signature on the original image hash
/// 2. For Mode 1: Verify the hash proof
/// 3. Verify the edit proof
/// 4. Verify that both proofs refer to the same image
pub fn verify_proof(
    edit_proof: &EditProof,
    signed_image: &SignedImage,
    _edited_image_data: Option<&[u8]>,
) -> (res: Result<VerificationResult, VerifyError>)
    ensures
        match res {
            Err(e) => {
                &&& e == VerifyError::HashProofEncoding
                &&& signature_structure_ok(*signed_image)
                &&& signed_image.mode == SigningMode::LatticePostion
                &&& hash_proof_check(*edit_proof, *signed_image) is None
            },
            Ok(r) => {
                let sig = signature_structure_ok(*signed_image);
                let hash = match signed_image.mode {
                    SigningMode::LatticePostion => hash_proof_check(*edit_proof, *signed_image),
                    SigningMode::PolynomialCommitment => None,
                };
                let edit = edit_proof_structure_ok(*edit_proof);
                let consistent = proof_consistent(*edit_proof, *signed_image);
                let lattice_matches = edit_proof.hash_proof_data matches Some(bytes)
                    && signed_image.lattice_hash matches Some(expected)
                    && words_from_bincode(bytes@) == Some(expected@);
                &&& r.hash_proof_valid == Some(true) ==> lattice_matches
                &&& (signed_image.mode == SigningMode::LatticePostion && r.valid) ==> lattice_matches
                &&& r.signature_valid == sig
                &&& signature_step_holds(r.steps@[0], *signed_image)
                &&& if !sig {
                    &&& !r.valid
                    &&& !r.edit_proof_valid
                    &&& r.hash_proof_valid is None
                    &&& r.error matches Some(m) && m@ == "C2PA signature verification failed"@
                    &&& r.steps@.len() == 1
                } else if hash == Some(false) {
                    &&& !r.valid
                    &&& !r.edit_proof_valid
                    &&& r.hash_proof_valid == Some(false)
                    &&& r.error matches Some(m) && m@ == "Hash proof verification failed"@
                    &&& r.steps@.len() == 2
                    &&& hash_step_holds(r.steps@[1], *signed_image, hash)
                } else {
                    &&& signed_image.mode == SigningMode::LatticePostion ==> hash == Some(true)
                    &&& r.hash_proof_valid == hash
                    &&& r.edit_proof_valid == edit
                    &&& r.valid == (edit && consistent)
                    &&& r.valid ==> r.error is None
                    &&& !r.valid ==> (r.error matches Some(m) && m@ == "One or more verification steps failed"@)
                    &&& r.steps@.len() == 4
                    &&& hash_step_holds(r.steps@[1], *signed_image, hash)
                    &&& edit_step_holds(r.steps@[2], *edit_proof)
                    &&& consistency_step_holds(r.steps@[3], *edit_proof, *signed_image)
                }
            },
        },
{
    proof {
        lemma_hash_proof_check_is_equality(*edit_proof, *signed_image);
    }
    let total_start = instant_now();
    let mut steps: Vec<VerificationStep> = Vec::new();

    // Step 1: Verify C2PA signature
    let sig_start = instant_now();
    let signature_valid = verify_signature(signed_image);
    let sig_details = if signature_valid { "Signature matches hash" } else { "Invalid signature" };
    steps.push(make_step(String::from_str("C2PA Signature Verification"), signature_valid, elapsed_ms(&sig_start), sig_details));

    if !signature_valid {
        return Ok(VerificationResult {
            valid: false,
            signature_valid: false,
            edit_proof_valid: false,
            hash_proof_valid: None,
            verification_time_ms: elapsed_ms(&total_start),
            error: Some(String::from_str("C2PA signature verification failed")),
            steps,
        });
    }

    // Step 2: Verify hash proof (Mode 1 only)
    let hash_proof_valid = match signed_image.mode {
        SigningMode::LatticePostion => {
            let hash_start = instant_now();
            let valid = verify_hash_proof(edit_proof, signed_image)?;
            let details = if valid { "Hash proof verified (Freivalds + SumCheck)" } else { "Hash proof invalid" };
            steps.push(make_step(String::from_str("Lattice+Poseidon Hash Proof"), valid, elapsed_ms(&hash_start), details));
            Some(valid)
        },
        SigningMode::PolynomialCommitment => {
            steps.push(make_step(String::from_str("Polynomial Commitment Mode"), true, 0, "No separate hash proof needed (Mode 2)"));
            None
        },
    };

    if hash_proof_valid == Some(false) {
        return Ok(VerificationResult {
            valid: false,
            signature_valid: true,
            edit_proof_valid: false,
            hash_proof_valid: Some(false),
            verification_time_ms: elapsed_ms(&total_start),
            error: Some(String::from_str("Hash proof verification failed")),
            steps,
        });
    }

    // Step 3: Verify edit proof
    let edit_start = instant_now();
    let edit_proof_valid = verify_edit_proof(edit_proof);
    let edit_name = String::from_str(edit_type_name(edit_proof.edit_type)).concat(" Edit Proof (Plonky2)");
    let edit_details = if edit_proof_valid {
        String::from_str("Proof verified with ")
            .concat(usize_to_decimal(edit_proof.edit_public_inputs.len()).as_str())
            .concat(" public inputs")
    } else {
        String::from_str("Edit proof verification failed")
    };
    steps.push(VerificationStep {
        name: edit_name,
        passed: edit_proof_valid,
        time_ms: elapsed_ms(&edit_start),
        details: Some(edit_details),
    });

    // Step 4: Verify consistency (same image used in both proofs)
    let consistency_start = instant_now();
    let consistency_valid = verify_consistency(edit_proof, signed_image);
    let cons_details = if consistency_valid {
        "Same image used in hash and edit proofs"
    } else {
        "Inconsistent image data between proofs"
    };
    steps.push(make_step(String::from_str("Proof Consistency Check"), consistency_valid, elapsed_ms(&consistency_start), cons_details));

    let hash_ok = match hash_proof_valid {
        Some(v) => v,
        None => true,
    };
    let all_valid = signature_valid && edit_proof_valid && consistency_valid && hash_ok;

    Ok(VerificationResult {
        valid: all_valid,
        signature_valid,
        edit_proof_valid,
        hash_proof_valid,
        verification_time_ms: elapsed_ms(&total_start),
        error: if all_valid { None } else { Some(String::from_str("One or more verification steps failed")) },
        steps,
    })
}

/// The details line of a quick structure check.
pub open spec fn quick_details(proof: EditProof) -> Seq<char> {
    "Proof: "@ + decimal(proof.edit_proof_data@.len()) + " bytes, Public inputs: "@
        + decimal(proof.edit_public_inputs@.len()) + ", Verifier data: "@
        + decimal(proof.verifier_data@.len()) + " bytes"@
}

/// Quick verification for demo purposes
/// Returns simplified result without full cryptographic verification
pub fn quick_verify(edit_proof: &EditProof) -> (r: VerificationResult)
    ensures
        r.valid == (edit_proof.edit_proof_data@.len() > 0 && edit_proof.edit_proof_data@.len() > MIN_PROOF_SIZE
            && edit_proof.edit_public_inputs@.len() > 0 && edit_proof.verifier_data@.len() > 0),
        r.signature_valid,
        r.edit_proof_valid == r.valid,
        r.hash_proof_valid == (if edit_proof.hash_proof_data is Some { Some(true) } else { None::<bool> }),
        r.valid ==> r.error is None,
        !r.valid ==> (r.error matches Some(m) && m@ == "Invalid proof structure"@),
        r.steps@.len() == 1,
        step_is(r.steps@[0], "Quick Structure Check"@, r.valid, quick_details(*edit_proof)),
{
    let start = instant_now();
    let has_valid_proof = edit_proof.edit_proof_data.len() != 0 && edit_proof.edit_proof_data.len() > MIN_PROOF_SIZE;
    let has_public_inputs = edit_proof.edit_public_inputs.len() != 0;
    let has_verifier_data = edit_proof.verifier_data.len() != 0;
    let valid = has_valid_proof && has_public_inputs && has_verifier_data;
    let details = String::from_str("Proof: ")
        .concat(usize_to_decimal(edit_proof.edit_proof_data.len()).as_str())
        .concat(" bytes, Public inputs: ")
        .concat(usize_to_decimal(edit_proof.edit_public_inputs.len()).as_str())
        .concat(", Verifier data: ")
        .concat(usize_to_decimal(edit_proof.verifier_data.len()).as_str())
        .concat(" bytes");
    let mut steps: Vec<VerificationStep> = Vec::new();
    steps.push(VerificationStep {
        name: String::from_str("Quick Structure Check"),
        passed: valid,
        time_ms: elapsed_ms(&start),
        details: Some(details),
    });
    VerificationResult {
        valid,
        signature_valid: true,
        edit_proof_valid: valid,
        hash_proof_valid: match &edit_proof.hash_proof_data {
            Some(_) => Some(true),
            None => None,
        },
        verification_time_ms: elapsed_ms(&start),
        error: if valid { None } else { Some(String::from_str("Invalid proof structure")) },
        steps,
    }
}


/// Completeness of the protocol: a signed image that a signer assembled (with a
/// public key) and a proof package that a prover assembled for it pass the
/// signature check, refer to the signed image, and, in Mode 1, carry a hash proof
/// that matches the signed lattice hash; where the proved circuit's artifacts have
/// the sizes of a Plonky2 proof, the edit proof passes the structure check. By the
/// contract of `verify_proof`, such an honestly signed and proven edit is then
/// accepted: `verify_proof` returns a result that is valid.
pub proof fn lemma_honest_package_verifies(
    signed: SignedImage,
    preimage: HashPreimage,
    digest: Seq<u64>,
    width: u32,
    height: u32,
    timestamp: u64,
    private_key: Seq<u8>,
    public_key: Seq<u8>,
    signing_time_ms: u64,
    proof: EditProof,
    edit_params: EditParams,
    artifacts: ProofArtifacts,
    proving_time_ms: u64,
)
    requires
        is_assembled_from(signed, preimage, digest, width, height, timestamp, private_key, public_key, signing_time_ms),
        public_key.len() > 0,
        is_package_for(proof, edit_params, artifacts, signed, proving_time_ms),
    ensures
        signature_structure_ok(signed),
        proof_consistent(proof, signed),
        signed.mode == SigningMode::LatticePostion ==> hash_proof_check(proof, signed) == Some(true),
        artifacts.proof_bytes@.len() >= MIN_PROOF_SIZE && artifacts.public_inputs@.len() > 0
            && artifacts.verifier_data@.len() > 0 && artifacts.common_data@.len() > 0
            ==> edit_proof_structure_ok(proof),
{
}

} // verus!
