//! Prover: the newsroom editor's side of the protocol.
//!
//! The prover produces two things for an edited image:
//! 1. a hash proof, showing that the original image was hashed correctly (Mode 1 only);
//! 2. an edit proof, showing that the transformation `f(w) = x` was applied correctly.
//!
//! The edit circuits are described in `crate::circuit`; this module assembles the
//! proof package once a circuit has been proved.

use vstd::prelude::*;
use vstd::string::*;
use crate::signer::{SignedImage, SigningMode, GOLDILOCKS_PRIME};
use crate::encoding::{serialize_words, bincode_of_words, words_from_bincode};
use crate::circuit::{ProofArtifacts, Gate, GateSpec, Constraint, CircuitPlan, concat_blocks, push_gate, push_inputs, gates_view, region_index, lemma_region_index, lemma_concat_blocks_step, get_or_zero, get_or_zero_exec};
use crate::circuit::{wire_value, terms_sum, satisfied, witness_complete, constraint_holds, public_values, lemma_concat_uniform};
use crate::circuit::{field_order, indexed_sum, lemma_terms_sum_of_inputs, lemma_public_values_concat, lemma_concat_blocks_congruent};
use crate::image_io::crop_channel;
use crate::proofs::weighted_sum;
use vstd::arithmetic::power2::lemma2_to64;
use crate::proofs::crop_region_fits;
use crate::image_io::{gray_value, gray_channel, pixel_index, src_low, src_high, src_frac, resize_den, round_div, bilinear_num, source_corners, interpolate, resize_channel};

verus! {

/// Types of edits supported (as per Associated Press guidelines mentioned in paper)
#[derive(Debug, Clone, Copy, PartialEq, Eq, Structural)]
pub enum EditType {
    Crop,
    Grayscale,
    Resize,
    Blur,
}

/// Edit parameters
#[derive(Debug, Clone, Copy, PartialEq, Eq, Structural)]
pub enum EditParams {
    Crop { x: u32, y: u32, width: u32, height: u32 },
    Grayscale,
    Resize { new_width: u32, new_height: u32 },
    Blur { x: u32, y: u32, width: u32, height: u32 },
}

/// The edit type that a set of parameters belongs to.
pub open spec fn edit_type_of(params: EditParams) -> EditType {
    match params {
        EditParams::Crop { .. } => EditType::Crop,
        EditParams::Grayscale => EditType::Grayscale,
        EditParams::Resize { .. } => EditType::Resize,
        EditParams::Blur { .. } => EditType::Blur,
    }
}

/// The edit type of a package names the edit of its parameters: a crop is
/// reported as a crop, a grayscale conversion as grayscale, a resize as a resize
/// and a blur as a blur.
pub proof fn lemma_edit_type_names_edit(params: EditParams)
    ensures
        params is Crop <==> edit_type_of(params) == EditType::Crop,
        params is Grayscale <==> edit_type_of(params) == EditType::Grayscale,
        params is Resize <==> edit_type_of(params) == EditType::Resize,
        params is Blur <==> edit_type_of(params) == EditType::Blur,
{
}

/// Complete proof package from the prover
pub struct EditProof {
    /// The type of edit performed
    pub edit_type: EditType,
    /// The edit parameters
    pub edit_params: EditParams,
    /// The edit proof (proves f(w) = x)
    pub edit_proof_data: Vec<u8>,
    /// Public inputs for the edit proof
    pub edit_public_inputs: Vec<u64>,
    /// Hash proof (only for Mode 1 - proves hash was computed correctly)
    pub hash_proof_data: Option<Vec<u8>>,
    /// The signed image reference
    pub signed_image_hash: Vec<u8>,
    /// Verifier data needed for verification
    pub verifier_data: Vec<u8>,
    /// Common circuit data
    pub common_data: Vec<u8>,
    /// Proving statistics
    pub proving_time_ms: u64,
    pub peak_memory_bytes: Option<u64>,
}

/// Configuration for proof generation
pub struct ProverConfig {
    /// Whether to generate zero-knowledge proofs
    pub use_zk: bool,
    /// Security level in bits
    pub security_bits: u32,
}

impl Default for ProverConfig {
    fn default() -> (config: Self)
        ensures
            config.use_zk,
            config.security_bits == 100,
    {
        ProverConfig { use_zk: true, security_bits: 100 }
    }
}

/// Errors raised while assembling a proof package.
#[derive(Debug, PartialEq, Eq, Structural)]
pub enum ProverError {
    /// The three channels differ in length.
    ChannelLengthMismatch,
    /// The lattice hash could not be serialized (bincode does not fail on a
    /// sequence of words, so no package step returns it).
    Serialization,
}

/// The message that reports a prover error.
pub open spec fn prover_error_text(e: ProverError) -> Seq<char> {
    match e {
        ProverError::ChannelLengthMismatch => "Pixel arrays must have equal length"@,
        ProverError::Serialization => "Failed to serialize the lattice hash"@,
    }
}

impl ProverError {
    /// The message that reports this error.
    pub fn message(&self) -> (m: String)
        ensures
            m@ == prover_error_text(*self),
    {
        match self {
            ProverError::ChannelLengthMismatch => String::from_str("Pixel arrays must have equal length"),
            ProverError::Serialization => String::from_str("Failed to serialize the lattice hash"),
        }
    }
}

/// The hash proof that a signed image calls for: in Mode 1, the bincode encoding of
/// its lattice hash, where there is one; otherwise none.
pub open spec fn expected_hash_proof(signed: SignedImage) -> Option<Seq<u8>> {
    match signed.mode {
        SigningMode::LatticePostion => match signed.lattice_hash {
            Some(l) => Some(bincode_of_words(l@)),
            None => None,
        },
        SigningMode::PolynomialCommitment => None,
    }
}

/// Generate hash proof for Mode 1 (Lattice + Poseidon)
/// This proves the original image was hashed correctly; the lattice hash itself
/// is included as the proof.
fn generate_hash_proof_if_needed(signed_image: &SignedImage, _config: &ProverConfig) -> (res: Result<Option<Vec<u8>>, ProverError>)
    ensures
        res matches Ok(h) && match h {
            None => expected_hash_proof(*signed_image) is None,
            Some(bytes) => {
                &&& expected_hash_proof(*signed_image) == Some(bytes@)
                &&& signed_image.lattice_hash matches Some(l) && words_from_bincode(bytes@) == Some(l@)
            },
        },
{
    match signed_image.mode {
        SigningMode::LatticePostion => {
            match &signed_image.lattice_hash {
                Some(lattice_hash) => match serialize_words(lattice_hash) {
                    Some(bytes) => Ok(Some(bytes)),
                    None => Err(ProverError::Serialization),
                },
                None => Ok(None),
            }
        },
        SigningMode::PolynomialCommitment => Ok(None),
    }
}

/// The edit type of a set of parameters.
pub fn edit_type_for(params: &EditParams) -> (t: EditType)
    ensures
        t == edit_type_of(*params),
        *params is Crop ==> t == EditType::Crop,
        *params is Grayscale ==> t == EditType::Grayscale,
        *params is Resize ==> t == EditType::Resize,
        *params is Blur ==> t == EditType::Blur,
{
    match params {
        EditParams::Crop { .. } => EditType::Crop,
        EditParams::Grayscale => EditType::Grayscale,
        EditParams::Resize { .. } => EditType::Resize,
        EditParams::Blur { .. } => EditType::Blur,
    }
}

/// `proof` is the package that a prover assembles for `signed` from the edit
/// parameters and the artifacts of the proved edit circuit.
pub open spec fn is_package_for(
    proof: EditProof,
    edit_params: EditParams,
    artifacts: ProofArtifacts,
    signed: SignedImage,
    proving_time_ms: u64,
) -> bool {
    &&& proof.edit_type == edit_type_of(edit_params)
    &&& proof.edit_params == edit_params
    &&& proof.edit_proof_data == artifacts.proof_bytes
    &&& proof.edit_public_inputs == artifacts.public_inputs
    &&& proof.verifier_data == artifacts.verifier_data
    &&& proof.common_data == artifacts.common_data
    &&& proof.signed_image_hash@ == signed.image_hash@
    &&& proof.proving_time_ms == proving_time_ms
    &&& proof.peak_memory_bytes is None
    &&& match proof.hash_proof_data {
        Some(bytes) => {
            &&& expected_hash_proof(signed) == Some(bytes@)
            &&& signed.lattice_hash matches Some(l) && words_from_bincode(bytes@) == Some(l@)
        },
        None => expected_hash_proof(signed) is None,
    }
}

/// Assemble the proof package of an edit once its circuit has been proved.
pub fn finish_edit_proof(
    edit_params: EditParams,
    artifacts: ProofArtifacts,
    signed_image: &SignedImage,
    config: &ProverConfig,
    proving_time_ms: u64,
) -> (res: Result<EditProof, ProverError>)
    ensures
        res matches Ok(proof) && is_package_for(proof, edit_params, artifacts, *signed_image, proving_time_ms),
        res matches Ok(proof) && (edit_params is Crop ==> proof.edit_type == EditType::Crop)
            && (edit_params is Grayscale ==> proof.edit_type == EditType::Grayscale)
            && (edit_params is Resize ==> proof.edit_type == EditType::Resize)
            && (edit_params is Blur ==> proof.edit_type == EditType::Blur),
{
    let hash_proof_data = generate_hash_proof_if_needed(signed_image, config)?;
    Ok(EditProof {
        edit_type: edit_type_for(&edit_params),
        edit_params,
        edit_proof_data: artifacts.proof_bytes,
        edit_public_inputs: artifacts.public_inputs,
        hash_proof_data,
        signed_image_hash: signed_image.image_hash.clone(),
        verifier_data: artifacts.verifier_data,
        common_data: artifacts.common_data,
        proving_time_ms,
        peak_memory_bytes: None,
    })
}


/// The rounding remainder `100 * gray - (30 r + 59 g + 11 b)` of a pixel, which
/// lies in `[-49, 50]`.
pub open spec fn gray_remainder(r: u8, g: u8, b: u8) -> int {
    100 * gray_value(r, g, b) - weighted_sum(r, g, b)
}

/// The remainder as a field element, as the prover sets it: a negative
/// remainder `rem` is `p + rem`.
pub open spec fn gray_remainder_witness(r: u8, g: u8, b: u8) -> u64 {
    let rem = gray_remainder(r, g, b);
    (if rem < 0 { field_order() + rem } else { rem }) as u64
}

/// Gates of pixel `i` in the grayscale edit circuit: inputs R, G, B, gray and
/// remainder, then `30 R`, `59 G`, `11 B`, `100 gray`, `30 R + 59 G + 11 B + rem`
/// and `rem + 49`.
pub open spec fn grayscale_edit_gates(i: int) -> Seq<GateSpec> {
    let b = 11 * i;
    seq![
        GateSpec::Input, GateSpec::Input, GateSpec::Input, GateSpec::Input, GateSpec::Input,
        GateSpec::MulConst(30, b as usize),
        GateSpec::MulConst(59, (b + 1) as usize),
        GateSpec::MulConst(11, (b + 2) as usize),
        GateSpec::MulConst(100, (b + 3) as usize),
        GateSpec::AddMany(seq![(b + 5) as usize, (b + 6) as usize, (b + 7) as usize, (b + 4) as usize]),
        GateSpec::AddConst((b + 4) as usize, 49),
    ]
}

/// Constraints of pixel `i` in the grayscale edit circuit:
/// `100 * gray = 30 R + 59 G + 11 B + rem`, R, G, B and gray below 256, and
/// `rem + 49` below 128 (so `rem` lies in `[-49, 78]`).
pub open spec fn grayscale_edit_constraints(i: int) -> Seq<Constraint> {
    let b = 11 * i;
    seq![
        Constraint::Connect { a: (b + 9) as usize, b: (b + 8) as usize },
        Constraint::RangeCheck { t: b as usize, bits: 8 },
        Constraint::RangeCheck { t: (b + 1) as usize, bits: 8 },
        Constraint::RangeCheck { t: (b + 2) as usize, bits: 8 },
        Constraint::RangeCheck { t: (b + 3) as usize, bits: 8 },
        Constraint::RangeCheck { t: (b + 10) as usize, bits: 7 },
    ]
}

/// Witness of one pixel in the grayscale edit circuit.
pub open spec fn grayscale_edit_witness(r: u8, g: u8, b: u8) -> Seq<Option<u64>> {
    seq![
        Some(r as u64), Some(g as u64), Some(b as u64), Some(gray_value(r, g, b) as u64),
        Some(gray_remainder_witness(r, g, b)), None, None, None, None, None, None,
    ]
}

/// Appends the gates of pixel `i` of the grayscale edit circuit.
fn push_grayscale_edit_gates(gates: &mut Vec<Gate>, i: usize)
    requires
        11 * i + 10 <= usize::MAX,
    ensures
        gates_view(final(gates)@) == gates_view(old(gates)@) + grayscale_edit_gates(i as int),
{
    let b = 11 * i;
    push_gate(gates, Gate::Input);
    push_gate(gates, Gate::Input);
    push_gate(gates, Gate::Input);
    push_gate(gates, Gate::Input);
    push_gate(gates, Gate::Input);
    push_gate(gates, Gate::MulConst { c: 30, t: b });
    push_gate(gates, Gate::MulConst { c: 59, t: b + 1 });
    push_gate(gates, Gate::MulConst { c: 11, t: b + 2 });
    push_gate(gates, Gate::MulConst { c: 100, t: b + 3 });
    let mut terms: Vec<usize> = Vec::new();
    terms.push(b + 5);
    terms.push(b + 6);
    terms.push(b + 7);
    terms.push(b + 4);
    proof {
        assert(terms@ =~= seq![(b + 5) as usize, (b + 6) as usize, (b + 7) as usize, (b + 4) as usize]);
    }
    push_gate(gates, Gate::AddMany { terms });
    push_gate(gates, Gate::AddConst { t: b + 4, c: 49 });
    proof {
        assert(gates_view(gates@) =~= gates_view(old(gates)@) + grayscale_edit_gates(i as int));
    }
}

/// Appends the constraints of pixel `i` of the grayscale edit circuit.
fn push_grayscale_edit_constraints(constraints: &mut Vec<Constraint>, i: usize)
    requires
        11 * i + 10 <= usize::MAX,
    ensures
        final(constraints)@ == old(constraints)@ + grayscale_edit_constraints(i as int),
{
    let b = 11 * i;
    constraints.push(Constraint::Connect { a: b + 9, b: b + 8 });
    constraints.push(Constraint::RangeCheck { t: b, bits: 8 });
    constraints.push(Constraint::RangeCheck { t: b + 1, bits: 8 });
    constraints.push(Constraint::RangeCheck { t: b + 2, bits: 8 });
    constraints.push(Constraint::RangeCheck { t: b + 3, bits: 8 });
    constraints.push(Constraint::RangeCheck { t: b + 10, bits: 7 });
    proof {
        assert(constraints@ =~= old(constraints)@ + grayscale_edit_constraints(i as int));
    }
}

/// Appends the witness of one pixel of the grayscale edit circuit.
fn push_grayscale_edit_witness(witness: &mut Vec<Option<u64>>, r: u8, g: u8, b: u8)
    ensures
        final(witness)@ == old(witness)@ + grayscale_edit_witness(r, g, b),
{
    let rr = r as u64;
    let gg = g as u64;
    let bb = b as u64;
    let weighted_sum = 30 * rr + 59 * gg + 11 * bb;
    let gray = (weighted_sum + 50) / 100;
    let rem_field: u64 = if 100 * gray >= weighted_sum {
        100 * gray - weighted_sum
    } else {
        GOLDILOCKS_PRIME - (weighted_sum - 100 * gray)
    };
    witness.push(Some(rr));
    witness.push(Some(gg));
    witness.push(Some(bb));
    witness.push(Some(gray));
    witness.push(Some(rem_field));
    witness.push(None);
    witness.push(None);
    witness.push(None);
    witness.push(None);
    witness.push(None);
    witness.push(None);
    proof {
        assert(witness@ =~= old(witness)@ + grayscale_edit_witness(r, g, b));
    }
}

/// Wire values of pixel `i` in the grayscale edit circuit.
#[verifier::spinoff_prover]
#[verifier::rlimit(40)]
proof fn lemma_grayscale_edit_block(gates: Seq<GateSpec>, witness: Seq<Option<u64>>, i: int, r: u8, g: u8, b: u8)
    requires
        0 <= i,
        11 * i + 11 <= gates.len(),
        11 * i + 11 <= witness.len(),
        11 * i + 10 <= usize::MAX,
        forall|j: int| 0 <= j < 11 ==> gates[11 * i + j] == #[trigger] grayscale_edit_gates(i)[j],
        forall|j: int| 0 <= j < 11 ==> witness[11 * i + j] == #[trigger] grayscale_edit_witness(r, g, b)[j],
    ensures
        wire_value(gates, witness, 11 * i) == r,
        wire_value(gates, witness, 11 * i + 1) == g,
        wire_value(gates, witness, 11 * i + 2) == b,
        wire_value(gates, witness, 11 * i + 3) == gray_value(r, g, b),
        wire_value(gates, witness, 11 * i + 8) == 100 * gray_value(r, g, b),
        wire_value(gates, witness, 11 * i + 9) == 100 * gray_value(r, g, b),
        wire_value(gates, witness, 11 * i + 10) == gray_remainder(r, g, b) + 49,
{
    let base = 11 * i;
    let gray = gray_value(r, g, b);
    let rem = gray_remainder(r, g, b);
    let remw = gray_remainder_witness(r, g, b);
    assert(-49 <= rem <= 50);
    let gs = grayscale_edit_gates(i);
    let ws = grayscale_edit_witness(r, g, b);
    assert(gs[0] == GateSpec::Input && gs[1] == GateSpec::Input && gs[2] == GateSpec::Input);
    assert(gs[3] == GateSpec::Input && gs[4] == GateSpec::Input);
    assert(ws[0] == Some(r as u64) && ws[1] == Some(g as u64) && ws[2] == Some(b as u64));
    assert(ws[3] == Some(gray as u64) && ws[4] == Some(remw));
    assert(wire_value(gates, witness, base) == r);
    assert(wire_value(gates, witness, base + 1) == g);
    assert(wire_value(gates, witness, base + 2) == b);
    assert(wire_value(gates, witness, base + 3) == gray);
    assert(wire_value(gates, witness, base + 4) == remw);
    assert(gs[5] == GateSpec::MulConst(30, base as usize));
    assert(gs[6] == GateSpec::MulConst(59, (base + 1) as usize));
    assert(gs[7] == GateSpec::MulConst(11, (base + 2) as usize));
    assert(gs[8] == GateSpec::MulConst(100, (base + 3) as usize));
    assert(wire_value(gates, witness, base + 5) == 30 * r);
    assert(wire_value(gates, witness, base + 6) == 59 * g);
    assert(wire_value(gates, witness, base + 7) == 11 * b);
    assert(wire_value(gates, witness, base + 8) == 100 * gray);
    let ts = seq![(base + 5) as usize, (base + 6) as usize, (base + 7) as usize, (base + 4) as usize];
    assert(gs[9] == GateSpec::AddMany(ts));
    assert(terms_sum(gates, witness, ts, base + 9, 0) == 0);
    assert(terms_sum(gates, witness, ts, base + 9, 1) == 30 * r);
    assert(terms_sum(gates, witness, ts, base + 9, 2) == 30 * r + 59 * g);
    assert(terms_sum(gates, witness, ts, base + 9, 3) == weighted_sum(r, g, b));
    assert(terms_sum(gates, witness, ts, base + 9, 4) == weighted_sum(r, g, b) + remw);
    assert(gs[10] == GateSpec::AddConst((base + 4) as usize, 49));
    if rem < 0 {
        assert(remw == field_order() + rem);
        assert((weighted_sum(r, g, b) + remw) % field_order() == 100 * gray);
        assert((remw + 49) % field_order() == rem + 49);
    } else {
        assert(remw == rem);
    }
}

/// Wire values of every pixel of the grayscale edit circuit.
#[verifier::spinoff_prover]
proof fn lemma_grayscale_edit_wires(
    r: Seq<u8>,
    g: Seq<u8>,
    b: Seq<u8>,
    fg: spec_fn(int) -> Seq<GateSpec>,
    fw: spec_fn(int) -> Seq<Option<u64>>,
)
    requires
        g.len() == r.len(),
        b.len() == r.len(),
        11 * r.len() <= usize::MAX,
        forall|i: int| #[trigger] fg(i) == grayscale_edit_gates(i),
        forall|i: int| 0 <= i < r.len() ==> #[trigger] fw(i) == grayscale_edit_witness(r[i], g[i], b[i]),
    ensures
        forall|i: int| 0 <= i < r.len() ==> {
            &&& #[trigger] wire_value(concat_blocks(r.len(), fg), concat_blocks(r.len(), fw), 11 * i + 3)
                == gray_value(r[i], g[i], b[i])
            &&& wire_value(concat_blocks(r.len(), fg), concat_blocks(r.len(), fw), 11 * i + 8)
                == 100 * gray_value(r[i], g[i], b[i])
            &&& wire_value(concat_blocks(r.len(), fg), concat_blocks(r.len(), fw), 11 * i + 9)
                == 100 * gray_value(r[i], g[i], b[i])
            &&& wire_value(concat_blocks(r.len(), fg), concat_blocks(r.len(), fw), 11 * i + 10)
                == gray_remainder(r[i], g[i], b[i]) + 49
            &&& wire_value(concat_blocks(r.len(), fg), concat_blocks(r.len(), fw), 11 * i) == r[i]
            &&& wire_value(concat_blocks(r.len(), fg), concat_blocks(r.len(), fw), 11 * i + 1) == g[i]
            &&& wire_value(concat_blocks(r.len(), fg), concat_blocks(r.len(), fw), 11 * i + 2) == b[i]
        },
        witness_complete(concat_blocks(r.len(), fg), concat_blocks(r.len(), fw)),
{
    let n = r.len();
    let gates = concat_blocks(n, fg);
    let witness = concat_blocks(n, fw);
    assert forall|i: int| 0 <= i < n implies #[trigger] fw(i).len() == 11 by {}
    lemma_concat_uniform(n, fg, 11);
    lemma_concat_uniform(n, fw, 11);
    assert forall|i: int| 0 <= i < n implies {
        &&& #[trigger] wire_value(gates, witness, 11 * i + 3) == gray_value(r[i], g[i], b[i])
        &&& wire_value(gates, witness, 11 * i + 8) == 100 * gray_value(r[i], g[i], b[i])
        &&& wire_value(gates, witness, 11 * i + 9) == 100 * gray_value(r[i], g[i], b[i])
        &&& wire_value(gates, witness, 11 * i + 10) == gray_remainder(r[i], g[i], b[i]) + 49
        &&& wire_value(gates, witness, 11 * i) == r[i]
        &&& wire_value(gates, witness, 11 * i + 1) == g[i]
        &&& wire_value(gates, witness, 11 * i + 2) == b[i]
    } by {
        assert(11 * i + 11 <= 11 * n) by (nonlinear_arith)
            requires
                i < n,
        ;
        assert forall|j: int| 0 <= j < 11 implies gates[11 * i + j] == #[trigger] grayscale_edit_gates(i)[j] by {
            assert(gates[11 * i + j] == fg(i)[j]);
        }
        assert forall|j: int| 0 <= j < 11 implies witness[11 * i + j] == #[trigger] grayscale_edit_witness(r[i], g[i], b[i])[j] by {
            assert(witness[11 * i + j] == fw(i)[j]);
        }
        lemma_grayscale_edit_block(gates, witness, i, r[i], g[i], b[i]);
    }
    assert forall|idx: int| 0 <= idx < gates.len() && gates[idx] is Input implies #[trigger] witness[idx] is Some by {
        let i = idx / 11;
        let j = idx % 11;
        assert(0 <= i < n) by (nonlinear_arith)
            requires
                idx == 11 * i + j,
                0 <= j < 11,
                0 <= idx < 11 * n,
        ;
        assert(gates[11 * i + j] == fg(i)[j]);
        assert(witness[11 * i + j] == fw(i)[j]);
    }
}

/// Law of the grayscale edit circuit: its witness satisfies it, and its public
/// values are the gray values of the pixels, in order.
#[verifier::spinoff_prover]
#[verifier::rlimit(30)]
proof fn lemma_grayscale_edit_plan_values(
    r: Seq<u8>,
    g: Seq<u8>,
    b: Seq<u8>,
    fg: spec_fn(int) -> Seq<GateSpec>,
    fc: spec_fn(int) -> Seq<Constraint>,
    fp: spec_fn(int) -> Seq<usize>,
    fw: spec_fn(int) -> Seq<Option<u64>>,
)
    requires
        g.len() == r.len(),
        b.len() == r.len(),
        11 * r.len() <= usize::MAX,
        forall|i: int| #[trigger] fg(i) == grayscale_edit_gates(i),
        forall|i: int| #[trigger] fc(i) == grayscale_edit_constraints(i),
        forall|i: int| #[trigger] fp(i) == seq![(11 * i + 3) as usize],
        forall|i: int| 0 <= i < r.len() ==> #[trigger] fw(i) == grayscale_edit_witness(r[i], g[i], b[i]),
    ensures
        public_values(concat_blocks(r.len(), fg), concat_blocks(r.len(), fw), concat_blocks(r.len(), fp))
            == Seq::new(r.len(), |i: int| gray_value(r[i], g[i], b[i]) as int),
        satisfied(concat_blocks(r.len(), fg), concat_blocks(r.len(), fw), concat_blocks(r.len(), fc)),
{
    let n = r.len();
    let gates = concat_blocks(n, fg);
    let witness = concat_blocks(n, fw);
    let publics = concat_blocks(n, fp);
    let constraints = concat_blocks(n, fc);
    lemma_grayscale_edit_wires(r, g, b, fg, fw);
    lemma_concat_uniform(n, fp, 1);
    lemma_concat_uniform(n, fc, 6);
    let expected = Seq::new(n, |i: int| gray_value(r[i], g[i], b[i]) as int);
    assert forall|i: int| 0 <= i < n implies #[trigger] public_values(gates, witness, publics)[i] == expected[i] by {
        assert(publics[1 * i + 0] == fp(i)[0]);
        assert(wire_value(gates, witness, 11 * i + 3) == gray_value(r[i], g[i], b[i]));
    }
    assert(public_values(gates, witness, publics) =~= expected);
    lemma2_to64();
    assert forall|k: int| 0 <= k < constraints.len() implies #[trigger] constraint_holds(gates, witness, constraints[k]) by {
        let i = k / 6;
        let j = k % 6;
        assert(0 <= i < n) by (nonlinear_arith)
            requires
                k == 6 * i + j,
                0 <= j < 6,
                0 <= k < 6 * n,
        ;
        assert(constraints[6 * i + j] == fc(i)[j]);
        assert(wire_value(gates, witness, 11 * i + 3) == gray_value(r[i], g[i], b[i]));
        assert(-49 <= gray_remainder(r[i], g[i], b[i]) <= 50);
        let cs = grayscale_edit_constraints(i);
        if j == 0 {
            assert(cs[0] == Constraint::Connect { a: (11 * i + 9) as usize, b: (11 * i + 8) as usize });
        } else if j == 1 {
            assert(cs[1] == Constraint::RangeCheck { t: (11 * i) as usize, bits: 8 });
        } else if j == 2 {
            assert(cs[2] == Constraint::RangeCheck { t: (11 * i + 1) as usize, bits: 8 });
        } else if j == 3 {
            assert(cs[3] == Constraint::RangeCheck { t: (11 * i + 2) as usize, bits: 8 });
        } else if j == 4 {
            assert(cs[4] == Constraint::RangeCheck { t: (11 * i + 3) as usize, bits: 8 });
        } else {
            assert(cs[5] == Constraint::RangeCheck { t: (11 * i + 10) as usize, bits: 7 });
        }
    }
}

/// Circuit for the grayscale transformation
///
/// Circuit proves: 100 * gray = 30*R + 59*G + 11*B + rem
/// where rem ∈ [-49, 50]; the gray values are the public inputs.
pub fn grayscale_edit_plan(r_pixels: &[u8], g_pixels: &[u8], b_pixels: &[u8], config: &ProverConfig) -> (res: Result<CircuitPlan, ProverError>)
    requires
        11 * r_pixels@.len() <= usize::MAX,
    ensures
        match res {
            Ok(plan) => {
                let n = r_pixels@.len();
                &&& g_pixels@.len() == n && b_pixels@.len() == n
                &&& plan.zero_knowledge == config.use_zk
                &&& plan.gate_specs() == concat_blocks(n, |i: int| grayscale_edit_gates(i))
                &&& plan.constraints@ == concat_blocks(n, |i: int| grayscale_edit_constraints(i))
                &&& plan.public_inputs@ == concat_blocks(n, |i: int| seq![(11 * i + 3) as usize])
                &&& plan.witness@ == concat_blocks(
                    n,
                    |i: int| grayscale_edit_witness(r_pixels@[i], g_pixels@[i], b_pixels@[i]),
                )
                &&& public_values(plan.gate_specs(), plan.witness@, plan.public_inputs@)
                    == gray_channel(r_pixels@, g_pixels@, b_pixels@).map_values(|v: u8| v as int)
                &&& satisfied(plan.gate_specs(), plan.witness@, plan.constraints@)
            },
            Err(e) => e == ProverError::ChannelLengthMismatch && !(g_pixels@.len() == r_pixels@.len()
                && b_pixels@.len() == r_pixels@.len()),
        },
{
    if r_pixels.len() != g_pixels.len() || g_pixels.len() != b_pixels.len() {
        return Err(ProverError::ChannelLengthMismatch);
    }
    let n = r_pixels.len();
    let ghost fg = |i: int| grayscale_edit_gates(i);
    let ghost fc = |i: int| grayscale_edit_constraints(i);
    let ghost fp = |i: int| seq![(11 * i + 3) as usize];
    let ghost fw = |i: int| grayscale_edit_witness(r_pixels@[i], g_pixels@[i], b_pixels@[i]);
    let mut gates: Vec<Gate> = Vec::new();
    let mut constraints: Vec<Constraint> = Vec::new();
    let mut public_inputs: Vec<usize> = Vec::new();
    let mut witness: Vec<Option<u64>> = Vec::new();
    let mut i: usize = 0;
    while i < n
        invariant
            n == r_pixels@.len(),
            n == g_pixels@.len(),
            n == b_pixels@.len(),
            11 * n <= usize::MAX,
            i <= n,
            fg == (|i: int| grayscale_edit_gates(i)),
            fc == (|i: int| grayscale_edit_constraints(i)),
            fp == (|i: int| seq![(11 * i + 3) as usize]),
            fw == (|i: int| grayscale_edit_witness(r_pixels@[i], g_pixels@[i], b_pixels@[i])),
            gates_view(gates@) == concat_blocks(i as nat, fg),
            constraints@ == concat_blocks(i as nat, fc),
            public_inputs@ == concat_blocks(i as nat, fp),
            witness@ == concat_blocks(i as nat, fw),
        decreases n - i,
    {
        let ghost old_public = public_inputs@;
        push_grayscale_edit_gates(&mut gates, i);
        push_grayscale_edit_constraints(&mut constraints, i);
        public_inputs.push(11 * i + 3);
        push_grayscale_edit_witness(&mut witness, r_pixels[i], g_pixels[i], b_pixels[i]);
        proof {
            assert(public_inputs@ =~= old_public + fp(i as int));
        }
        i = i + 1;
    }
    proof {
        lemma_grayscale_edit_plan_values(r_pixels@, g_pixels@, b_pixels@, fg, fc, fp, fw);
        assert(Seq::new(n as nat, |i: int| gray_value(r_pixels@[i], g_pixels@[i], b_pixels@[i]) as int)
            =~= gray_channel(r_pixels@, g_pixels@, b_pixels@).map_values(|v: u8| v as int));
    }
    Ok(CircuitPlan { zero_knowledge: config.use_zk, gates, constraints, public_inputs, witness })
}


/// Public inputs of the crop edit circuit: the R, G and B wires of each pixel of
/// the crop region, row by row, that lies inside the image.
pub open spec fn crop_edit_public(w: int, n: int, cx: int, cy: int, cw: int, ch: int) -> Seq<usize> {
    concat_blocks(
        (cw * ch) as nat,
        |k: int|
            if region_index(w, cx, cy, cw, k) < n {
                seq![
                    (3 * region_index(w, cx, cy, cw, k)) as usize,
                    (3 * region_index(w, cx, cy, cw, k) + 1) as usize,
                    (3 * region_index(w, cx, cy, cw, k) + 2) as usize,
                ]
            } else {
                Seq::empty()
            },
    )
}

/// Witness of the crop edit circuit: R, G and B of each image pixel (0 past the
/// end of a channel).
pub open spec fn channel_triples(r: Seq<u8>, g: Seq<u8>, b: Seq<u8>, n: nat) -> Seq<Option<u64>> {
    concat_blocks(
        n,
        |i: int| seq![Some(get_or_zero(r, i) as u64), Some(get_or_zero(g, i) as u64), Some(get_or_zero(b, i) as u64)],
    )
}

/// Channel values of the crop region's pixels, R, G and B of each, row by row,
/// for the region pixels that lie inside the image.
pub open spec fn crop_edit_values(r: Seq<u8>, g: Seq<u8>, b: Seq<u8>, w: int, n: int, cx: int, cy: int, cw: int, ch: int) -> Seq<int> {
    concat_blocks(
        (cw * ch) as nat,
        |k: int|
            if region_index(w, cx, cy, cw, k) < n {
                seq![
                    get_or_zero(r, region_index(w, cx, cy, cw, k)) as int,
                    get_or_zero(g, region_index(w, cx, cy, cw, k)) as int,
                    get_or_zero(b, region_index(w, cx, cy, cw, k)) as int,
                ]
            } else {
                Seq::empty()
            },
    )
}

/// Law of the crop edit circuit: its witness satisfies it, and its public values
/// are the channel values of the crop region's pixels.
#[verifier::spinoff_prover]
proof fn lemma_crop_edit_plan_values(r: Seq<u8>, g: Seq<u8>, b: Seq<u8>, w: int, n: int, cx: int, cy: int, cw: int, ch: int)
    requires
        0 <= n,
        3 * n <= usize::MAX,
        0 <= cw,
        0 <= ch,
        0 <= w,
        0 <= cx,
        0 <= cy,
    ensures
        satisfied(Seq::new((3 * n) as nat, |i: int| GateSpec::Input), channel_triples(r, g, b, n as nat), Seq::<Constraint>::empty()),
        public_values(Seq::new((3 * n) as nat, |i: int| GateSpec::Input), channel_triples(r, g, b, n as nat),
            crop_edit_public(w, n, cx, cy, cw, ch)) == crop_edit_values(r, g, b, w, n, cx, cy, cw, ch),
{
    let gates = Seq::new((3 * n) as nat, |i: int| GateSpec::Input);
    let fw = |i: int| seq![Some(get_or_zero(r, i) as u64), Some(get_or_zero(g, i) as u64), Some(get_or_zero(b, i) as u64)];
    let witness = channel_triples(r, g, b, n as nat);
    assert(witness == concat_blocks(n as nat, fw));
    lemma_concat_uniform(n as nat, fw, 3);
    assert forall|idx: int| 0 <= idx < gates.len() && gates[idx] is Input implies #[trigger] witness[idx] is Some by {
        let i = idx / 3;
        let j = idx % 3;
        assert(0 <= i < n) by (nonlinear_arith)
            requires
                idx == 3 * i + j,
                0 <= j < 3,
                0 <= idx < 3 * n,
        ;
        assert(witness[3 * i + j] == fw(i)[j]);
    }
    assert(witness_complete(gates, witness));
    let fp = |k: int|
        if region_index(w, cx, cy, cw, k) < n {
            seq![
                (3 * region_index(w, cx, cy, cw, k)) as usize,
                (3 * region_index(w, cx, cy, cw, k) + 1) as usize,
                (3 * region_index(w, cx, cy, cw, k) + 2) as usize,
            ]
        } else {
            Seq::<usize>::empty()
        };
    let fv = |k: int|
        if region_index(w, cx, cy, cw, k) < n {
            seq![
                get_or_zero(r, region_index(w, cx, cy, cw, k)) as int,
                get_or_zero(g, region_index(w, cx, cy, cw, k)) as int,
                get_or_zero(b, region_index(w, cx, cy, cw, k)) as int,
            ]
        } else {
            Seq::<int>::empty()
        };
    assert forall|k: int| 0 <= k < (cw * ch) as nat implies public_values(gates, witness, #[trigger] fp(k)) == fv(k) by {
        let ri = region_index(w, cx, cy, cw, k);
        if ri < n {
            assert(cw > 0) by (nonlinear_arith)
                requires
                    0 <= k < cw * ch,
                    0 <= ch,
            ;
            assert(0 <= ri) by (nonlinear_arith)
                requires
                    ri == (cy + k / cw) * w + (cx + k % cw),
                    0 <= k,
                    cw > 0,
                    0 <= w,
                    0 <= cx,
                    0 <= cy,
            ;
            assert(witness[3 * ri + 0] == fw(ri)[0]);
            assert(witness[3 * ri + 1] == fw(ri)[1]);
            assert(witness[3 * ri + 2] == fw(ri)[2]);
            assert(wire_value(gates, witness, 3 * ri) == get_or_zero(r, ri));
            assert(wire_value(gates, witness, 3 * ri + 1) == get_or_zero(g, ri));
            assert(wire_value(gates, witness, 3 * ri + 2) == get_or_zero(b, ri));
            assert(public_values(gates, witness, fp(k)) =~= fv(k));
        } else {
            assert(public_values(gates, witness, fp(k)) =~= fv(k));
        }
    }
    lemma_public_values_concat(gates, witness, (cw * ch) as nat, fp, fv);
}

/// Law linking the crop edit circuit to the crop: for a region inside the image,
/// the circuit publishes R, G and B of each pixel of the cropped image, pixel by
/// pixel.
pub proof fn lemma_crop_edit_circuit_publishes_cropped_image(
    r: Seq<u8>,
    g: Seq<u8>,
    b: Seq<u8>,
    w: u32,
    h: u32,
    x: u32,
    y: u32,
    cw: u32,
    chh: u32,
)
    requires
        r.len() == w * h,
        g.len() == w * h,
        b.len() == w * h,
        x + cw <= w,
        y + chh <= h,
    ensures
        crop_edit_values(r, g, b, w as int, (w * h) as int, x as int, y as int, cw as int, chh as int)
            == concat_blocks((cw * chh) as nat, |k: int| seq![
                crop_channel(r, w as int, x as int, y as int, cw as int, chh as int)[k] as int,
                crop_channel(g, w as int, x as int, y as int, cw as int, chh as int)[k] as int,
                crop_channel(b, w as int, x as int, y as int, cw as int, chh as int)[k] as int,
            ]),
{
    let (wi, n, xi, yi, cwi, chi) = (w as int, (w * h) as int, x as int, y as int, cw as int, chh as int);
    let f = |k: int|
        if region_index(wi, xi, yi, cwi, k) < n {
            seq![
                get_or_zero(r, region_index(wi, xi, yi, cwi, k)) as int,
                get_or_zero(g, region_index(wi, xi, yi, cwi, k)) as int,
                get_or_zero(b, region_index(wi, xi, yi, cwi, k)) as int,
            ]
        } else {
            Seq::<int>::empty()
        };
    let t = |k: int| seq![
        crop_channel(r, wi, xi, yi, cwi, chi)[k] as int,
        crop_channel(g, wi, xi, yi, cwi, chi)[k] as int,
        crop_channel(b, wi, xi, yi, cwi, chi)[k] as int,
    ];
    assert forall|k: int| 0 <= k < (cw * chh) as nat implies #[trigger] f(k) == t(k) by {
        let col = k % cwi;
        let row = k / cwi;
        assert(cw > 0 && chh > 0) by (nonlinear_arith)
            requires
                0 <= k < cw * chh,
        ;
        assert(0 <= row < chh) by (nonlinear_arith)
            requires
                0 <= k < cw * chh,
                cw > 0,
                cwi == cw,
                row == k / cwi,
        ;
        crate::image_io::lemma_pixel_index_bounds(wi, h as int, xi + col, yi + row);
        assert(f(k) =~= t(k));
    }
    lemma_concat_blocks_congruent((cw * chh) as nat, f, t);
}

/// Circuit for the crop transformation
///
/// Circuit proves: output pixels are a valid subset of input at specified region.
/// Every image pixel has three input wires (R, G, B); those of the crop region
/// are the public inputs.
pub fn crop_edit_plan(
    r_pixels: &[u8],
    g_pixels: &[u8],
    b_pixels: &[u8],
    width: u32,
    height: u32,
    crop_x: u32,
    crop_y: u32,
    crop_width: u32,
    crop_height: u32,
    config: &ProverConfig,
) -> (plan: CircuitPlan)
    requires
        width * height <= u32::MAX,
        3 * (width * height) <= usize::MAX,
        crop_region_fits(width, crop_x, crop_y, crop_width, crop_height),
    ensures
        plan.zero_knowledge == config.use_zk,
        plan.gate_specs() == Seq::new((3 * (width * height)) as nat, |i: int| GateSpec::Input),
        plan.constraints@ == Seq::<Constraint>::empty(),
        plan.public_inputs@ == crop_edit_public(width as int, (width * height) as int, crop_x as int, crop_y as int,
            crop_width as int, crop_height as int),
        plan.witness@ == channel_triples(r_pixels@, g_pixels@, b_pixels@, (width * height) as nat),
        satisfied(plan.gate_specs(), plan.witness@, plan.constraints@),
        public_values(plan.gate_specs(), plan.witness@, plan.public_inputs@) == crop_edit_values(r_pixels@, g_pixels@,
            b_pixels@, width as int, (width * height) as int, crop_x as int, crop_y as int, crop_width as int,
            crop_height as int),
{
    let pixel_count = (width * height) as usize;
    let mut gates: Vec<Gate> = Vec::new();
    push_inputs(&mut gates, 3 * pixel_count);
    let ghost fw = |i: int| seq![Some(get_or_zero(r_pixels@, i) as u64), Some(get_or_zero(g_pixels@, i) as u64), Some(get_or_zero(b_pixels@, i) as u64)];
    let mut witness: Vec<Option<u64>> = Vec::new();
    let mut i: usize = 0;
    while i < pixel_count
        invariant
            i <= pixel_count,
            fw == (|i: int| seq![Some(get_or_zero(r_pixels@, i) as u64), Some(get_or_zero(g_pixels@, i) as u64), Some(get_or_zero(b_pixels@, i) as u64)]),
            witness@ == concat_blocks(i as nat, fw),
        decreases pixel_count - i,
    {
        proof {
            lemma_concat_blocks_step(i as nat, fw);
        }
        witness.push(Some(get_or_zero_exec(r_pixels, i) as u64));
        witness.push(Some(get_or_zero_exec(g_pixels, i) as u64));
        witness.push(Some(get_or_zero_exec(b_pixels, i) as u64));
        proof {
            assert(witness@ =~= concat_blocks(i as nat, fw) + fw(i as int));
        }
        i = i + 1;
    }
    let ghost (wi, ni, cxi, cyi, cwi) = (width as int, pixel_count as int, crop_x as int, crop_y as int, crop_width as int);
    let ghost fp = |k: int|
        if region_index(wi, cxi, cyi, cwi, k) < ni {
            seq![
                (3 * region_index(wi, cxi, cyi, cwi, k)) as usize,
                (3 * region_index(wi, cxi, cyi, cwi, k) + 1) as usize,
                (3 * region_index(wi, cxi, cyi, cwi, k) + 2) as usize,
            ]
        } else {
            Seq::<usize>::empty()
        };
    let mut public_inputs: Vec<usize> = Vec::new();
    let mut row: u32 = 0;
    while row < crop_height
        invariant
            crop_region_fits(width, crop_x, crop_y, crop_width, crop_height),
            3 * pixel_count <= usize::MAX,
            wi == width as int,
            ni == pixel_count as int,
            cxi == crop_x as int,
            cyi == crop_y as int,
            cwi == crop_width as int,
            row <= crop_height,
            fp == (|k: int|
                if region_index(wi, cxi, cyi, cwi, k) < ni {
                    seq![
                        (3 * region_index(wi, cxi, cyi, cwi, k)) as usize,
                        (3 * region_index(wi, cxi, cyi, cwi, k) + 1) as usize,
                        (3 * region_index(wi, cxi, cyi, cwi, k) + 2) as usize,
                    ]
                } else {
                    Seq::<usize>::empty()
                }),
            public_inputs@ == concat_blocks((row * crop_width) as nat, fp),
        decreases crop_height - row,
    {
        let mut col: u32 = 0;
        while col < crop_width
            invariant
                crop_region_fits(width, crop_x, crop_y, crop_width, crop_height),
                3 * pixel_count <= usize::MAX,
                wi == width as int,
                ni == pixel_count as int,
                cxi == crop_x as int,
                cyi == crop_y as int,
                cwi == crop_width as int,
                row < crop_height,
                col <= crop_width,
                fp == (|k: int|
                    if region_index(wi, cxi, cyi, cwi, k) < ni {
                        seq![
                            (3 * region_index(wi, cxi, cyi, cwi, k)) as usize,
                            (3 * region_index(wi, cxi, cyi, cwi, k) + 1) as usize,
                            (3 * region_index(wi, cxi, cyi, cwi, k) + 2) as usize,
                        ]
                    } else {
                        Seq::<usize>::empty()
                    }),
                public_inputs@ == concat_blocks((row * crop_width + col) as nat, fp),
            decreases crop_width - col,
        {
            let ghost k = row * crop_width + col;
            proof {
                lemma_region_index(wi, cxi, cyi, cwi, row as int, col as int);
                lemma_concat_blocks_step(k as nat, fp);
                assert((crop_y + row) * width + (crop_x + col) <= (crop_y + crop_height - 1) * width + (crop_x + crop_width - 1)) by (nonlinear_arith)
                    requires
                        row < crop_height,
                        col < crop_width,
                ;
            }
            let idx = ((crop_y + row) * width + (crop_x + col)) as usize;
            if idx < pixel_count {
                public_inputs.push(3 * idx);
                public_inputs.push(3 * idx + 1);
                public_inputs.push(3 * idx + 2);
            }
            proof {
                assert(public_inputs@ =~= concat_blocks(k as nat, fp) + fp(k));
            }
            col = col + 1;
        }
        proof {
            assert(row * crop_width + crop_width == (row + 1) * crop_width) by (nonlinear_arith);
        }
        row = row + 1;
    }
    proof {
        assert(crop_height * crop_width == crop_width * crop_height) by (nonlinear_arith);
        assert(gates_view(gates@) =~= Seq::new((3 * (width * height)) as nat, |i: int| GateSpec::Input));
        lemma_crop_edit_plan_values(r_pixels@, g_pixels@, b_pixels@, wi, ni, cxi, cyi, cwi, crop_height as int);
    }
    CircuitPlan { zero_knowledge: config.use_zk, gates, constraints: Vec::new(), public_inputs, witness }
}


/// The four source pixels (top-left, top-right, bottom-left, bottom-right) of
/// output pixel (`col`, `row`) of a resize of channel `ch` (0 where a channel is short).
pub open spec fn resize_corners(ch: Seq<u8>, w: int, h: int, nw: int, nh: int, col: int, row: int) -> (u8, u8, u8, u8) {
    let xl = src_low(col, w, nw);
    let xh = src_high(col, w, nw);
    let yl = src_low(row, h, nh);
    let yh = src_high(row, h, nh);
    (
        get_or_zero(ch, pixel_index(w, xl, yl)),
        get_or_zero(ch, pixel_index(w, xh, yl)),
        get_or_zero(ch, pixel_index(w, xl, yh)),
        get_or_zero(ch, pixel_index(w, xh, yh)),
    )
}

/// Witness of output pixel (`col`, `row`) in the resize edit circuit: the four
/// source pixels of the R channel and their bilinear interpolation, rounded.
pub open spec fn resize_edit_witness(ch: Seq<u8>, w: int, h: int, nw: int, nh: int, col: int, row: int) -> Seq<Option<u64>> {
    let (a, b, c, d) = resize_corners(ch, w, h, nw, nh, col, row);
    let out = resize_edit_output(ch, w, h, nw, nh, col, row);
    seq![Some(a as u64), Some(b as u64), Some(c as u64), Some(d as u64), Some(out as u64)]
}

/// Bilinear interpolation of output pixel (`col`, `row`) from its four source
/// pixels (0 past the end of the channel), rounded.
pub open spec fn resize_edit_output(ch: Seq<u8>, w: int, h: int, nw: int, nh: int, col: int, row: int) -> int {
    let (a, b, c, d) = resize_corners(ch, w, h, nw, nh, col, row);
    let dw = resize_den(nw);
    let dh = resize_den(nh);
    round_div(
        bilinear_num(a as int, b as int, c as int, d as int, src_frac(col, w, nw), src_frac(row, h, nh), dw, dh),
        dw * dh,
    )
}

/// On a whole channel, the interpolation of an output pixel from its source
/// pixels is the pixel of the resized channel.
pub proof fn lemma_resize_edit_output_is_resized(ch: Seq<u8>, w: u32, h: u32, nw: u32, nh: u32, k: int)
    requires
        w >= 1,
        h >= 1,
        ch.len() == w * h,
        0 <= k < nw * nh,
    ensures
        resize_edit_output(ch, w as int, h as int, nw as int, nh as int, k % (nw as int), k / (nw as int))
            == resize_channel(ch, w as int, h as int, nw as int, nh as int)[k] as int,
        0 <= resize_edit_output(ch, w as int, h as int, nw as int, nh as int, k % (nw as int), k / (nw as int)) <= 255,
{
    let col = k % (nw as int);
    let row = k / (nw as int);
    assert(nw > 0 && nh > 0) by (nonlinear_arith)
        requires
            0 <= k < nw * nh,
    ;
    assert(0 <= row < nh) by (nonlinear_arith)
        requires
            0 <= k < nw * nh,
            nw > 0,
            row == k / (nw as int),
    ;
    crate::image_io::lemma_src_coords(col, w as int, nw as int);
    crate::image_io::lemma_src_coords(row, h as int, nh as int);
    let xl = src_low(col, w as int, nw as int);
    let xh = src_high(col, w as int, nw as int);
    let yl = src_low(row, h as int, nh as int);
    let yh = src_high(row, h as int, nh as int);
    crate::image_io::lemma_pixel_index_bounds(w as int, h as int, xl, yl);
    crate::image_io::lemma_pixel_index_bounds(w as int, h as int, xh, yl);
    crate::image_io::lemma_pixel_index_bounds(w as int, h as int, xl, yh);
    crate::image_io::lemma_pixel_index_bounds(w as int, h as int, xh, yh);
    let (a, b, c, d) = resize_corners(ch, w as int, h as int, nw as int, nh as int, col, row);
    crate::image_io::lemma_bilinear_bound(a as int, b as int, c as int, d as int, src_frac(col, w as int, nw as int),
        src_frac(row, h as int, nh as int), resize_den(nw as int), resize_den(nh as int));
}

/// Law of the resize edit circuit: its witness satisfies it, and its public
/// values are the interpolated output pixels, row by row; for a whole channel
/// they are the resized channel.
#[verifier::spinoff_prover]
proof fn lemma_resize_edit_plan_values(ch: Seq<u8>, w: u32, h: u32, nw: u32, nh: u32, fw: spec_fn(int) -> Seq<Option<u64>>, fp: spec_fn(int) -> Seq<usize>)
    requires
        resize_fits(w, h, nw, nh),
        5 * (nw * nh) <= usize::MAX,
        forall|k: int| #[trigger] fw(k) == resize_edit_witness(ch, w as int, h as int, nw as int, nh as int, k % (nw as int), k / (nw as int)),
        forall|k: int| #[trigger] fp(k) == seq![(5 * k + 4) as usize],
    ensures
        satisfied(Seq::new((5 * (nw * nh)) as nat, |i: int| GateSpec::Input), concat_blocks((nw * nh) as nat, fw),
            Seq::<Constraint>::empty()),
        public_values(Seq::new((5 * (nw * nh)) as nat, |i: int| GateSpec::Input), concat_blocks((nw * nh) as nat, fw),
            concat_blocks((nw * nh) as nat, fp))
            == Seq::new((nw * nh) as nat, |k: int| resize_edit_output(ch, w as int, h as int, nw as int, nh as int,
                k % (nw as int), k / (nw as int))),
        ch.len() == w * h ==> public_values(Seq::new((5 * (nw * nh)) as nat, |i: int| GateSpec::Input),
            concat_blocks((nw * nh) as nat, fw), concat_blocks((nw * nh) as nat, fp))
            == resize_channel(ch, w as int, h as int, nw as int, nh as int).map_values(|v: u8| v as int),
{
    let m = (nw * nh) as nat;
    let gates = Seq::new((5 * m) as nat, |i: int| GateSpec::Input);
    let witness = concat_blocks(m, fw);
    let publics = concat_blocks(m, fp);
    assert forall|k: int| 0 <= k < m implies #[trigger] fw(k).len() == 5 by {}
    lemma_concat_uniform(m, fw, 5);
    lemma_concat_uniform(m, fp, 1);
    assert forall|idx: int| 0 <= idx < gates.len() && gates[idx] is Input implies #[trigger] witness[idx] is Some by {
        let k = idx / 5;
        let j = idx % 5;
        assert(0 <= k < m) by (nonlinear_arith)
            requires
                idx == 5 * k + j,
                0 <= j < 5,
                0 <= idx < 5 * m,
        ;
        assert(witness[5 * k + j] == fw(k)[j]);
    }
    assert(witness_complete(gates, witness));
    let expected = Seq::new(m, |k: int| resize_edit_output(ch, w as int, h as int, nw as int, nh as int,
        k % (nw as int), k / (nw as int)));
    assert forall|k: int| 0 <= k < m implies #[trigger] public_values(gates, witness, publics)[k] == expected[k] by {
        let col = k % (nw as int);
        let row = k / (nw as int);
        assert(nw > 0 && nh > 0) by (nonlinear_arith)
            requires
                0 <= k < m,
                m == nw * nh,
        ;
        assert(0 <= row < nh) by (nonlinear_arith)
            requires
                0 <= k < nw * nh,
                nw > 0,
                row == k / (nw as int),
        ;
        assert(5 * k + 5 <= 5 * m) by (nonlinear_arith)
            requires
                k < m,
        ;
        assert(publics[1 * k + 0] == fp(k)[0]);
        assert(witness[5 * k + 4] == fw(k)[4]);
        crate::image_io::lemma_src_coords(col, w as int, nw as int);
        crate::image_io::lemma_src_coords(row, h as int, nh as int);
        let (a, b, c, d) = resize_corners(ch, w as int, h as int, nw as int, nh as int, col, row);
        crate::image_io::lemma_bilinear_bound(a as int, b as int, c as int, d as int, src_frac(col, w as int, nw as int),
            src_frac(row, h as int, nh as int), resize_den(nw as int), resize_den(nh as int));
    }
    assert(public_values(gates, witness, publics) =~= expected);
    if ch.len() == w * h {
        let resized = resize_channel(ch, w as int, h as int, nw as int, nh as int).map_values(|v: u8| v as int);
        assert forall|k: int| 0 <= k < m implies #[trigger] expected[k] == resized[k] by {
            let col = k % (nw as int);
            let row = k / (nw as int);
            assert(nw > 0 && nh > 0) by (nonlinear_arith)
                requires
                    0 <= k < m,
                    m == nw * nh,
            ;
            assert(0 <= row < nh) by (nonlinear_arith)
                requires
                    0 <= k < nw * nh,
                    nw > 0,
                    row == k / (nw as int),
            ;
            crate::image_io::lemma_src_coords(col, w as int, nw as int);
            crate::image_io::lemma_src_coords(row, h as int, nh as int);
            let xl = src_low(col, w as int, nw as int);
            let xh = src_high(col, w as int, nw as int);
            let yl = src_low(row, h as int, nh as int);
            let yh = src_high(row, h as int, nh as int);
            crate::image_io::lemma_pixel_index_bounds(w as int, h as int, xl, yl);
            crate::image_io::lemma_pixel_index_bounds(w as int, h as int, xh, yl);
            crate::image_io::lemma_pixel_index_bounds(w as int, h as int, xl, yh);
            crate::image_io::lemma_pixel_index_bounds(w as int, h as int, xh, yh);
            let (a, b, c, d) = resize_corners(ch, w as int, h as int, nw as int, nh as int, col, row);
            crate::image_io::lemma_bilinear_bound(a as int, b as int, c as int, d as int, src_frac(col, w as int, nw as int),
                src_frac(row, h as int, nh as int), resize_den(nw as int), resize_den(nh as int));
        }
        assert(expected =~= resized);
    }
}

/// The resize computes its source coordinates in `u32` without overflow.
pub open spec fn resize_fits(w: u32, h: u32, nw: u32, nh: u32) -> bool {
    (nw > 0 && nh > 0) ==> {
        &&& w >= 1
        &&& h >= 1
        &&& (w - 1) * (nw - 1) <= u32::MAX
        &&& (h - 1) * (nh - 1) <= u32::MAX
        &&& w * h - 1 <= u32::MAX
    }
}

/// Circuit for bilinear resize transformation
///
/// For each output pixel (row by row) the circuit has five input wires: the four
/// source pixels of the R channel and the interpolated output, which is public.
pub fn resize_edit_plan(
    r_pixels: &[u8],
    _g_pixels: &[u8],
    _b_pixels: &[u8],
    original_width: u32,
    original_height: u32,
    new_width: u32,
    new_height: u32,
    config: &ProverConfig,
) -> (plan: CircuitPlan)
    requires
        resize_fits(original_width, original_height, new_width, new_height),
        5 * (new_width * new_height) <= usize::MAX,
    ensures
        plan.zero_knowledge == config.use_zk,
        plan.gate_specs() == Seq::new((5 * (new_width * new_height)) as nat, |i: int| GateSpec::Input),
        plan.constraints@ == Seq::<Constraint>::empty(),
        plan.public_inputs@ == concat_blocks((new_width * new_height) as nat, |k: int| seq![(5 * k + 4) as usize]),
        plan.witness@ == concat_blocks(
            (new_width * new_height) as nat,
            |k: int| resize_edit_witness(r_pixels@, original_width as int, original_height as int, new_width as int,
                new_height as int, k % new_width as int, k / new_width as int),
        ),
        satisfied(plan.gate_specs(), plan.witness@, plan.constraints@),
        public_values(plan.gate_specs(), plan.witness@, plan.public_inputs@) == Seq::new(
            (new_width * new_height) as nat,
            |k: int| resize_edit_output(r_pixels@, original_width as int, original_height as int, new_width as int,
                new_height as int, k % new_width as int, k / new_width as int),
        ),
        r_pixels@.len() == original_width * original_height ==> public_values(plan.gate_specs(), plan.witness@,
            plan.public_inputs@) == resize_channel(r_pixels@, original_width as int, original_height as int,
            new_width as int, new_height as int).map_values(|v: u8| v as int),
{
    let ghost (w, h, nw, nh) = (original_width as int, original_height as int, new_width as int, new_height as int);
    let ghost fp = |k: int| seq![(5 * k + 4) as usize];
    let ghost fw = |k: int| resize_edit_witness(r_pixels@, w, h, nw, nh, k % nw, k / nw);
    let mut gates: Vec<Gate> = Vec::new();
    let mut public_inputs: Vec<usize> = Vec::new();
    let mut witness: Vec<Option<u64>> = Vec::new();
    let mut row: u32 = 0;
    while row < new_height
        invariant
            resize_fits(original_width, original_height, new_width, new_height),
            5 * (new_width * new_height) <= usize::MAX,
            w == original_width as int,
            h == original_height as int,
            nw == new_width as int,
            nh == new_height as int,
            row <= new_height,
            fp == (|k: int| seq![(5 * k + 4) as usize]),
            fw == (|k: int| resize_edit_witness(r_pixels@, w, h, nw, nh, k % nw, k / nw)),
            gates_view(gates@) =~= Seq::new((5 * (row * new_width)) as nat, |i: int| GateSpec::Input),
            public_inputs@ == concat_blocks((row * new_width) as nat, fp),
            witness@ == concat_blocks((row * new_width) as nat, fw),
        decreases new_height - row,
    {
        let mut col: u32 = 0;
        proof {
            assert((row + 1) * new_width <= new_width * new_height) by (nonlinear_arith)
                requires
                    row < new_height,
            ;
        }
        while col < new_width
            invariant
                resize_fits(original_width, original_height, new_width, new_height),
                5 * (new_width * new_height) <= usize::MAX,
                (row + 1) * new_width <= new_width * new_height,
                w == original_width as int,
                h == original_height as int,
                nw == new_width as int,
                nh == new_height as int,
                row < new_height,
                col <= new_width,
                fp == (|k: int| seq![(5 * k + 4) as usize]),
                fw == (|k: int| resize_edit_witness(r_pixels@, w, h, nw, nh, k % nw, k / nw)),
                gates_view(gates@) =~= Seq::new((5 * (row * new_width + col)) as nat, |i: int| GateSpec::Input),
                public_inputs@ == concat_blocks((row * new_width + col) as nat, fp),
                witness@ == concat_blocks((row * new_width + col) as nat, fw),
            decreases new_width - col,
        {
            let ghost k = row * new_width + col;
            proof {
                crate::image_io::lemma_pixel_index_split(nw, col as int, row as int);
                lemma_concat_blocks_step(k as nat, fp);
                lemma_concat_blocks_step(k as nat, fw);
                assert(row * new_width + col < (row + 1) * new_width) by (nonlinear_arith)
                    requires
                        col < new_width,
                ;
            }
            let c = source_corners(original_width, original_height, new_width, new_height, col, row);
            proof {
                assert(c.yh * original_width + c.xh <= original_width * original_height - 1) by (nonlinear_arith)
                    requires
                        c.xl <= c.xh < original_width,
                        c.yl <= c.yh < original_height,
                ;
                assert(c.yl * original_width + c.xl <= c.yh * original_width + c.xh) by (nonlinear_arith)
                    requires
                        c.xl <= c.xh,
                        c.yl <= c.yh,
                ;
                assert(c.yl * original_width + c.xh <= c.yh * original_width + c.xh) by (nonlinear_arith)
                    requires
                        c.yl <= c.yh,
                ;
                assert(c.yh * original_width + c.xl <= c.yh * original_width + c.xh);
            }
            let a = get_or_zero_exec(r_pixels, (c.yl * original_width as u64 + c.xl) as usize);
            let b = get_or_zero_exec(r_pixels, (c.yl * original_width as u64 + c.xh) as usize);
            let cc = get_or_zero_exec(r_pixels, (c.yh * original_width as u64 + c.xl) as usize);
            let d = get_or_zero_exec(r_pixels, (c.yh * original_width as u64 + c.xh) as usize);
            let out = interpolate(a, b, cc, d, c.xw, c.yw, c.dw, c.dh);
            let idx = (row as usize) * (new_width as usize) + col as usize;
            let ghost old_gates = gates_view(gates@);
            push_gate(&mut gates, Gate::Input);
            push_gate(&mut gates, Gate::Input);
            push_gate(&mut gates, Gate::Input);
            push_gate(&mut gates, Gate::Input);
            push_gate(&mut gates, Gate::Input);
            public_inputs.push(5 * idx + 4);
            witness.push(Some(a as u64));
            witness.push(Some(b as u64));
            witness.push(Some(cc as u64));
            witness.push(Some(d as u64));
            witness.push(Some(out as u64));
            proof {
                crate::image_io::lemma_bilinear_bound(a as int, b as int, cc as int, d as int, c.xw as int, c.yw as int, c.dw as int, c.dh as int);
                assert(k % nw == col && k / nw == row);
                assert(resize_corners(r_pixels@, w, h, nw, nh, col as int, row as int) == (a, b, cc, d));
                assert(fw(k) =~= seq![Some(a as u64), Some(b as u64), Some(cc as u64), Some(d as u64), Some(out as u64)]);
                assert(public_inputs@ =~= concat_blocks(k as nat, fp) + fp(k));
                assert(witness@ =~= concat_blocks(k as nat, fw) + fw(k));
            }
            col = col + 1;
        }
        proof {
            assert(row * new_width + new_width == (row + 1) * new_width) by (nonlinear_arith);
        }
        row = row + 1;
    }
    proof {
        assert(new_height * new_width == new_width * new_height) by (nonlinear_arith);
        assert(gates_view(gates@) =~= Seq::new((5 * (new_width * new_height)) as nat, |i: int| GateSpec::Input));
        lemma_resize_edit_plan_values(r_pixels@, original_width, original_height, new_width, new_height, fw, fp);
    }
    CircuitPlan { zero_knowledge: config.use_zk, gates, constraints: Vec::new(), public_inputs, witness }
}


/// A `u32` coordinate read as an `i32` (two's complement).
pub open spec fn as_i32(x: int) -> int {
    if x < 0x8000_0000 { x } else { x - 0x1_0000_0000 }
}

/// `v` clamped to `[0, hi]`.
pub open spec fn clamp_to(v: int, hi: int) -> int {
    if v < 0 { 0 } else if v > hi { hi } else { v }
}

/// Index of the neighbour at offset (`dx`, `dy`) of (`x`, `y`), each coordinate
/// clamped to the image.
pub open spec fn clamped_index(w: int, h: int, x: int, y: int, dx: int, dy: int) -> int {
    pixel_index(w, clamp_to(as_i32(x) + dx, w - 1), clamp_to(as_i32(y) + dy, h - 1))
}

/// The nine wires of the clamped 3x3 neighbourhood of (`x`, `y`), row by row.
pub open spec fn clamped_neighbourhood(w: int, h: int, x: int, y: int) -> Seq<usize> {
    seq![
        clamped_index(w, h, x, y, -1, -1) as usize, clamped_index(w, h, x, y, 0, -1) as usize,
        clamped_index(w, h, x, y, 1, -1) as usize, clamped_index(w, h, x, y, -1, 0) as usize,
        clamped_index(w, h, x, y, 0, 0) as usize, clamped_index(w, h, x, y, 1, 0) as usize,
        clamped_index(w, h, x, y, -1, 1) as usize, clamped_index(w, h, x, y, 0, 1) as usize,
        clamped_index(w, h, x, y, 1, 1) as usize,
    ]
}

/// Sum of the clamped 3x3 neighbourhood of (`x`, `y`) in channel `ch` (0 past its end).
pub open spec fn clamped_sum(ch: Seq<u8>, w: int, h: int, x: int, y: int) -> int {
    get_or_zero(ch, clamped_index(w, h, x, y, -1, -1)) + get_or_zero(ch, clamped_index(w, h, x, y, 0, -1))
        + get_or_zero(ch, clamped_index(w, h, x, y, 1, -1)) + get_or_zero(ch, clamped_index(w, h, x, y, -1, 0))
        + get_or_zero(ch, clamped_index(w, h, x, y, 0, 0)) + get_or_zero(ch, clamped_index(w, h, x, y, 1, 0))
        + get_or_zero(ch, clamped_index(w, h, x, y, -1, 1)) + get_or_zero(ch, clamped_index(w, h, x, y, 0, 1))
        + get_or_zero(ch, clamped_index(w, h, x, y, 1, 1))
}

/// Gates of the `k`-th region pixel (`x`, `y`) of the blur edit circuit, after
/// the `n` pixel inputs: the neighbourhood sum, the output, nine times the
/// output, `sum - 9 * output`, and the residual `sum - 9 * output + 4`.
pub open spec fn blur_edit_gates(n: int, k: int, w: int, h: int, x: int, y: int) -> Seq<GateSpec> {
    let s = n + 5 * k;
    seq![
        GateSpec::AddMany(clamped_neighbourhood(w, h, x, y)),
        GateSpec::Input,
        GateSpec::MulConst(9, (s + 1) as usize),
        GateSpec::Sub(s as usize, (s + 2) as usize),
        GateSpec::AddConst((s + 3) as usize, 4),
    ]
}

/// No coordinate in `[lo, lo + len)` makes the `i32` offset `+1` or `-1` overflow.
pub open spec fn i32_offsets_fit(lo: int, len: int) -> bool {
    &&& !(lo <= 0x7FFF_FFFF < lo + len)
    &&& !(lo <= 0x8000_0000 < lo + len)
}

/// The blur region's arithmetic stays within the machine integers that the blur
/// edit circuit computes with.
pub open spec fn blur_edit_fits(w: u32, h: u32, bx: u32, by: u32, bw: u32, bh: u32) -> bool {
    &&& w * h <= u32::MAX
    &&& w * h + 5 * (bw * bh) <= usize::MAX
    &&& by + bh <= u32::MAX
    &&& bh > 0 ==> bx + bw <= u32::MAX
    &&& (bw > 0 && bh > 0) ==> {
        &&& 1 <= w <= 0x7FFF_FFFF
        &&& 1 <= h <= 0x7FFF_FFFF
        &&& i32_offsets_fit(bx as int, bw as int)
        &&& i32_offsets_fit(by as int, bh as int)
    }
}

/// The clamped neighbour coordinate `clamp(as_i32(c) + d, hi)`.
fn clamped_coord(c: u32, d: i64, hi: u32) -> (v: u32)
    requires
        -1 <= d <= 1,
        hi <= 0x7FFF_FFFE,
    ensures
        v == clamp_to(as_i32(c as int) + d, hi as int),
{
    let ci: i64 = if c < 0x8000_0000 { c as i64 } else { c as i64 - 0x1_0000_0000 };
    let v = ci + d;
    if v < 0 {
        0
    } else if v > hi as i64 {
        hi
    } else {
        v as u32
    }
}

/// Index of a clamped neighbour.
fn clamped_index_exec(w: u32, h: u32, x: u32, y: u32, dx: i64, dy: i64) -> (idx: usize)
    requires
        -1 <= dx <= 1,
        -1 <= dy <= 1,
        1 <= w <= 0x7FFF_FFFF,
        1 <= h <= 0x7FFF_FFFF,
        w * h <= u32::MAX,
    ensures
        idx == clamped_index(w as int, h as int, x as int, y as int, dx as int, dy as int),
        idx < w * h,
{
    let nx = clamped_coord(x, dx, w - 1);
    let ny = clamped_coord(y, dy, h - 1);
    proof {
        crate::image_io::lemma_pixel_index_bounds(w as int, h as int, nx as int, ny as int);
    }
    (ny * w + nx) as usize
}

/// The wires of the clamped neighbourhood, and the rounded mean `(sum + 4) / 9`
/// of the channel over them.
fn clamped_block(r_pixels: &[u8], w: u32, h: u32, x: u32, y: u32) -> (res: (Vec<usize>, u32))
    requires
        1 <= w <= 0x7FFF_FFFF,
        1 <= h <= 0x7FFF_FFFF,
        w * h <= u32::MAX,
    ensures
        res.0@ == clamped_neighbourhood(w as int, h as int, x as int, y as int),
        res.1 == (clamped_sum(r_pixels@, w as int, h as int, x as int, y as int) + 4) / 9,
{
    let mut terms: Vec<usize> = Vec::new();
    let i0 = clamped_index_exec(w, h, x, y, -1, -1);
    let i1 = clamped_index_exec(w, h, x, y, 0, -1);
    let i2 = clamped_index_exec(w, h, x, y, 1, -1);
    let i3 = clamped_index_exec(w, h, x, y, -1, 0);
    let i4 = clamped_index_exec(w, h, x, y, 0, 0);
    let i5 = clamped_index_exec(w, h, x, y, 1, 0);
    let i6 = clamped_index_exec(w, h, x, y, -1, 1);
    let i7 = clamped_index_exec(w, h, x, y, 0, 1);
    let i8 = clamped_index_exec(w, h, x, y, 1, 1);
    terms.push(i0);
    terms.push(i1);
    terms.push(i2);
    terms.push(i3);
    terms.push(i4);
    terms.push(i5);
    terms.push(i6);
    terms.push(i7);
    terms.push(i8);
    let sum: u32 = get_or_zero_exec(r_pixels, i0) as u32 + get_or_zero_exec(r_pixels, i1) as u32
        + get_or_zero_exec(r_pixels, i2) as u32 + get_or_zero_exec(r_pixels, i3) as u32
        + get_or_zero_exec(r_pixels, i4) as u32 + get_or_zero_exec(r_pixels, i5) as u32
        + get_or_zero_exec(r_pixels, i6) as u32 + get_or_zero_exec(r_pixels, i7) as u32
        + get_or_zero_exec(r_pixels, i8) as u32;
    proof {
        assert(terms@ =~= clamped_neighbourhood(w as int, h as int, x as int, y as int));
    }
    (terms, (sum + 4) / 9)
}

/// Appends the gates of the `k`-th region pixel of the blur edit circuit.
fn push_blur_edit_gates(gates: &mut Vec<Gate>, terms: Vec<usize>, n: usize, k: usize)
    requires
        n + 5 * k + 4 <= usize::MAX,
    ensures
        gates_view(final(gates)@) == gates_view(old(gates)@) + seq![
            GateSpec::AddMany(terms@),
            GateSpec::Input,
            GateSpec::MulConst(9, (n + 5 * k + 1) as usize),
            GateSpec::Sub((n + 5 * k) as usize, (n + 5 * k + 2) as usize),
            GateSpec::AddConst((n + 5 * k + 3) as usize, 4),
        ],
{
    let ghost tv = terms@;
    let s = n + 5 * k;
    push_gate(gates, Gate::AddMany { terms });
    push_gate(gates, Gate::Input);
    push_gate(gates, Gate::MulConst { c: 9, t: s + 1 });
    push_gate(gates, Gate::Sub { a: s, b: s + 2 });
    push_gate(gates, Gate::AddConst { t: s + 3, c: 4 });
    proof {
        assert(gates_view(gates@) =~= gates_view(old(gates)@) + seq![
            GateSpec::AddMany(tv),
            GateSpec::Input,
            GateSpec::MulConst(9, (n + 5 * k + 1) as usize),
            GateSpec::Sub((n + 5 * k) as usize, (n + 5 * k + 2) as usize),
            GateSpec::AddConst((n + 5 * k + 3) as usize, 4),
        ]);
    }
}

/// A clamped neighbour lies inside the image.
proof fn lemma_clamped_index_bounds(w: int, h: int, x: int, y: int, dx: int, dy: int)
    requires
        1 <= w,
        1 <= h,
    ensures
        0 <= clamped_index(w, h, x, y, dx, dy) < w * h,
{
    crate::image_io::lemma_pixel_index_bounds(
        w,
        h,
        clamp_to(as_i32(x) + dx, w - 1),
        clamp_to(as_i32(y) + dy, h - 1),
    );
}

/// The clamped neighbourhood sums to `clamped_sum`.
proof fn lemma_clamped_neighbourhood_sum(ch: Seq<u8>, w: int, h: int, x: int, y: int)
    requires
        1 <= w,
        1 <= h,
        w * h <= usize::MAX,
    ensures
        indexed_sum(ch, clamped_neighbourhood(w, h, x, y), 9) == clamped_sum(ch, w, h, x, y),
        forall|j: int| 0 <= j < 9 ==> #[trigger] clamped_neighbourhood(w, h, x, y)[j] < w * h,
{
    let nb = clamped_neighbourhood(w, h, x, y);
    lemma_clamped_index_bounds(w, h, x, y, -1, -1);
    lemma_clamped_index_bounds(w, h, x, y, 0, -1);
    lemma_clamped_index_bounds(w, h, x, y, 1, -1);
    lemma_clamped_index_bounds(w, h, x, y, -1, 0);
    lemma_clamped_index_bounds(w, h, x, y, 0, 0);
    lemma_clamped_index_bounds(w, h, x, y, 1, 0);
    lemma_clamped_index_bounds(w, h, x, y, -1, 1);
    lemma_clamped_index_bounds(w, h, x, y, 0, 1);
    lemma_clamped_index_bounds(w, h, x, y, 1, 1);
    reveal_with_fuel(indexed_sum, 10);
}

/// Wire values of the `k`-th region pixel of the blur edit circuit.
#[verifier::spinoff_prover]
#[verifier::rlimit(40)]
proof fn lemma_blur_edit_block(
    gates: Seq<GateSpec>,
    witness: Seq<Option<u64>>,
    r: Seq<u8>,
    n: int,
    k: int,
    w: int,
    h: int,
    x: int,
    y: int,
)
    requires
        1 <= w,
        1 <= h,
        n == w * h,
        0 <= k,
        n + 5 * k + 5 <= gates.len(),
        n + 5 * k + 5 <= witness.len(),
        n + 5 * k + 4 <= usize::MAX,
        forall|idx: int| 0 <= idx < n ==> #[trigger] wire_value(gates, witness, idx) == get_or_zero(r, idx),
        forall|j: int| 0 <= j < 5 ==> gates[n + 5 * k + j] == #[trigger] blur_edit_gates(n, k, w, h, x, y)[j],
        witness[n + 5 * k + 1] == Some(((clamped_sum(r, w, h, x, y) + 4) / 9) as u64),
    ensures
        wire_value(gates, witness, n + 5 * k + 1) == (clamped_sum(r, w, h, x, y) + 4) / 9,
        wire_value(gates, witness, n + 5 * k + 4) == (clamped_sum(r, w, h, x, y) + 4) % 9,
{
    let s = n + 5 * k;
    let cs = clamped_sum(r, w, h, x, y);
    let nb = clamped_neighbourhood(w, h, x, y);
    let gs = blur_edit_gates(n, k, w, h, x, y);
    lemma_clamped_neighbourhood_sum(r, w, h, x, y);
    assert(0 <= cs <= 9 * 255);
    assert forall|j: int| 0 <= j < nb.len() implies #[trigger] nb[j] < s by {
        assert(nb[j] < w * h);
    }
    assert forall|j: int| 0 <= j < nb.len() implies #[trigger] wire_value(gates, witness, nb[j] as int)
        == get_or_zero(r, nb[j] as int) by {
        assert(nb[j] < w * h);
    }
    lemma_terms_sum_of_inputs(gates, witness, nb, s, 9, r);
    assert(gs[0] == GateSpec::AddMany(nb));
    assert(wire_value(gates, witness, s) == cs);
    assert(gs[1] == GateSpec::Input);
    let out = (cs + 4) / 9;
    assert(wire_value(gates, witness, s + 1) == out);
    assert(gs[2] == GateSpec::MulConst(9, (s + 1) as usize));
    assert(wire_value(gates, witness, s + 2) == 9 * out);
    assert(gs[3] == GateSpec::Sub(s as usize, (s + 2) as usize));
    assert(wire_value(gates, witness, s + 3) == (cs - 9 * out) % field_order());
    assert(gs[4] == GateSpec::AddConst((s + 3) as usize, 4));
    assert(wire_value(gates, witness, s + 4) == (wire_value(gates, witness, s + 3) + 4) % field_order());
    assert(cs + 4 - 9 * out == (cs + 4) % 9);
    if cs - 9 * out >= 0 {
        assert(wire_value(gates, witness, s + 3) == cs - 9 * out);
    } else {
        assert(wire_value(gates, witness, s + 3) == field_order() + cs - 9 * out);
    }
}

/// Wire values of every region pixel of the blur edit circuit: the output and
/// the residual `sum - 9 * output + 4`.
#[verifier::spinoff_prover]
proof fn lemma_blur_edit_wires(
    r: Seq<u8>,
    w: u32,
    h: u32,
    bx: u32,
    by: u32,
    bw: u32,
    bh: u32,
    base_g: Seq<GateSpec>,
    base_w: Seq<Option<u64>>,
    fg: spec_fn(int) -> Seq<GateSpec>,
    fw: spec_fn(int) -> Seq<Option<u64>>,
)
    requires
        blur_edit_fits(w, h, bx, by, bw, bh),
        base_g.len() == w * h,
        base_w.len() == w * h,
        forall|idx: int| 0 <= idx < w * h ==> #[trigger] base_g[idx] == GateSpec::Input,
        forall|idx: int| 0 <= idx < w * h ==> #[trigger] base_w[idx]
            == if idx < r.len() { Some(r[idx] as u64) } else { None },
        forall|k: int| #[trigger] fg(k) == blur_edit_gates(w * h, k, w as int, h as int, bx + k % (bw as int), by + k / (bw as int)),
        forall|k: int| #[trigger] fw(k) == seq![
            None,
            Some(((clamped_sum(r, w as int, h as int, bx + k % (bw as int), by + k / (bw as int)) + 4) / 9) as u64),
            None,
            None,
            None,
        ],
    ensures
        forall|k: int|
            #![trigger wire_value(base_g + concat_blocks((bw * bh) as nat, fg), base_w + concat_blocks((bw * bh) as nat, fw), w * h + 5 * k + 1)]
            #![trigger wire_value(base_g + concat_blocks((bw * bh) as nat, fg), base_w + concat_blocks((bw * bh) as nat, fw), w * h + 5 * k + 4)]
            0 <= k < bw * bh ==> {
            &&& wire_value(base_g + concat_blocks((bw * bh) as nat, fg), base_w + concat_blocks((bw * bh) as nat, fw), w * h + 5 * k + 1)
                == (clamped_sum(r, w as int, h as int, bx + k % (bw as int), by + k / (bw as int)) + 4) / 9
            &&& wire_value(base_g + concat_blocks((bw * bh) as nat, fg), base_w + concat_blocks((bw * bh) as nat, fw), w * h + 5 * k + 4)
                == (clamped_sum(r, w as int, h as int, bx + k % (bw as int), by + k / (bw as int)) + 4) % 9
        },
{
    let n = (w * h) as int;
    let m = (bw * bh) as nat;
    let gates = base_g + concat_blocks(m, fg);
    let witness = base_w + concat_blocks(m, fw);
    lemma_concat_uniform(m, fg, 5);
    lemma_concat_uniform(m, fw, 5);
    assert(gates.len() == n + 5 * m && witness.len() == n + 5 * m);
    assert forall|idx: int| 0 <= idx < n implies #[trigger] wire_value(gates, witness, idx) == get_or_zero(r, idx) by {
        assert(gates[idx] == base_g[idx]);
        assert(witness[idx] == base_w[idx]);
    }
    assert forall|k: int|
        #![trigger wire_value(gates, witness, n + 5 * k + 1)]
        #![trigger wire_value(gates, witness, n + 5 * k + 4)]
        0 <= k < m implies {
        &&& wire_value(gates, witness, n + 5 * k + 1)
            == (clamped_sum(r, w as int, h as int, bx + k % (bw as int), by + k / (bw as int)) + 4) / 9
        &&& wire_value(gates, witness, n + 5 * k + 4)
            == (clamped_sum(r, w as int, h as int, bx + k % (bw as int), by + k / (bw as int)) + 4) % 9
    } by {
        assert(5 * k + 5 <= 5 * m) by (nonlinear_arith)
            requires
                k < m,
        ;
        assert(bw > 0 && bh > 0) by (nonlinear_arith)
            requires
                0 <= k < m,
                m == bw * bh,
        ;
        assert forall|j: int| 0 <= j < 5 implies gates[n + 5 * k + j]
            == #[trigger] blur_edit_gates(n, k, w as int, h as int, bx + k % (bw as int), by + k / (bw as int))[j] by {
            assert(gates[n + 5 * k + j] == concat_blocks(m, fg)[5 * k + j]);
            assert(concat_blocks(m, fg)[5 * k + j] == fg(k)[j]);
        }
        assert(witness[n + 5 * k + 1] == concat_blocks(m, fw)[5 * k + 1]);
        assert(concat_blocks(m, fw)[5 * k + 1] == fw(k)[1]);
        lemma_blur_edit_block(gates, witness, r, n, k, w as int, h as int, bx + k % (bw as int), by + k / (bw as int));
    }
}

/// Law of the blur edit circuit: its public values are the rounded means
/// `(sum + 4) / 9` of the clamped neighbourhoods of the region's pixels, row by
/// row, and its witness satisfies it exactly when every pixel input is set.
#[verifier::spinoff_prover]
proof fn lemma_blur_edit_plan_values(
    r: Seq<u8>,
    w: u32,
    h: u32,
    bx: u32,
    by: u32,
    bw: u32,
    bh: u32,
    base_g: Seq<GateSpec>,
    base_w: Seq<Option<u64>>,
    fg: spec_fn(int) -> Seq<GateSpec>,
    fc: spec_fn(int) -> Seq<Constraint>,
    fp: spec_fn(int) -> Seq<usize>,
    fw: spec_fn(int) -> Seq<Option<u64>>,
)
    requires
        blur_edit_fits(w, h, bx, by, bw, bh),
        base_g.len() == w * h,
        base_w.len() == w * h,
        forall|idx: int| 0 <= idx < w * h ==> #[trigger] base_g[idx] == GateSpec::Input,
        forall|idx: int| 0 <= idx < w * h ==> #[trigger] base_w[idx]
            == if idx < r.len() { Some(r[idx] as u64) } else { None },
        forall|k: int| #[trigger] fg(k) == blur_edit_gates(w * h, k, w as int, h as int, bx + k % (bw as int), by + k / (bw as int)),
        forall|k: int| #[trigger] fc(k) == seq![Constraint::RangeCheck { t: (w * h + 5 * k + 4) as usize, bits: 4 }],
        forall|k: int| #[trigger] fp(k) == seq![(w * h + 5 * k + 1) as usize],
        forall|k: int| #[trigger] fw(k) == seq![
            None,
            Some(((clamped_sum(r, w as int, h as int, bx + k % (bw as int), by + k / (bw as int)) + 4) / 9) as u64),
            None,
            None,
            None,
        ],
    ensures
        public_values(base_g + concat_blocks((bw * bh) as nat, fg), base_w + concat_blocks((bw * bh) as nat, fw), concat_blocks((bw * bh) as nat, fp))
            == Seq::new((bw * bh) as nat, |k: int|
                (clamped_sum(r, w as int, h as int, bx + k % (bw as int), by + k / (bw as int)) + 4) / 9),
        satisfied(base_g + concat_blocks((bw * bh) as nat, fg), base_w + concat_blocks((bw * bh) as nat, fw), concat_blocks((bw * bh) as nat, fc)) <==> r.len() >= w * h,
{
    let n = (w * h) as int;
    let m = (bw * bh) as nat;
    let gates = base_g + concat_blocks(m, fg);
    let witness = base_w + concat_blocks(m, fw);
    let publics = concat_blocks(m, fp);
    let constraints = concat_blocks(m, fc);
    lemma_blur_edit_wires(r, w, h, bx, by, bw, bh, base_g, base_w, fg, fw);
    lemma_concat_uniform(m, fp, 1);
    lemma_concat_uniform(m, fc, 1);
    let expected = Seq::new(m, |k: int|
        (clamped_sum(r, w as int, h as int, bx + k % (bw as int), by + k / (bw as int)) + 4) / 9);
    assert forall|k: int| 0 <= k < m implies #[trigger] public_values(gates, witness, publics)[k] == expected[k] by {
        assert(publics[1 * k + 0] == fp(k)[0]);
        assert(wire_value(gates, witness, n + 5 * k + 1) == expected[k]);
    }
    assert(public_values(gates, witness, publics) =~= expected);
    lemma2_to64();
    assert forall|k: int| 0 <= k < constraints.len() implies #[trigger] constraint_holds(gates, witness, constraints[k]) by {
        assert(constraints[1 * k + 0] == fc(k)[0]);
        assert(wire_value(gates, witness, n + 5 * k + 4) < 16);
    }
    lemma_blur_edit_witness(r, w, h, bx, by, bw, bh, base_g, base_w, fg, fw);
}

/// The blur edit circuit's witness sets every input exactly when every pixel
/// input is set.
#[verifier::spinoff_prover]
proof fn lemma_blur_edit_witness(
    r: Seq<u8>,
    w: u32,
    h: u32,
    bx: u32,
    by: u32,
    bw: u32,
    bh: u32,
    base_g: Seq<GateSpec>,
    base_w: Seq<Option<u64>>,
    fg: spec_fn(int) -> Seq<GateSpec>,
    fw: spec_fn(int) -> Seq<Option<u64>>,
)
    requires
        base_g.len() == w * h,
        base_w.len() == w * h,
        forall|idx: int| 0 <= idx < w * h ==> #[trigger] base_g[idx] == GateSpec::Input,
        forall|idx: int| 0 <= idx < w * h ==> #[trigger] base_w[idx]
            == if idx < r.len() { Some(r[idx] as u64) } else { None },
        forall|k: int| #[trigger] fg(k) == blur_edit_gates(w * h, k, w as int, h as int, bx + k % (bw as int), by + k / (bw as int)),
        forall|k: int| #[trigger] fw(k) == seq![
            None,
            Some(((clamped_sum(r, w as int, h as int, bx + k % (bw as int), by + k / (bw as int)) + 4) / 9) as u64),
            None,
            None,
            None,
        ],
    ensures
        witness_complete(base_g + concat_blocks((bw * bh) as nat, fg), base_w + concat_blocks((bw * bh) as nat, fw)) <==> r.len() >= w * h,
{
    let n = (w * h) as int;
    let m = (bw * bh) as nat;
    let gates = base_g + concat_blocks(m, fg);
    let witness = base_w + concat_blocks(m, fw);
    lemma_concat_uniform(m, fg, 5);
    lemma_concat_uniform(m, fw, 5);
    if r.len() >= n {
        assert forall|idx: int| 0 <= idx < gates.len() && gates[idx] is Input implies #[trigger] witness[idx] is Some by {
            if idx >= n {
                let k = (idx - n) / 5;
                let j = (idx - n) % 5;
                assert(0 <= k < m) by (nonlinear_arith)
                    requires
                        idx - n == 5 * k + j,
                        0 <= j < 5,
                        0 <= idx - n < 5 * m,
                ;
                assert(gates[idx] == fg(k)[j]);
                assert(witness[idx] == fw(k)[j]);
            } else {
                assert(gates[idx] == base_g[idx]);
                assert(witness[idx] == base_w[idx]);
            }
        }
        assert(witness_complete(gates, witness));
    } else {
        assert(gates[r.len() as int] == base_g[r.len() as int]);
        assert(witness[r.len() as int] == base_w[r.len() as int]);
        assert(!witness_complete(gates, witness));
    }
}

/// Circuit for box blur transformation
///
/// Circuit proves: blurred pixel = average of 3x3 neighborhood (neighbours
/// clamped to the image), for every pixel of the region; the blurred values are
/// public, and `sum - 9 * blurred` is range-checked to 4 bits.
pub fn blur_edit_plan(
    r_pixels: &[u8],
    _g_pixels: &[u8],
    _b_pixels: &[u8],
    width: u32,
    height: u32,
    blur_x: u32,
    blur_y: u32,
    blur_width: u32,
    blur_height: u32,
    config: &ProverConfig,
) -> (plan: CircuitPlan)
    requires
        blur_edit_fits(width, height, blur_x, blur_y, blur_width, blur_height),
    ensures
        ({
            let n = (width * height) as int;
            let m = (blur_width * blur_height) as nat;
            let bw = blur_width as int;
            &&& plan.zero_knowledge == config.use_zk
            &&& plan.gate_specs() == Seq::new(n as nat, |i: int| GateSpec::Input) + concat_blocks(
                m,
                |k: int| blur_edit_gates(n, k, width as int, height as int, blur_x + k % bw, blur_y + k / bw),
            )
            &&& plan.constraints@ == concat_blocks(m, |k: int| seq![Constraint::RangeCheck { t: (n + 5 * k + 4) as usize, bits: 4 }])
            &&& plan.public_inputs@ == concat_blocks(m, |k: int| seq![(n + 5 * k + 1) as usize])
            &&& plan.witness@ == Seq::new(n as nat, |i: int| if i < r_pixels@.len() { Some(r_pixels@[i] as u64) } else { None })
                + concat_blocks(
                m,
                |k: int| seq![
                    None,
                    Some(((clamped_sum(r_pixels@, width as int, height as int, blur_x + k % bw, blur_y + k / bw) + 4) / 9) as u64),
                    None,
                    None,
                    None,
                ],
            )
            &&& public_values(plan.gate_specs(), plan.witness@, plan.public_inputs@) == Seq::new(m, |k: int|
                (clamped_sum(r_pixels@, width as int, height as int, blur_x + k % bw, blur_y + k / bw) + 4) / 9)
            &&& satisfied(plan.gate_specs(), plan.witness@, plan.constraints@) <==> r_pixels@.len() >= n
        }),
{
    let n = (width * height) as usize;
    let ghost (ni, wi, hi, bxi, byi, bwi) = (n as int, width as int, height as int, blur_x as int, blur_y as int, blur_width as int);
    let ghost fg = |k: int| blur_edit_gates(ni, k, wi, hi, bxi + k % bwi, byi + k / bwi);
    let ghost fc = |k: int| seq![Constraint::RangeCheck { t: (ni + 5 * k + 4) as usize, bits: 4 }];
    let ghost fp = |k: int| seq![(ni + 5 * k + 1) as usize];
    let ghost fw = |k: int| seq![
        None,
        Some(((clamped_sum(r_pixels@, wi, hi, bxi + k % bwi, byi + k / bwi) + 4) / 9) as u64),
        None,
        None,
        None,
    ];
    let mut gates: Vec<Gate> = Vec::new();
    push_inputs(&mut gates, n);
    let mut witness: Vec<Option<u64>> = Vec::new();
    let mut i: usize = 0;
    while i < n
        invariant
            i <= n,
            witness@ =~= Seq::new(i as nat, |j: int| if j < r_pixels@.len() { Some(r_pixels@[j] as u64) } else { None }),
        decreases n - i,
    {
        if i < r_pixels.len() {
            witness.push(Some(r_pixels[i] as u64));
        } else {
            witness.push(None);
        }
        i = i + 1;
    }
    let ghost base_gates = gates_view(gates@);
    let ghost base_witness = witness@;
    let mut constraints: Vec<Constraint> = Vec::new();
    let mut public_inputs: Vec<usize> = Vec::new();
    let mut row: u32 = 0;
    while row < blur_height
        invariant
            blur_edit_fits(width, height, blur_x, blur_y, blur_width, blur_height),
            ni == n as int,
            n == width * height,
            wi == width as int,
            hi == height as int,
            bxi == blur_x as int,
            byi == blur_y as int,
            bwi == blur_width as int,
            row <= blur_height,
            fg == (|k: int| blur_edit_gates(ni, k, wi, hi, bxi + k % bwi, byi + k / bwi)),
            fc == (|k: int| seq![Constraint::RangeCheck { t: (ni + 5 * k + 4) as usize, bits: 4 }]),
            fp == (|k: int| seq![(ni + 5 * k + 1) as usize]),
            fw == (|k: int| seq![
                None,
                Some(((clamped_sum(r_pixels@, wi, hi, bxi + k % bwi, byi + k / bwi) + 4) / 9) as u64),
                None,
                None,
                None,
            ]),
            gates_view(gates@) == base_gates + concat_blocks((row * blur_width) as nat, fg),
            constraints@ == concat_blocks((row * blur_width) as nat, fc),
            public_inputs@ == concat_blocks((row * blur_width) as nat, fp),
            witness@ == base_witness + concat_blocks((row * blur_width) as nat, fw),
        decreases blur_height - row,
    {
        let mut col: u32 = 0;
        proof {
            assert((row + 1) * blur_width <= blur_width * blur_height) by (nonlinear_arith)
                requires
                    row < blur_height,
            ;
        }
        while col < blur_width
            invariant
                blur_edit_fits(width, height, blur_x, blur_y, blur_width, blur_height),
                (row + 1) * blur_width <= blur_width * blur_height,
                ni == n as int,
                n == width * height,
                wi == width as int,
                hi == height as int,
                bxi == blur_x as int,
                byi == blur_y as int,
                bwi == blur_width as int,
                row < blur_height,
                col <= blur_width,
                fg == (|k: int| blur_edit_gates(ni, k, wi, hi, bxi + k % bwi, byi + k / bwi)),
                fc == (|k: int| seq![Constraint::RangeCheck { t: (ni + 5 * k + 4) as usize, bits: 4 }]),
                fp == (|k: int| seq![(ni + 5 * k + 1) as usize]),
                fw == (|k: int| seq![
                    None,
                    Some(((clamped_sum(r_pixels@, wi, hi, bxi + k % bwi, byi + k / bwi) + 4) / 9) as u64),
                    None,
                    None,
                    None,
                ]),
                gates_view(gates@) == base_gates + concat_blocks((row * blur_width + col) as nat, fg),
                constraints@ == concat_blocks((row * blur_width + col) as nat, fc),
                public_inputs@ == concat_blocks((row * blur_width + col) as nat, fp),
                witness@ == base_witness + concat_blocks((row * blur_width + col) as nat, fw),
            decreases blur_width - col,
        {
            let ghost k = row * blur_width + col;
            proof {
                crate::image_io::lemma_pixel_index_split(bwi, col as int, row as int);
                lemma_concat_blocks_step(k as nat, fg);
                lemma_concat_blocks_step(k as nat, fc);
                lemma_concat_blocks_step(k as nat, fp);
                lemma_concat_blocks_step(k as nat, fw);
                assert(row * blur_width + col < (row + 1) * blur_width) by (nonlinear_arith)
                    requires
                        col < blur_width,
                ;
            }
            let x = blur_x + col;
            let y = blur_y + row;
            let (terms, blur_val) = clamped_block(r_pixels, width, height, x, y);
            let kk = (row as usize) * (blur_width as usize) + col as usize;
            push_blur_edit_gates(&mut gates, terms, n, kk);
            constraints.push(Constraint::RangeCheck { t: n + 5 * kk + 4, bits: 4 });
            public_inputs.push(n + 5 * kk + 1);
            witness.push(None);
            witness.push(Some(blur_val as u64));
            witness.push(None);
            witness.push(None);
            witness.push(None);
            proof {
                assert(k % bwi == col && k / bwi == row);
                assert(gates_view(gates@) =~= base_gates + concat_blocks(k as nat, fg) + fg(k));
                assert(constraints@ =~= concat_blocks(k as nat, fc) + fc(k));
                assert(public_inputs@ =~= concat_blocks(k as nat, fp) + fp(k));
                assert(witness@ =~= base_witness + concat_blocks(k as nat, fw) + fw(k));
            }
            col = col + 1;
        }
        proof {
            assert(row * blur_width + blur_width == (row + 1) * blur_width) by (nonlinear_arith);
        }
        row = row + 1;
    }
    proof {
        assert(blur_height * blur_width == blur_width * blur_height) by (nonlinear_arith);
        lemma_blur_edit_plan_values(r_pixels@, width, height, blur_x, blur_y, blur_width, blur_height,
            base_gates, base_witness, fg, fc, fp, fw);
    }
    CircuitPlan { zero_knowledge: config.use_zk, gates, constraints, public_inputs, witness }
}

} // verus!
