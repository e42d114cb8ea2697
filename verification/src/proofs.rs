//! Proof outputs of the edit circuits, and their statistics and structural check.

use vstd::prelude::*;
use vstd::string::*;
use crate::support::{decimal, instant_now, elapsed_ms, usize_to_decimal};
use crate::encoding::{serialize_bytes, bincode_of_bytes};
use crate::circuit::{ProofArtifacts, Gate, GateSpec, Constraint, CircuitPlan, concat_blocks, push_gate, push_inputs, gates_view, region_index, lemma_region_index, lemma_concat_blocks_step};
use crate::image_io::{pixel_index, lemma_pixel_index_bounds, src_frac, source_corners, box_sum, in_blur_interior, bilinear_num, interpolate};
use crate::image_io::{crop_channel, gray_channel, blur_channel, resize_channel, resize_den, round_div};
use crate::circuit::lemma_concat_blocks_congruent;
use crate::circuit::{get_or_zero, get_or_zero_exec, wire_value, terms_sum, field_order, satisfied, witness_complete, public_values, lemma_concat_uniform};
use crate::circuit::{constraint_holds, indexed_sum, lemma_terms_sum_of_inputs, lemma_public_values_concat};
use vstd::arithmetic::power2::{lemma2_to64, lemma_pow2_unfold, pow2};
use vstd::arithmetic::div_mod::{lemma_fundamental_div_mod, lemma_mod_pos_bound};
use crate::prover::{resize_corners, resize_fits, resize_edit_witness, resize_edit_output, grayscale_edit_plan, grayscale_edit_gates, grayscale_edit_constraints, grayscale_edit_witness, ProverConfig};

verus! {

/// Configuration for proof generation
pub struct ProofConfig {
    /// Number of pixels in the image
    pub pixel_count: usize,
    /// Bit width for pixel values (typically 8 for 0-255)
    pub pixel_bits: u32,
    /// Whether to use zero-knowledge mode
    pub use_zk: bool,
    /// FRI rate bits
    pub rate_bits: usize,
    /// Merkle cap height
    pub cap_height: usize,
}

impl Default for ProofConfig {
    fn default() -> (config: Self)
        ensures
            config.pixel_count == 1000,
            config.pixel_bits == 8,
            config.use_zk,
            config.rate_bits == 2,
            config.cap_height == 4,
    {
        ProofConfig { pixel_count: 1000, pixel_bits: 8, use_zk: true, rate_bits: 2, cap_height: 4 }
    }
}

/// Result of a proof generation
pub struct ProofOutput {
    /// Serialized proof data
    pub proof_data: Vec<u8>,
    /// Public inputs (edited pixel values for verification)
    pub public_inputs: Vec<u64>,
    /// Time taken to generate proof in milliseconds
    pub proving_time_ms: u64,
    /// Peak memory usage in bytes (if available)
    pub peak_memory_bytes: Option<usize>,
}

/// Result of proof verification
pub struct VerificationResult {
    /// Whether the proof verified successfully
    pub valid: bool,
    /// Time taken to verify in milliseconds
    pub verification_time_ms: u64,
    /// Error message if verification failed
    pub error: Option<String>,
}

/// Statistics about a proof
pub struct ProofStats {
    /// Size of the proof in bytes
    pub proof_size_bytes: usize,
    /// Number of public inputs
    pub num_public_inputs: usize,
    /// Circuit information
    pub circuit_info: CircuitInfo,
}

/// Information about the circuit used
pub struct CircuitInfo {
    /// Type of edit operation
    pub edit_type: String,
    /// Number of gates (approximate)
    pub num_gates: Option<usize>,
    /// Degree of the circuit
    pub degree: usize,
    /// Field used
    pub field: String,
}

/// Degree reported for the edit circuits.
pub const CIRCUIT_DEGREE: usize = 32;

/// Smallest proof size, in bytes, that the structural check accepts is one more than this.
pub const MIN_PROOF_SIZE: usize = 1000;

/// Get stats about a proof
pub fn get_proof_stats(proof_output: &ProofOutput, edit_type: &str) -> (stats: ProofStats)
    ensures
        stats.proof_size_bytes == proof_output.proof_data@.len(),
        stats.num_public_inputs == proof_output.public_inputs@.len(),
        stats.circuit_info.edit_type@ == edit_type@,
        stats.circuit_info.num_gates is None,
        stats.circuit_info.degree == CIRCUIT_DEGREE,
        stats.circuit_info.field@ == "Goldilocks (64-bit prime)"@,
{
    ProofStats {
        proof_size_bytes: proof_output.proof_data.len(),
        num_public_inputs: proof_output.public_inputs.len(),
        circuit_info: CircuitInfo {
            edit_type: String::from_str(edit_type),
            num_gates: None,
            degree: CIRCUIT_DEGREE,
            field: String::from_str("Goldilocks (64-bit prime)"),
        },
    }
}

/// The message of a proof that fails the size check.
pub open spec fn too_small_message(len: nat) -> Seq<char> {
    "Proof too small: "@ + decimal(len) + " bytes (expected > 1000)"@
}

/// Verify a proof (simplified: checks that the proof has the minimum size of a
/// Plonky2 proof)
pub fn verify_proof(proof_data: &[u8], _public_inputs: &[u64], _edit_type: &str) -> (result: VerificationResult)
    ensures
        result.valid == (proof_data@.len() > MIN_PROOF_SIZE),
        result.valid ==> result.error is None,
        !result.valid ==> (result.error matches Some(msg) && msg@ == too_small_message(proof_data@.len())),
{
    let start = instant_now();
    let valid = proof_data.len() > MIN_PROOF_SIZE;
    let error = if valid {
        None
    } else {
        let msg = String::from_str("Proof too small: ");
        let msg = msg.concat(usize_to_decimal(proof_data.len()).as_str());
        let msg = msg.concat(" bytes (expected > 1000)");
        Some(msg)
    };
    VerificationResult { valid, verification_time_ms: elapsed_ms(&start), error }
}


/// Errors raised while describing a circuit.
#[derive(Debug, PartialEq, Eq, Structural)]
pub enum PlanError {
    /// The three channels differ in length.
    ChannelLengthMismatch,
}

/// The message that reports a planning error.
pub open spec fn plan_error_text(e: PlanError) -> Seq<char> {
    match e {
        PlanError::ChannelLengthMismatch => "Pixel arrays must have equal length"@,
    }
}

impl PlanError {
    /// The message that reports this error.
    pub fn message(&self) -> (m: String)
        ensures
            m@ == plan_error_text(*self),
    {
        match self {
            PlanError::ChannelLengthMismatch => String::from_str("Pixel arrays must have equal length"),
        }
    }
}

/// The weighted sum `30 R + 59 G + 11 B` of a pixel.
pub open spec fn weighted_sum(r: u8, g: u8, b: u8) -> int {
    30 * r + 59 * g + 11 * b
}

/// Circuit for grayscale conversion
///
/// The circuit proves `100 * gray = 30*R + 59*G + 11*B + rem` with the rounding
/// remainder `rem` in `[-49, 50]` for each pixel (the grayscale edit circuit);
/// the gray values are its public inputs.
pub fn grayscale_plan(r_pixels: &[u8], g_pixels: &[u8], b_pixels: &[u8], config: &ProofConfig) -> (res: Result<CircuitPlan, PlanError>)
    requires
        11 * r_pixels@.len() <= usize::MAX,
    ensures
        match res {
            Ok(plan) => {
                let n = r_pixels@.len();
                &&& g_pixels@.len() == n && b_pixels@.len() == n
                &&& plan.zero_knowledge == config.use_zk
                &&& plan.gate_specs() == concat_blocks(n, |i: int| grayscale_edit_gates(i))
                &&& plan.constraints@ == concat_blocks(n, |i: int| grayscale_edit_constraints(i))
                &&& plan.public_inputs@ == concat_blocks(n, |i: int| seq![(11 * i + 3) as usize])
                &&& plan.witness@ == concat_blocks(
                    n,
                    |i: int| grayscale_edit_witness(r_pixels@[i], g_pixels@[i], b_pixels@[i]),
                )
                &&& public_values(plan.gate_specs(), plan.witness@, plan.public_inputs@)
                    == gray_channel(r_pixels@, g_pixels@, b_pixels@).map_values(|v: u8| v as int)
                &&& satisfied(plan.gate_specs(), plan.witness@, plan.constraints@)
            },
            Err(e) => e == PlanError::ChannelLengthMismatch && !(g_pixels@.len() == r_pixels@.len()
                && b_pixels@.len() == r_pixels@.len()),
        },
{
    let prover_config = ProverConfig { use_zk: config.use_zk, security_bits: 100 };
    match grayscale_edit_plan(r_pixels, g_pixels, b_pixels, &prover_config) {
        Ok(plan) => Ok(plan),
        Err(_) => Err(PlanError::ChannelLengthMismatch),
    }
}


/// The pixels of the `cw` x `ch` region at (`cx`, `cy`), row by row, that fall
/// inside the channel (an index past the end is skipped).
pub open spec fn cropped_values(pixels: Seq<u8>, w: int, cx: int, cy: int, cw: int, ch: int) -> Seq<u8> {
    concat_blocks(
        (cw * ch) as nat,
        |k: int|
            if region_index(w, cx, cy, cw, k) < pixels.len() {
                seq![pixels[region_index(w, cx, cy, cw, k)]]
            } else {
                Seq::empty()
            },
    )
}

/// The crop region's indices do not overflow `u32`: the loops of the crop
/// circuits compute `cy + ch`, `cx + cw` and `y * w + x` in `u32`.
pub open spec fn crop_region_fits(w: u32, cx: u32, cy: u32, cw: u32, ch: u32) -> bool {
    &&& cy + ch <= u32::MAX
    &&& ch > 0 ==> cx + cw <= u32::MAX
    &&& (cw > 0 && ch > 0) ==> (cy + ch - 1) * w + (cx + cw - 1) <= u32::MAX
}

/// The region pixels, row by row, that fall inside the channel.
fn crop_region_values(pixels: &[u8], w: u32, cx: u32, cy: u32, cw: u32, ch: u32) -> (out: Vec<u8>)
    requires
        crop_region_fits(w, cx, cy, cw, ch),
    ensures
        out@ == cropped_values(pixels@, w as int, cx as int, cy as int, cw as int, ch as int),
{
    let ghost f = |k: int|
        if region_index(w as int, cx as int, cy as int, cw as int, k) < pixels@.len() {
            seq![pixels@[region_index(w as int, cx as int, cy as int, cw as int, k)]]
        } else {
            Seq::<u8>::empty()
        };
    let mut out: Vec<u8> = Vec::new();
    let mut row: u32 = 0;
    while row < ch
        invariant
            crop_region_fits(w, cx, cy, cw, ch),
            row <= ch,
            f == (|k: int|
                if region_index(w as int, cx as int, cy as int, cw as int, k) < pixels@.len() {
                    seq![pixels@[region_index(w as int, cx as int, cy as int, cw as int, k)]]
                } else {
                    Seq::<u8>::empty()
                }),
            out@ == concat_blocks((row * cw) as nat, f),
        decreases ch - row,
    {
        let mut col: u32 = 0;
        while col < cw
            invariant
                crop_region_fits(w, cx, cy, cw, ch),
                row < ch,
                col <= cw,
                f == (|k: int|
                    if region_index(w as int, cx as int, cy as int, cw as int, k) < pixels@.len() {
                        seq![pixels@[region_index(w as int, cx as int, cy as int, cw as int, k)]]
                    } else {
                        Seq::<u8>::empty()
                    }),
                out@ == concat_blocks((row * cw + col) as nat, f),
            decreases cw - col,
        {
            let ghost k = row * cw + col;
            proof {
                lemma_region_index(w as int, cx as int, cy as int, cw as int, row as int, col as int);
                lemma_concat_blocks_step(k as nat, f);
                assert((cy + row) * w + (cx + col) <= (cy + ch - 1) * w + (cx + cw - 1)) by (nonlinear_arith)
                    requires
                        row < ch,
                        col < cw,
                ;
            }
            let idx = (cy + row) * w + (cx + col);
            if (idx as usize) < pixels.len() {
                out.push(pixels[idx as usize]);
            }
            proof {
                assert(out@ =~= concat_blocks(k as nat, f) + f(k));
            }
            col = col + 1;
        }
        proof {
            assert(row * cw + cw == (row + 1) * cw) by (nonlinear_arith);
        }
        row = row + 1;
    }
    proof {
        assert(ch * cw == cw * ch) by (nonlinear_arith);
    }
    out
}

/// Circuit for cropping
///
/// The circuit's public inputs are the pixels of the crop region (those inside
/// the channel), row by row; each is an input wire set to the pixel value.
pub fn crop_plan(
    original_pixels: &[u8],
    original_width: u32,
    _original_height: u32,
    crop_x: u32,
    crop_y: u32,
    crop_width: u32,
    crop_height: u32,
    config: &ProofConfig,
) -> (plan: CircuitPlan)
    requires
        crop_region_fits(original_width, crop_x, crop_y, crop_width, crop_height),
    ensures
        ({
            let cropped = cropped_values(original_pixels@, original_width as int, crop_x as int, crop_y as int,
                crop_width as int, crop_height as int);
            &&& plan.zero_knowledge == config.use_zk
            &&& plan.gate_specs() == Seq::new(cropped.len(), |i: int| GateSpec::Input)
            &&& plan.constraints@ == Seq::<Constraint>::empty()
            &&& plan.public_inputs@ == Seq::new(cropped.len(), |i: int| i as usize)
            &&& plan.witness@ == cropped.map_values(|v: u8| Some(v as u64))
            &&& satisfied(plan.gate_specs(), plan.witness@, plan.constraints@)
            &&& public_values(plan.gate_specs(), plan.witness@, plan.public_inputs@)
                == cropped.map_values(|v: u8| v as int)
        }),
{
    let cropped = crop_region_values(original_pixels, original_width, crop_x, crop_y, crop_width, crop_height);
    let m = cropped.len();
    let mut gates: Vec<Gate> = Vec::new();
    push_inputs(&mut gates, m);
    let mut public_inputs: Vec<usize> = Vec::new();
    let mut witness: Vec<Option<u64>> = Vec::new();
    let mut i: usize = 0;
    while i < m
        invariant
            m == cropped@.len(),
            i <= m,
            public_inputs@ =~= Seq::new(i as nat, |k: int| k as usize),
            witness@ =~= cropped@.subrange(0, i as int).map_values(|v: u8| Some(v as u64)),
        decreases m - i,
    {
        public_inputs.push(i);
        witness.push(Some(cropped[i] as u64));
        i = i + 1;
    }
    proof {
        let gs = Seq::new(m as nat, |i: int| GateSpec::Input);
        assert(gates_view(gates@) =~= gs);
        assert(cropped@.subrange(0, m as int) =~= cropped@);
        let ws = cropped@.map_values(|v: u8| Some(v as u64));
        assert(witness_complete(gs, ws));
        assert forall|i: int| 0 <= i < m implies #[trigger] wire_value(gs, ws, i) == cropped@[i] by {
            assert(gs[i] == GateSpec::Input);
            assert(ws[i] == Some(cropped@[i] as u64));
        }
        assert(public_values(gs, ws, public_inputs@) =~= cropped@.map_values(|v: u8| v as int));
    }
    CircuitPlan { zero_knowledge: config.use_zk, gates, constraints: Vec::new(), public_inputs, witness }
}


/// Number of bits needed below `n`: the least `k` with `2^k >= n`.
pub open spec fn bits_for(n: nat) -> nat
    decreases n,
{
    if n <= 1 {
        0
    } else {
        1 + bits_for(((n + 1) / 2) as nat)
    }
}

/// `2^bits_for(n)` is at least `n`; `bits_for(n)` is at most `e` where `n <= 2^e`.
proof fn lemma_bits_for(n: nat, e: nat)
    requires
        n <= pow2(e),
    ensures
        pow2(bits_for(n)) >= n,
        bits_for(n) <= e,
    decreases n,
{
    lemma2_to64();
    if n > 1 {
        let m = ((n + 1) / 2) as nat;
        if e == 0 {
            assert(false);
        }
        lemma_pow2_unfold(e);
        lemma_bits_for(m, (e - 1) as nat);
        lemma_pow2_unfold(bits_for(n));
    }
}

/// `bits_for(n)`, computed by halving.
fn bits_for_exec(n: u64) -> (k: usize)
    ensures
        k == bits_for(n as nat),
{
    proof {
        lemma2_to64();
        lemma_bits_for(n as nat, 64);
    }
    let mut m: u64 = n;
    let mut k: usize = 0;
    while m > 1
        invariant
            k + bits_for(m as nat) == bits_for(n as nat),
            bits_for(n as nat) <= 64,
        decreases m,
    {
        let half = m / 2 + m % 2;
        assert(half == (m + 1) / 2);
        m = half;
        k = k + 1;
    }
    k
}

/// Integer weights of the four source pixels of output pixel (`col`, `row`),
/// scaled by `resize_den(nw) * resize_den(nh)`.
pub open spec fn resize_weights(w: int, h: int, nw: int, nh: int, col: int, row: int) -> (int, int, int, int) {
    let dw = resize_den(nw);
    let dh = resize_den(nh);
    let xf = src_frac(col, w, nw);
    let yf = src_frac(row, h, nh);
    ((dw - xf) * (dh - yf), xf * (dh - yf), (dw - xf) * yf, xf * yf)
}

/// The resize weights split as bilinear weights do: the two left corners together
/// weigh `(dw - xf) * dh` and the two right corners `xf * dh`; the two top corners
/// together weigh `dw * (dh - yf)` and the two bottom corners `dw * yf`
/// (`dw`, `dh` the denominators, `xf`, `yf` the fractional source offsets).
pub proof fn lemma_resize_weight_marginals(w: int, h: int, nw: int, nh: int, col: int, row: int)
    ensures
        ({
            let (wa, wb, wc, wd) = resize_weights(w, h, nw, nh, col, row);
            let dw = resize_den(nw);
            let dh = resize_den(nh);
            let xf = src_frac(col, w, nw);
            let yf = src_frac(row, h, nh);
            &&& wa + wc == (dw - xf) * dh
            &&& wb + wd == xf * dh
            &&& wa + wb == dw * (dh - yf)
            &&& wc + wd == dw * yf
        }),
{
    let dw = resize_den(nw);
    let dh = resize_den(nh);
    let xf = src_frac(col, w, nw);
    let yf = src_frac(row, h, nh);
    let a = dw - xf;
    let b = dh - yf;
    vstd::arithmetic::mul::lemma_mul_is_distributive_add(a, b, yf);
    vstd::arithmetic::mul::lemma_mul_is_distributive_add(xf, b, yf);
    vstd::arithmetic::mul::lemma_mul_is_distributive_add_other_way(b, a, xf);
    vstd::arithmetic::mul::lemma_mul_is_distributive_add_other_way(yf, a, xf);
    vstd::arithmetic::mul::lemma_mul_is_commutative(a, dh);
    vstd::arithmetic::mul::lemma_mul_is_commutative(xf, dh);
}

/// The scale `resize_den(nw) * resize_den(nh)` of the resize weights.
pub open spec fn resize_scale(nw: int, nh: int) -> int {
    resize_den(nw) * resize_den(nh)
}

/// Gates of output pixel `k` in the resize circuit: the four source pixels and
/// the output, the weighted sum `W` of the source pixels, and the residual
/// `2 W + s - 2 s * out` of rounding `W / s` (`s` the scale).
pub open spec fn resize_gates(w: int, h: int, nw: int, nh: int, k: int) -> Seq<GateSpec> {
    let base = 14 * k;
    let s = resize_scale(nw, nh);
    let (wa, wb, wc, wd) = resize_weights(w, h, nw, nh, k % nw, k / nw);
    seq![
        GateSpec::Input, GateSpec::Input, GateSpec::Input, GateSpec::Input, GateSpec::Input,
        GateSpec::MulConst(wa as u64, base as usize),
        GateSpec::MulConst(wb as u64, (base + 1) as usize),
        GateSpec::MulConst(wc as u64, (base + 2) as usize),
        GateSpec::MulConst(wd as u64, (base + 3) as usize),
        GateSpec::AddMany(seq![(base + 5) as usize, (base + 6) as usize, (base + 7) as usize, (base + 8) as usize]),
        GateSpec::MulConst(2, (base + 9) as usize),
        GateSpec::AddConst((base + 10) as usize, s as u64),
        GateSpec::MulConst((2 * s) as u64, (base + 4) as usize),
        GateSpec::Sub((base + 11) as usize, (base + 12) as usize),
    ]
}

/// Constraint of output pixel `k` in the resize circuit: the rounding residual
/// lies below `2^bits_for(2 s)`, which admits `[0, 2 s)`.
pub open spec fn resize_constraints(nw: int, nh: int, k: int) -> Seq<Constraint> {
    seq![Constraint::RangeCheck { t: (14 * k + 13) as usize, bits: bits_for((2 * resize_scale(nw, nh)) as nat) as usize }]
}

/// Witness of output pixel `k` in the resize circuit: its four source pixels and
/// the interpolated output.
pub open spec fn resize_witness(pixels: Seq<u8>, w: int, h: int, nw: int, nh: int, k: int) -> Seq<Option<u64>> {
    resize_edit_witness(pixels, w, h, nw, nh, k % nw, k / nw) + Seq::new(9, |j: int| None::<u64>)
}

/// Appends the gates of output pixel `k` of the resize circuit.
fn push_resize_gates(gates: &mut Vec<Gate>, k: usize, wa: u64, wb: u64, wc: u64, wd: u64, s: u64)
    requires
        14 * k + 13 <= usize::MAX,
        s <= u32::MAX,
    ensures
        gates_view(final(gates)@) == gates_view(old(gates)@) + seq![
            GateSpec::Input, GateSpec::Input, GateSpec::Input, GateSpec::Input, GateSpec::Input,
            GateSpec::MulConst(wa, (14 * k) as usize),
            GateSpec::MulConst(wb, (14 * k + 1) as usize),
            GateSpec::MulConst(wc, (14 * k + 2) as usize),
            GateSpec::MulConst(wd, (14 * k + 3) as usize),
            GateSpec::AddMany(seq![(14 * k + 5) as usize, (14 * k + 6) as usize, (14 * k + 7) as usize, (14 * k + 8) as usize]),
            GateSpec::MulConst(2, (14 * k + 9) as usize),
            GateSpec::AddConst((14 * k + 10) as usize, s),
            GateSpec::MulConst((2 * s) as u64, (14 * k + 4) as usize),
            GateSpec::Sub((14 * k + 11) as usize, (14 * k + 12) as usize),
        ],
{
    let base = 14 * k;
    let ghost old_view = gates_view(gates@);
    push_gate(gates, Gate::Input);
    push_gate(gates, Gate::Input);
    push_gate(gates, Gate::Input);
    push_gate(gates, Gate::Input);
    push_gate(gates, Gate::Input);
    push_gate(gates, Gate::MulConst { c: wa, t: base });
    push_gate(gates, Gate::MulConst { c: wb, t: base + 1 });
    push_gate(gates, Gate::MulConst { c: wc, t: base + 2 });
    push_gate(gates, Gate::MulConst { c: wd, t: base + 3 });
    let mut terms: Vec<usize> = Vec::new();
    terms.push(base + 5);
    terms.push(base + 6);
    terms.push(base + 7);
    terms.push(base + 8);
    proof {
        assert(terms@ =~= seq![(base + 5) as usize, (base + 6) as usize, (base + 7) as usize, (base + 8) as usize]);
    }
    push_gate(gates, Gate::AddMany { terms });
    push_gate(gates, Gate::MulConst { c: 2, t: base + 9 });
    push_gate(gates, Gate::AddConst { t: base + 10, c: s });
    push_gate(gates, Gate::MulConst { c: 2 * s, t: base + 4 });
    push_gate(gates, Gate::Sub { a: base + 11, b: base + 12 });
    proof {
        assert(gates_view(gates@) =~= old_view + seq![
            GateSpec::Input, GateSpec::Input, GateSpec::Input, GateSpec::Input, GateSpec::Input,
            GateSpec::MulConst(wa, (14 * k) as usize),
            GateSpec::MulConst(wb, (14 * k + 1) as usize),
            GateSpec::MulConst(wc, (14 * k + 2) as usize),
            GateSpec::MulConst(wd, (14 * k + 3) as usize),
            GateSpec::AddMany(seq![(14 * k + 5) as usize, (14 * k + 6) as usize, (14 * k + 7) as usize, (14 * k + 8) as usize]),
            GateSpec::MulConst(2, (14 * k + 9) as usize),
            GateSpec::AddConst((14 * k + 10) as usize, s),
            GateSpec::MulConst((2 * s) as u64, (14 * k + 4) as usize),
            GateSpec::Sub((14 * k + 11) as usize, (14 * k + 12) as usize),
        ]);
    }
}

/// Wire values of output pixel `k` of the resize circuit: the output, and the
/// rounding residual `(2 W + s) % (2 s)`.
#[verifier::spinoff_prover]
#[verifier::rlimit(40)]
proof fn lemma_resize_block(gates: Seq<GateSpec>, witness: Seq<Option<u64>>, pixels: Seq<u8>, w: int, h: int, nw: int, nh: int, k: int)
    requires
        1 <= w,
        1 <= h,
        1 <= nw,
        1 <= nh,
        resize_scale(nw, nh) <= u32::MAX,
        0 <= k < nw * nh,
        14 * k + 14 <= gates.len(),
        14 * k + 14 <= witness.len(),
        14 * k + 13 <= usize::MAX,
        forall|j: int| 0 <= j < 14 ==> gates[14 * k + j] == #[trigger] resize_gates(w, h, nw, nh, k)[j],
        forall|j: int| 0 <= j < 14 ==> witness[14 * k + j] == #[trigger] resize_witness(pixels, w, h, nw, nh, k)[j],
    ensures
        wire_value(gates, witness, 14 * k + 4) == resize_edit_output(pixels, w, h, nw, nh, k % nw, k / nw),
        0 <= wire_value(gates, witness, 14 * k + 13) < 2 * resize_scale(nw, nh),
{
    let col = k % nw;
    let row = k / nw;
    assert(0 <= row < nh) by (nonlinear_arith)
        requires
            0 <= k < nw * nh,
            nw >= 1,
            row == k / nw,
    ;
    crate::image_io::lemma_src_coords(col, w, nw);
    crate::image_io::lemma_src_coords(row, h, nh);
    let xf = src_frac(col, w, nw);
    let yf = src_frac(row, h, nh);
    let dw = resize_den(nw);
    let dh = resize_den(nh);
    let s = resize_scale(nw, nh);
    assert(s == dw * dh);
    assert(1 <= s) by (nonlinear_arith)
        requires
            s == dw * dh,
            dw >= 1,
            dh >= 1,
    ;
    let (wa, wb, wc, wd) = resize_weights(w, h, nw, nh, col, row);
    assert(0 <= wa <= s && 0 <= wb <= s && 0 <= wc <= s && 0 <= wd <= s) by (nonlinear_arith)
        requires
            0 <= xf < dw,
            0 <= yf < dh,
            s == dw * dh,
            wa == (dw - xf) * (dh - yf),
            wb == xf * (dh - yf),
            wc == (dw - xf) * yf,
            wd == xf * yf,
    ;
    let (a, b, c, d) = resize_corners(pixels, w, h, nw, nh, col, row);
    let out = resize_edit_output(pixels, w, h, nw, nh, col, row);
    let big_w = bilinear_num(a as int, b as int, c as int, d as int, xf, yf, dw, dh);
    crate::image_io::lemma_bilinear_bound(a as int, b as int, c as int, d as int, xf, yf, dw, dh);
    assert(out == round_div(big_w, s));
    assert(0 <= out <= 255);
    let base = 14 * k;
    let gs = resize_gates(w, h, nw, nh, k);
    let ws = resize_witness(pixels, w, h, nw, nh, k);
    assert(gs[0] == GateSpec::Input && gs[1] == GateSpec::Input && gs[2] == GateSpec::Input);
    assert(gs[3] == GateSpec::Input && gs[4] == GateSpec::Input);
    assert(ws[0] == Some(a as u64) && ws[1] == Some(b as u64) && ws[2] == Some(c as u64) && ws[3] == Some(d as u64));
    assert(ws[4] == Some(out as u64));
    assert(wire_value(gates, witness, base) == a);
    assert(wire_value(gates, witness, base + 1) == b);
    assert(wire_value(gates, witness, base + 2) == c);
    assert(wire_value(gates, witness, base + 3) == d);
    assert(wire_value(gates, witness, base + 4) == out);
    assert(0 <= wa * a <= s * 255 && 0 <= wb * b <= s * 255 && 0 <= wc * c <= s * 255
        && 0 <= wd * d <= s * 255) by (nonlinear_arith)
        requires
            0 <= wa <= s,
            0 <= wb <= s,
            0 <= wc <= s,
            0 <= wd <= s,
            0 <= a <= 255,
            0 <= b <= 255,
            0 <= c <= 255,
            0 <= d <= 255,
    ;
    assert(gs[5] == GateSpec::MulConst(wa as u64, base as usize));
    assert(gs[6] == GateSpec::MulConst(wb as u64, (base + 1) as usize));
    assert(gs[7] == GateSpec::MulConst(wc as u64, (base + 2) as usize));
    assert(gs[8] == GateSpec::MulConst(wd as u64, (base + 3) as usize));
    assert(wire_value(gates, witness, base + 5) == wa * a);
    assert(wire_value(gates, witness, base + 6) == wb * b);
    assert(wire_value(gates, witness, base + 7) == wc * c);
    assert(wire_value(gates, witness, base + 8) == wd * d);
    let ts = seq![(base + 5) as usize, (base + 6) as usize, (base + 7) as usize, (base + 8) as usize];
    assert(gs[9] == GateSpec::AddMany(ts));
    assert(terms_sum(gates, witness, ts, base + 9, 0) == 0);
    assert(terms_sum(gates, witness, ts, base + 9, 1) == wa * a);
    assert(terms_sum(gates, witness, ts, base + 9, 2) == wa * a + wb * b);
    assert(terms_sum(gates, witness, ts, base + 9, 3) == wa * a + wb * b + wc * c);
    assert(terms_sum(gates, witness, ts, base + 9, 4) == wa * a + wb * b + wc * c + wd * d);
    assert(big_w == wa * a + wb * b + wc * c + wd * d) by (nonlinear_arith)
        requires
            big_w == bilinear_num(a as int, b as int, c as int, d as int, xf, yf, dw, dh),
            wa == (dw - xf) * (dh - yf),
            wb == xf * (dh - yf),
            wc == (dw - xf) * yf,
            wd == xf * yf,
    ;
    assert(wire_value(gates, witness, base + 9) == big_w);
    assert(gs[10] == GateSpec::MulConst(2, (base + 9) as usize));
    assert(wire_value(gates, witness, base + 10) == 2 * big_w);
    assert(gs[11] == GateSpec::AddConst((base + 10) as usize, s as u64));
    assert(wire_value(gates, witness, base + 11) == 2 * big_w + s);
    assert(0 <= 2 * s * out <= 2 * s * 255) by (nonlinear_arith)
        requires
            0 <= out <= 255,
            1 <= s,
    ;
    assert(gs[12] == GateSpec::MulConst((2 * s) as u64, (base + 4) as usize));
    assert(wire_value(gates, witness, base + 12) == 2 * s * out);
    assert(gs[13] == GateSpec::Sub((base + 11) as usize, (base + 12) as usize));
    let x = 2 * big_w + s;
    assert(out == x / (2 * s));
    lemma_fundamental_div_mod(x, 2 * s);
    lemma_mod_pos_bound(x, 2 * s);
    assert(x - 2 * s * out == x % (2 * s)) by (nonlinear_arith)
        requires
            x == (2 * s) * (x / (2 * s)) + x % (2 * s),
            out == x / (2 * s),
    ;
    assert(wire_value(gates, witness, base + 13) == x % (2 * s));
}

/// Law of the resize circuit: its witness satisfies it, and its public values
/// are the interpolated output pixels, row by row; for a whole channel they are
/// the resized channel.
#[verifier::spinoff_prover]
proof fn lemma_resize_plan_values(
    pixels: Seq<u8>,
    w: u32,
    h: u32,
    nw: u32,
    nh: u32,
    fg: spec_fn(int) -> Seq<GateSpec>,
    fc: spec_fn(int) -> Seq<Constraint>,
    fp: spec_fn(int) -> Seq<usize>,
    fw: spec_fn(int) -> Seq<Option<u64>>,
)
    requires
        resize_fits(w, h, nw, nh),
        (nw > 0 && nh > 0) ==> resize_scale(nw as int, nh as int) <= u32::MAX,
        14 * (nw * nh) <= usize::MAX,
        forall|k: int| #[trigger] fg(k) == resize_gates(w as int, h as int, nw as int, nh as int, k),
        forall|k: int| #[trigger] fc(k) == resize_constraints(nw as int, nh as int, k),
        forall|k: int| #[trigger] fp(k) == seq![(14 * k + 4) as usize],
        forall|k: int| #[trigger] fw(k) == resize_witness(pixels, w as int, h as int, nw as int, nh as int, k),
    ensures
        satisfied(concat_blocks((nw * nh) as nat, fg), concat_blocks((nw * nh) as nat, fw),
            concat_blocks((nw * nh) as nat, fc)),
        public_values(concat_blocks((nw * nh) as nat, fg), concat_blocks((nw * nh) as nat, fw),
            concat_blocks((nw * nh) as nat, fp))
            == Seq::new((nw * nh) as nat, |k: int| resize_edit_output(pixels, w as int, h as int, nw as int,
                nh as int, k % (nw as int), k / (nw as int))),
{
    let m = (nw * nh) as nat;
    let gates = concat_blocks(m, fg);
    let witness = concat_blocks(m, fw);
    let publics = concat_blocks(m, fp);
    let constraints = concat_blocks(m, fc);
    assert forall|k: int| 0 <= k < m implies #[trigger] fw(k).len() == 14 by {}
    lemma_concat_uniform(m, fg, 14);
    lemma_concat_uniform(m, fw, 14);
    lemma_concat_uniform(m, fp, 1);
    lemma_concat_uniform(m, fc, 1);
    assert forall|idx: int| 0 <= idx < gates.len() && gates[idx] is Input implies #[trigger] witness[idx] is Some by {
        let k = idx / 14;
        let j = idx % 14;
        assert(0 <= k < m) by (nonlinear_arith)
            requires
                idx == 14 * k + j,
                0 <= j < 14,
                0 <= idx < 14 * m,
        ;
        assert(gates[14 * k + j] == fg(k)[j]);
        assert(witness[14 * k + j] == fw(k)[j]);
    }
    assert(witness_complete(gates, witness));
    assert forall|k: int|
        #![trigger wire_value(gates, witness, 14 * k + 4)]
        #![trigger wire_value(gates, witness, 14 * k + 13)]
        0 <= k < m implies {
        &&& wire_value(gates, witness, 14 * k + 4) == resize_edit_output(pixels, w as int, h as int, nw as int,
            nh as int, k % (nw as int), k / (nw as int))
        &&& 0 <= wire_value(gates, witness, 14 * k + 13) < 2 * resize_scale(nw as int, nh as int)
    } by {
        assert(nw > 0 && nh > 0) by (nonlinear_arith)
            requires
                0 <= k < m,
                m == nw * nh,
        ;
        assert(14 * k + 14 <= 14 * m) by (nonlinear_arith)
            requires
                k < m,
        ;
        assert forall|j: int| 0 <= j < 14 implies gates[14 * k + j]
            == #[trigger] resize_gates(w as int, h as int, nw as int, nh as int, k)[j] by {
            assert(gates[14 * k + j] == fg(k)[j]);
        }
        assert forall|j: int| 0 <= j < 14 implies witness[14 * k + j]
            == #[trigger] resize_witness(pixels, w as int, h as int, nw as int, nh as int, k)[j] by {
            assert(witness[14 * k + j] == fw(k)[j]);
        }
        lemma_resize_block(gates, witness, pixels, w as int, h as int, nw as int, nh as int, k);
    }
    let expected = Seq::new(m, |k: int| resize_edit_output(pixels, w as int, h as int, nw as int, nh as int,
        k % (nw as int), k / (nw as int)));
    assert forall|k: int| 0 <= k < m implies #[trigger] public_values(gates, witness, publics)[k] == expected[k] by {
        assert(publics[1 * k + 0] == fp(k)[0]);
        assert(wire_value(gates, witness, 14 * k + 4) == expected[k]);
    }
    assert(public_values(gates, witness, publics) =~= expected);
    assert forall|k: int| 0 <= k < constraints.len() implies #[trigger] constraint_holds(gates, witness, constraints[k]) by {
        assert(constraints[1 * k + 0] == fc(k)[0]);
        let two_s = (2 * resize_scale(nw as int, nh as int)) as nat;
        assert(0 <= wire_value(gates, witness, 14 * k + 13) < 2 * resize_scale(nw as int, nh as int));
        lemma2_to64();
        lemma_bits_for(two_s, 64);
    }
}

/// Circuit for a resize using bilinear interpolation
///
/// For each output pixel (row by row) the circuit takes the four source pixels
/// and the output as inputs, computes the weighted sum `W` of the source pixels
/// (integer weights scaled by `s = resize_den(new_width) * resize_den(new_height)`)
/// and checks that `2 W + s - 2 s * out` lies in `[0, 2 s)`, that is, that the
/// output is `W / s` rounded; the outputs are public.
#[verifier::rlimit(60)]
pub fn resize_plan(
    pixels: &[u8],
    original_width: u32,
    original_height: u32,
    new_width: u32,
    new_height: u32,
    config: &ProofConfig,
) -> (plan: CircuitPlan)
    requires
        resize_fits(original_width, original_height, new_width, new_height),
        (new_width > 0 && new_height > 0) ==> (new_width - 1) * (new_height - 1) <= u32::MAX,
        14 * (new_width * new_height) <= usize::MAX,
    ensures
        plan.zero_knowledge == config.use_zk,
        plan.gate_specs() == concat_blocks(
            (new_width * new_height) as nat,
            |k: int| resize_gates(original_width as int, original_height as int, new_width as int, new_height as int, k),
        ),
        plan.constraints@ == concat_blocks(
            (new_width * new_height) as nat,
            |k: int| resize_constraints(new_width as int, new_height as int, k),
        ),
        plan.public_inputs@ == concat_blocks((new_width * new_height) as nat, |k: int| seq![(14 * k + 4) as usize]),
        plan.witness@ == concat_blocks(
            (new_width * new_height) as nat,
            |k: int| resize_witness(pixels@, original_width as int, original_height as int, new_width as int,
                new_height as int, k),
        ),
        satisfied(plan.gate_specs(), plan.witness@, plan.constraints@),
        public_values(plan.gate_specs(), plan.witness@, plan.public_inputs@) == Seq::new(
            (new_width * new_height) as nat,
            |k: int| resize_edit_output(pixels@, original_width as int, original_height as int, new_width as int,
                new_height as int, k % new_width as int, k / new_width as int),
        ),
        pixels@.len() == original_width * original_height ==> public_values(plan.gate_specs(), plan.witness@,
            plan.public_inputs@) == resize_channel(pixels@, original_width as int, original_height as int,
            new_width as int, new_height as int).map_values(|v: u8| v as int),
{
    let ghost (w, h, nw, nh) = (original_width as int, original_height as int, new_width as int, new_height as int);
    let ghost fg = |k: int| resize_gates(w, h, nw, nh, k);
    let ghost fc = |k: int| resize_constraints(nw, nh, k);
    let ghost fp = |k: int| seq![(14 * k + 4) as usize];
    let ghost fw = |k: int| resize_witness(pixels@, w, h, nw, nh, k);
    let dw_s: u64 = if new_width >= 2 { (new_width - 1) as u64 } else { 1 };
    let dh_s: u64 = if new_height >= 2 { (new_height - 1) as u64 } else { 1 };
    proof {
        if new_width > 0 && new_height > 0 {
            assert(dw_s * dh_s <= u32::MAX) by (nonlinear_arith)
                requires
                    new_width >= 1,
                    new_height >= 1,
                    dw_s == (if new_width >= 2 { new_width - 1 } else { 1 }),
                    dh_s == (if new_height >= 2 { new_height - 1 } else { 1 }),
                    (new_width - 1) * (new_height - 1) <= u32::MAX,
                    new_width <= u32::MAX,
                    new_height <= u32::MAX,
            ;
        }
    }
    let scale: u64 = if new_width > 0 && new_height > 0 { dw_s * dh_s } else { 1 };
    let bits = bits_for_exec(2 * scale);
    let mut gates: Vec<Gate> = Vec::new();
    let mut constraints: Vec<Constraint> = Vec::new();
    let mut public_inputs: Vec<usize> = Vec::new();
    let mut witness: Vec<Option<u64>> = Vec::new();
    proof {
        assert(dw_s == resize_den(nw) && dh_s == resize_den(nh));
    }
    let mut row: u32 = 0;
    while row < new_height
        invariant
            resize_fits(original_width, original_height, new_width, new_height),
            14 * (new_width * new_height) <= usize::MAX,
            w == original_width as int,
            h == original_height as int,
            nw == new_width as int,
            nh == new_height as int,
            row <= new_height,
            new_width > 0 && new_height > 0 ==> scale == resize_scale(nw, nh),
            new_width > 0 && new_height > 0 ==> scale == dw_s * dh_s,
            dw_s == resize_den(nw),
            dh_s == resize_den(nh),
            scale <= u32::MAX,
            bits == bits_for((2 * scale) as nat),
            fg == (|k: int| resize_gates(w, h, nw, nh, k)),
            fc == (|k: int| resize_constraints(nw, nh, k)),
            fp == (|k: int| seq![(14 * k + 4) as usize]),
            fw == (|k: int| resize_witness(pixels@, w, h, nw, nh, k)),
            gates_view(gates@) == concat_blocks((row * new_width) as nat, fg),
            constraints@ == concat_blocks((row * new_width) as nat, fc),
            public_inputs@ == concat_blocks((row * new_width) as nat, fp),
            witness@ == concat_blocks((row * new_width) as nat, fw),
        decreases new_height - row,
    {
        let mut col: u32 = 0;
        proof {
            assert((row + 1) * new_width <= new_width * new_height) by (nonlinear_arith)
                requires
                    row < new_height,
            ;
        }
        while col < new_width
            invariant
                resize_fits(original_width, original_height, new_width, new_height),
                14 * (new_width * new_height) <= usize::MAX,
                (row + 1) * new_width <= new_width * new_height,
                w == original_width as int,
                h == original_height as int,
                nw == new_width as int,
                nh == new_height as int,
                row < new_height,
                col <= new_width,
                new_width > 0 && new_height > 0 ==> scale == resize_scale(nw, nh),
                new_width > 0 && new_height > 0 ==> scale == dw_s * dh_s,
                dw_s == resize_den(nw),
                dh_s == resize_den(nh),
                scale <= u32::MAX,
                bits == bits_for((2 * scale) as nat),
                fg == (|k: int| resize_gates(w, h, nw, nh, k)),
                fc == (|k: int| resize_constraints(nw, nh, k)),
                fp == (|k: int| seq![(14 * k + 4) as usize]),
                fw == (|k: int| resize_witness(pixels@, w, h, nw, nh, k)),
                gates_view(gates@) == concat_blocks((row * new_width + col) as nat, fg),
                constraints@ == concat_blocks((row * new_width + col) as nat, fc),
                public_inputs@ == concat_blocks((row * new_width + col) as nat, fp),
                witness@ == concat_blocks((row * new_width + col) as nat, fw),
            decreases new_width - col,
        {
            let ghost k = row * new_width + col;
            proof {
                crate::image_io::lemma_pixel_index_split(nw, col as int, row as int);
                lemma_concat_blocks_step(k as nat, fg);
                lemma_concat_blocks_step(k as nat, fc);
                lemma_concat_blocks_step(k as nat, fp);
                lemma_concat_blocks_step(k as nat, fw);
                assert(row * new_width + col < (row + 1) * new_width) by (nonlinear_arith)
                    requires
                        col < new_width,
                ;
            }
            let c = source_corners(original_width, original_height, new_width, new_height, col, row);
            proof {
                assert(c.yh * original_width + c.xh <= original_width * original_height - 1) by (nonlinear_arith)
                    requires
                        c.xl <= c.xh < original_width,
                        c.yl <= c.yh < original_height,
                ;
                assert(c.yl * original_width + c.xl <= c.yh * original_width + c.xh) by (nonlinear_arith)
                    requires
                        c.xl <= c.xh,
                        c.yl <= c.yh,
                ;
                assert(c.yl * original_width + c.xh <= c.yh * original_width + c.xh) by (nonlinear_arith)
                    requires
                        c.yl <= c.yh,
                ;
                assert(c.yh * original_width + c.xl <= c.yh * original_width + c.xh);
                assert(c.dw == dw_s && c.dh == dh_s);
            }
            let a = get_or_zero_exec(pixels, (c.yl * original_width as u64 + c.xl) as usize);
            let b = get_or_zero_exec(pixels, (c.yl * original_width as u64 + c.xh) as usize);
            let cc = get_or_zero_exec(pixels, (c.yh * original_width as u64 + c.xl) as usize);
            let d = get_or_zero_exec(pixels, (c.yh * original_width as u64 + c.xh) as usize);
            let out = interpolate(a, b, cc, d, c.xw, c.yw, c.dw, c.dh);
            proof {
                assert((c.dw - c.xw) * (c.dh - c.yw) <= scale && c.xw * (c.dh - c.yw) <= scale
                    && (c.dw - c.xw) * c.yw <= scale && c.xw * c.yw <= scale) by (nonlinear_arith)
                    requires
                        c.xw < c.dw,
                        c.yw < c.dh,
                        scale == c.dw * c.dh,
                ;
            }
            let wa = (c.dw - c.xw) * (c.dh - c.yw);
            let wb = c.xw * (c.dh - c.yw);
            let wc = (c.dw - c.xw) * c.yw;
            let wd = c.xw * c.yw;
            let idx = (row as usize) * (new_width as usize) + col as usize;
            push_resize_gates(&mut gates, idx, wa, wb, wc, wd, scale);
            constraints.push(Constraint::RangeCheck { t: 14 * idx + 13, bits });
            let ghost old_witness = witness@;
            public_inputs.push(14 * idx + 4);
            witness.push(Some(a as u64));
            witness.push(Some(b as u64));
            witness.push(Some(cc as u64));
            witness.push(Some(d as u64));
            witness.push(Some(out as u64));
            witness.push(None);
            witness.push(None);
            witness.push(None);
            witness.push(None);
            witness.push(None);
            witness.push(None);
            witness.push(None);
            witness.push(None);
            witness.push(None);
            proof {
                crate::image_io::lemma_bilinear_bound(a as int, b as int, cc as int, d as int, c.xw as int, c.yw as int, c.dw as int, c.dh as int);
                assert(k % nw == col && k / nw == row);
                assert(resize_corners(pixels@, w, h, nw, nh, col as int, row as int) == (a, b, cc, d));
                assert(fw(k) =~= seq![Some(a as u64), Some(b as u64), Some(cc as u64), Some(d as u64), Some(out as u64),
                    None, None, None, None, None, None, None, None, None]);
                assert(fg(k) =~= gates_view(gates@).subrange(gates_view(gates@).len() - 14, gates_view(gates@).len() as int));
                assert(gates_view(gates@) =~= concat_blocks(k as nat, fg) + fg(k));
                assert(constraints@ =~= concat_blocks(k as nat, fc) + fc(k));
                assert(public_inputs@ =~= concat_blocks(k as nat, fp) + fp(k));
                assert(witness@ =~= concat_blocks(k as nat, fw) + fw(k));
            }
            col = col + 1;
        }
        proof {
            assert(row * new_width + new_width == (row + 1) * new_width) by (nonlinear_arith);
        }
        row = row + 1;
    }
    proof {
        assert(new_height * new_width == new_width * new_height) by (nonlinear_arith);
        if new_width > 0 && new_height > 0 {
            assert(resize_scale(nw, nh) <= u32::MAX);
        }
        lemma_resize_plan_values(pixels@, original_width, original_height, new_width, new_height, fg, fc, fp, fw);
        if pixels@.len() == original_width * original_height && new_width > 0 && new_height > 0 {
            let m = (new_width * new_height) as nat;
            let expected = Seq::new(m, |k: int| resize_edit_output(pixels@, w, h, nw, nh, k % nw, k / nw));
            let resized = resize_channel(pixels@, w, h, nw, nh).map_values(|v: u8| v as int);
            assert forall|k: int| 0 <= k < m implies #[trigger] expected[k] == resized[k] by {
                crate::prover::lemma_resize_edit_output_is_resized(pixels@, original_width, original_height,
                    new_width, new_height, k);
            }
            assert(expected =~= resized);
        } else if pixels@.len() == original_width * original_height {
            assert(new_width * new_height == 0) by (nonlinear_arith)
                requires
                    !(new_width > 0 && new_height > 0),
            ;
            assert(resize_channel(pixels@, w, h, nw, nh).map_values(|v: u8| v as int) =~= Seq::<int>::empty());
        }
    }
    CircuitPlan { zero_knowledge: config.use_zk, gates, constraints, public_inputs, witness }
}

/// Law linking the crop circuit to the crop: for a region inside the image, the
/// pixels that the crop circuit publishes are exactly the cropped channel.
pub proof fn lemma_crop_circuit_publishes_cropped_channel(ch: Seq<u8>, w: u32, h: u32, x: u32, y: u32, cw: u32, chh: u32)
    requires
        ch.len() == w * h,
        x + cw <= w,
        y + chh <= h,
    ensures
        cropped_values(ch, w as int, x as int, y as int, cw as int, chh as int)
            == crop_channel(ch, w as int, x as int, y as int, cw as int, chh as int),
{
    let m = (cw * chh) as nat;
    let f = |k: int|
        if region_index(w as int, x as int, y as int, cw as int, k) < ch.len() {
            seq![ch[region_index(w as int, x as int, y as int, cw as int, k)]]
        } else {
            Seq::empty()
        };
    let g = |k: int| seq![ch[region_index(w as int, x as int, y as int, cw as int, k)]];
    assert forall|k: int| 0 <= k < m implies #[trigger] f(k) == g(k) by {
        let col = k % (cw as int);
        let row = k / (cw as int);
        assert(cw > 0 && chh > 0) by (nonlinear_arith)
            requires
                0 <= k < m,
                m == cw * chh,
        ;
        assert(0 <= row < chh) by (nonlinear_arith)
            requires
                0 <= k < cw * chh,
                cw > 0,
                row == k / (cw as int),
        ;
        lemma_pixel_index_bounds(w as int, h as int, x + col, y + row);
    }
    lemma_concat_blocks_congruent(m, f, g);
    lemma_concat_uniform(m, g, 1);
    let expected = crop_channel(ch, w as int, x as int, y as int, cw as int, chh as int);
    assert forall|k: int| 0 <= k < m implies #[trigger] concat_blocks(m, g)[k] == expected[k] by {
        assert(concat_blocks(m, g)[1 * k + 0] == g(k)[0]);
    }
    assert(concat_blocks(m, g) =~= expected);
}

/// Law linking the blur circuit to the blur: the pixels outside the blur interior,
/// which the circuit publishes, are those of the blurred channel.
pub proof fn lemma_blur_circuit_publishes_unblurred_pixels(ch: Seq<u8>, w: int, bx: int, by: int, bw: int, bh: int)
    requires
        w >= 1,
    ensures
        concat_blocks(ch.len(), |i: int|
            if in_blur_interior(bx, by, bw, bh, i % w, i / w) {
                Seq::<int>::empty()
            } else {
                seq![get_or_zero(ch, i) as int]
            })
            == concat_blocks(ch.len(), |i: int|
            if in_blur_interior(bx, by, bw, bh, i % w, i / w) {
                Seq::<int>::empty()
            } else {
                seq![blur_channel(ch, w, bx, by, bw, bh)[i] as int]
            }),
{
    let f = |i: int|
        if in_blur_interior(bx, by, bw, bh, i % w, i / w) {
            Seq::<int>::empty()
        } else {
            seq![get_or_zero(ch, i) as int]
        };
    let g = |i: int|
        if in_blur_interior(bx, by, bw, bh, i % w, i / w) {
            Seq::<int>::empty()
        } else {
            seq![blur_channel(ch, w, bx, by, bw, bh)[i] as int]
        };
    assert forall|i: int| 0 <= i < ch.len() implies #[trigger] f(i) == g(i) by {}
    lemma_concat_blocks_congruent(ch.len(), f, g);
}

/// The nine wires (pixels) of the 3x3 neighbourhood of (`x`, `y`), row by row.
pub open spec fn neighbourhood(w: int, x: int, y: int) -> Seq<usize> {
    seq![
        pixel_index(w, x - 1, y - 1) as usize, pixel_index(w, x, y - 1) as usize, pixel_index(w, x + 1, y - 1) as usize,
        pixel_index(w, x - 1, y) as usize, pixel_index(w, x, y) as usize, pixel_index(w, x + 1, y) as usize,
        pixel_index(w, x - 1, y + 1) as usize, pixel_index(w, x, y + 1) as usize, pixel_index(w, x + 1, y + 1) as usize,
    ]
}

/// Number of pixels in the blur interior (`bw - 2` columns by `bh - 2` rows).
pub open spec fn interior_count(bw: int, bh: int) -> int {
    if bw >= 3 && bh >= 3 { (bw - 2) * (bh - 2) } else { 0 }
}

/// Gates of the `k`-th interior pixel (`x`, `y`) of the blur circuit, after the
/// `n` pixel inputs: the neighbourhood sum, the blurred value, nine times it,
/// the sum plus 4, and the remainder `sum + 4 - 9 * blurred`.
pub open spec fn blur_gates(n: int, k: int, w: int, x: int, y: int) -> Seq<GateSpec> {
    let s = n + 5 * k;
    seq![
        GateSpec::AddMany(neighbourhood(w, x, y)),
        GateSpec::Input,
        GateSpec::MulConst(9, (s + 1) as usize),
        GateSpec::AddConst(s as usize, 4),
        GateSpec::Sub((s + 3) as usize, (s + 2) as usize),
    ]
}

/// The blur region's arithmetic stays within the machine integers that the
/// blur circuit computes with (`u32` coordinates, `i32` neighbour offsets), and
/// every neighbourhood of the interior lies inside `pixels`.
pub open spec fn blur_plan_fits(len: int, w: u32, h: u32, bx: u32, by: u32, bw: u32, bh: u32) -> bool {
    &&& w * h <= u32::MAX
    &&& len <= w * h
    &&& by + bh <= u32::MAX
    &&& by + bh >= 1
    &&& by < u32::MAX
    &&& bh >= 3 ==> (bx + bw >= 1 && bx + bw <= u32::MAX && bx < u32::MAX)
    &&& w > bx + 1 ==> (bx + bw >= 1 && bx + bw <= u32::MAX)
    &&& (bw >= 3 && bh >= 3) ==> {
        &&& bx + bw <= 0x8000_0000
        &&& by + bh <= 0x8000_0000
        &&& (by + bh - 1) * w + (bx + bw - 1) < len
    }
}

/// Appends the gates of the `k`-th interior pixel (`x`, `y`) of the blur circuit.
fn push_blur_gates(gates: &mut Vec<Gate>, n: usize, k: usize, w: u32, x: u32, y: u32)
    requires
        1 <= x,
        1 <= y,
        (y + 1) * w + (x + 1) <= u32::MAX,
        n + 5 * k + 4 <= usize::MAX,
    ensures
        gates_view(final(gates)@) == gates_view(old(gates)@) + blur_gates(n as int, k as int, w as int, x as int, y as int),
{
    proof {
        assert((y - 1) * w + (x - 1) <= (y + 1) * w + (x + 1) && y * w + x <= (y + 1) * w + (x + 1)) by (nonlinear_arith)
            requires
                1 <= x,
                1 <= y,
        ;
        assert((y - 1) * w + w == y * w && y * w + w == (y + 1) * w) by (nonlinear_arith);
    }
    let xs = x as u64;
    let up = (y as u64 - 1) * w as u64;
    let mid = y as u64 * w as u64;
    let down = (y as u64 + 1) * w as u64;
    let mut terms: Vec<usize> = Vec::new();
    terms.push((up + xs - 1) as usize);
    terms.push((up + xs) as usize);
    terms.push((up + xs + 1) as usize);
    terms.push((mid + xs - 1) as usize);
    terms.push((mid + xs) as usize);
    terms.push((mid + xs + 1) as usize);
    terms.push((down + xs - 1) as usize);
    terms.push((down + xs) as usize);
    terms.push((down + xs + 1) as usize);
    proof {
        assert(terms@ =~= neighbourhood(w as int, x as int, y as int));
    }
    let s = n + 5 * k;
    push_gate(gates, Gate::AddMany { terms });
    push_gate(gates, Gate::Input);
    push_gate(gates, Gate::MulConst { c: 9, t: s + 1 });
    push_gate(gates, Gate::AddConst { t: s, c: 4 });
    push_gate(gates, Gate::Sub { a: s + 3, b: s + 2 });
    proof {
        assert(gates_view(gates@) =~= gates_view(old(gates)@) + blur_gates(n as int, k as int, w as int, x as int, y as int));
    }
}

/// The rounded 3x3 mean `(sum + 4) / 9` around an interior pixel.
fn rounded_box_mean(pixels: &[u8], w: u32, x: u32, y: u32) -> (v: u32)
    requires
        1 <= x,
        1 <= y,
        (y + 1) * w + (x + 1) < pixels@.len(),
    ensures
        v == (box_sum(pixels@, w as int, x as int, y as int) + 4) / 9,
{
    let len = pixels.len();
    proof {
        assert((y - 1) * w + (x - 1) <= (y + 1) * w + (x + 1) && y * w + x <= (y + 1) * w + (x + 1)) by (nonlinear_arith)
            requires
                1 <= x,
                1 <= y,
        ;
        assert((y - 1) * w + w == y * w && y * w + w == (y + 1) * w) by (nonlinear_arith);
        assert(0 <= (y - 1) * w && (y - 1) * w <= y * w && y * w <= (y + 1) * w) by (nonlinear_arith)
            requires
                1 <= y,
        ;
    }
    let up = ((y as u64 - 1) * w as u64) as usize;
    let mid = (y as u64 * w as u64) as usize;
    let down = ((y as u64 + 1) * w as u64) as usize;
    let xs = x as usize;
    let sum: u32 = pixels[up + xs - 1] as u32 + pixels[up + xs] as u32 + pixels[up + xs + 1] as u32
        + pixels[mid + xs - 1] as u32 + pixels[mid + xs] as u32 + pixels[mid + xs + 1] as u32
        + pixels[down + xs - 1] as u32 + pixels[down + xs] as u32 + pixels[down + xs + 1] as u32;
    (sum + 4) / 9
}

/// Wire values of the `k`-th interior pixel (`x`, `y`) of the blur circuit.
#[verifier::spinoff_prover]
#[verifier::rlimit(40)]
proof fn lemma_blur_block(
    gates: Seq<GateSpec>,
    witness: Seq<Option<u64>>,
    pixels: Seq<u8>,
    n: int,
    k: int,
    w: int,
    x: int,
    y: int,
)
    requires
        1 <= x,
        1 <= y,
        0 <= w,
        (y + 1) * w + (x + 1) < pixels.len(),
        pixels.len() <= n,
        0 <= k,
        n + 5 * k + 5 <= gates.len(),
        n + 5 * k + 5 <= witness.len(),
        n + 5 * k + 4 <= usize::MAX,
        forall|idx: int| 0 <= idx < n ==> #[trigger] wire_value(gates, witness, idx) == get_or_zero(pixels, idx),
        forall|j: int| 0 <= j < 5 ==> gates[n + 5 * k + j] == #[trigger] blur_gates(n, k, w, x, y)[j],
        witness[n + 5 * k + 1] == Some(((box_sum(pixels, w, x, y) + 4) / 9) as u64),
    ensures
        wire_value(gates, witness, n + 5 * k + 1) == (box_sum(pixels, w, x, y) + 4) / 9,
        wire_value(gates, witness, n + 5 * k + 4) == (box_sum(pixels, w, x, y) + 4) % 9,
{
    let s = n + 5 * k;
    let bs = box_sum(pixels, w, x, y);
    let nb = neighbourhood(w, x, y);
    let gs = blur_gates(n, k, w, x, y);
    assert(0 <= (y - 1) * w + (x - 1) && (y - 1) * w + (x + 1) <= y * w + (x + 1) && y * w + (x + 1) <= (y + 1) * w + (x + 1)) by (nonlinear_arith)
        requires
            1 <= x,
            1 <= y,
            0 <= w,
    ;
    assert((y - 1) * w + w == y * w && y * w + w == (y + 1) * w) by (nonlinear_arith);
    assert forall|j: int| 0 <= j < nb.len() implies 0 <= #[trigger] nb[j] < pixels.len() && nb[j] < s by {}
    assert forall|j: int| 0 <= j < nb.len() implies #[trigger] wire_value(gates, witness, nb[j] as int)
        == get_or_zero(pixels, nb[j] as int) by {
        assert(0 <= nb[j] < n);
    }
    lemma_terms_sum_of_inputs(gates, witness, nb, s, 9, pixels);
    reveal_with_fuel(indexed_sum, 10);
    assert(indexed_sum(pixels, nb, 9) == bs);
    assert(0 <= bs <= 9 * 255);
    assert(gs[0] == GateSpec::AddMany(nb));
    assert(wire_value(gates, witness, s) == bs);
    assert(gs[1] == GateSpec::Input);
    let out = (bs + 4) / 9;
    assert(wire_value(gates, witness, s + 1) == out);
    assert(gs[2] == GateSpec::MulConst(9, (s + 1) as usize));
    assert(wire_value(gates, witness, s + 2) == 9 * out);
    assert(gs[3] == GateSpec::AddConst(s as usize, 4));
    assert(wire_value(gates, witness, s + 3) == bs + 4);
    assert(gs[4] == GateSpec::Sub((s + 3) as usize, (s + 2) as usize));
    assert(wire_value(gates, witness, s + 4) == (bs + 4 - 9 * out) % field_order());
}

/// Law of the blur circuit: its public values are the pixels outside the blur
/// interior, row by row, and its witness satisfies it exactly when every pixel
/// input is set (the remainder of each rounded mean lies in `[0, 8]`).
#[verifier::spinoff_prover]
proof fn lemma_blur_plan_values(
    pixels: Seq<u8>,
    w: u32,
    h: u32,
    bx: u32,
    by: u32,
    bw: u32,
    bh: u32,
    base_g: Seq<GateSpec>,
    base_w: Seq<Option<u64>>,
    fg: spec_fn(int) -> Seq<GateSpec>,
    fc: spec_fn(int) -> Seq<Constraint>,
    fw: spec_fn(int) -> Seq<Option<u64>>,
    fp: spec_fn(int) -> Seq<usize>,
)
    requires
        blur_plan_fits(pixels.len() as int, w, h, bx, by, bw, bh),
        w * h + 5 * interior_count(bw as int, bh as int) <= usize::MAX,
        base_g.len() == w * h,
        base_w.len() == w * h,
        forall|idx: int| 0 <= idx < w * h ==> #[trigger] base_g[idx] == GateSpec::Input,
        forall|idx: int| 0 <= idx < w * h ==> #[trigger] base_w[idx]
            == if idx < pixels.len() { Some(pixels[idx] as u64) } else { None },
        forall|k: int| #[trigger] fg(k) == blur_gates(w * h, k, w as int, bx + 1 + k % (bw - 2), by + 1 + k / (bw - 2)),
        forall|k: int| #[trigger] fc(k) == seq![Constraint::RangeCheck { t: (w * h + 5 * k + 4) as usize, bits: 4 }],
        forall|k: int| #[trigger] fw(k) == seq![
            None,
            Some(((box_sum(pixels, w as int, bx + 1 + k % (bw - 2), by + 1 + k / (bw - 2)) + 4) / 9) as u64),
            None,
            None,
            None,
        ],
        forall|i: int| #[trigger] fp(i) == if in_blur_interior(bx as int, by as int, bw as int, bh as int, i % (w as int), i / (w as int)) {
            Seq::<usize>::empty()
        } else {
            seq![i as usize]
        },
    ensures
        public_values(base_g + concat_blocks(interior_count(bw as int, bh as int) as nat, fg),
            base_w + concat_blocks(interior_count(bw as int, bh as int) as nat, fw), concat_blocks((w * h) as nat, fp))
            == concat_blocks((w * h) as nat, |i: int|
                if in_blur_interior(bx as int, by as int, bw as int, bh as int, i % (w as int), i / (w as int)) {
                    Seq::<int>::empty()
                } else {
                    seq![get_or_zero(pixels, i) as int]
                }),
        satisfied(base_g + concat_blocks(interior_count(bw as int, bh as int) as nat, fg),
            base_w + concat_blocks(interior_count(bw as int, bh as int) as nat, fw),
            concat_blocks(interior_count(bw as int, bh as int) as nat, fc))
            <==> pixels.len() == w * h,
{
    let n = (w * h) as int;
    let m = interior_count(bw as int, bh as int) as nat;
    let gates = base_g + concat_blocks(m, fg);
    let witness = base_w + concat_blocks(m, fw);
    let constraints = concat_blocks(m, fc);
    lemma_concat_uniform(m, fg, 5);
    lemma_concat_uniform(m, fw, 5);
    lemma_concat_uniform(m, fc, 1);
    assert forall|idx: int| 0 <= idx < n implies #[trigger] wire_value(gates, witness, idx) == get_or_zero(pixels, idx) by {
        assert(gates[idx] == base_g[idx]);
        assert(witness[idx] == base_w[idx]);
    }
    let fv = |i: int|
        if in_blur_interior(bx as int, by as int, bw as int, bh as int, i % (w as int), i / (w as int)) {
            Seq::<int>::empty()
        } else {
            seq![get_or_zero(pixels, i) as int]
        };
    assert forall|i: int| 0 <= i < (w * h) as nat implies public_values(gates, witness, #[trigger] fp(i)) == fv(i) by {
        assert(public_values(gates, witness, fp(i)) =~= fv(i));
    }
    lemma_public_values_concat(gates, witness, (w * h) as nat, fp, fv);
    lemma_blur_plan_constraints(pixels, w, h, bx, by, bw, bh, base_g, base_w, fg, fc, fw, fp);
    lemma_blur_plan_witness(pixels, w, h, bx, by, bw, bh, base_g, base_w, fg, fc, fw, fp);
}

/// Every constraint of the blur circuit holds: the remainder of each rounded
/// mean lies in `[0, 8]`.
#[verifier::spinoff_prover]
proof fn lemma_blur_plan_constraints(
    pixels: Seq<u8>,
    w: u32,
    h: u32,
    bx: u32,
    by: u32,
    bw: u32,
    bh: u32,
    base_g: Seq<GateSpec>,
    base_w: Seq<Option<u64>>,
    fg: spec_fn(int) -> Seq<GateSpec>,
    fc: spec_fn(int) -> Seq<Constraint>,
    fw: spec_fn(int) -> Seq<Option<u64>>,
    fp: spec_fn(int) -> Seq<usize>,
)
    requires
        blur_plan_fits(pixels.len() as int, w, h, bx, by, bw, bh),
        w * h + 5 * interior_count(bw as int, bh as int) <= usize::MAX,
        base_g.len() == w * h,
        base_w.len() == w * h,
        forall|idx: int| 0 <= idx < w * h ==> #[trigger] base_g[idx] == GateSpec::Input,
        forall|idx: int| 0 <= idx < w * h ==> #[trigger] base_w[idx]
            == if idx < pixels.len() { Some(pixels[idx] as u64) } else { None },
        forall|k: int| #[trigger] fg(k) == blur_gates(w * h, k, w as int, bx + 1 + k % (bw - 2), by + 1 + k / (bw - 2)),
        forall|k: int| #[trigger] fc(k) == seq![Constraint::RangeCheck { t: (w * h + 5 * k + 4) as usize, bits: 4 }],
        forall|k: int| #[trigger] fw(k) == seq![
            None,
            Some(((box_sum(pixels, w as int, bx + 1 + k % (bw - 2), by + 1 + k / (bw - 2)) + 4) / 9) as u64),
            None,
            None,
            None,
        ],
        forall|i: int| #[trigger] fp(i) == if in_blur_interior(bx as int, by as int, bw as int, bh as int, i % (w as int), i / (w as int)) {
            Seq::<usize>::empty()
        } else {
            seq![i as usize]
        },
    ensures
        forall|k: int| 0 <= k < interior_count(bw as int, bh as int) ==> #[trigger] constraint_holds(
            base_g + concat_blocks(interior_count(bw as int, bh as int) as nat, fg),
            base_w + concat_blocks(interior_count(bw as int, bh as int) as nat, fw),
            concat_blocks(interior_count(bw as int, bh as int) as nat, fc)[k]),
{
    let n = (w * h) as int;
    let m = interior_count(bw as int, bh as int) as nat;
    let gates = base_g + concat_blocks(m, fg);
    let witness = base_w + concat_blocks(m, fw);
    let constraints = concat_blocks(m, fc);
    lemma_concat_uniform(m, fg, 5);
    lemma_concat_uniform(m, fw, 5);
    lemma_concat_uniform(m, fc, 1);
    assert forall|idx: int| 0 <= idx < n implies #[trigger] wire_value(gates, witness, idx) == get_or_zero(pixels, idx) by {
        assert(gates[idx] == base_g[idx]);
        assert(witness[idx] == base_w[idx]);
    }
    lemma2_to64();
    assert forall|k: int| 0 <= k < constraints.len() implies #[trigger] constraint_holds(gates, witness, constraints[k]) by {
        let iw = bw - 2;
        let x = bx + 1 + k % iw;
        let y = by + 1 + k / iw;
        assert(bw >= 3 && bh >= 3);
        assert(0 <= k / iw < bh - 2) by (nonlinear_arith)
            requires
                0 <= k < iw * (bh - 2),
                iw >= 1,
        ;
        assert((y + 1) * w + (x + 1) <= (by + bh - 1) * w + (bx + bw - 1)) by (nonlinear_arith)
            requires
                y + 1 <= by + bh - 1,
                x + 1 <= bx + bw - 1,
        ;
        assert(5 * k + 5 <= 5 * m) by (nonlinear_arith)
            requires
                k < m,
        ;
        assert forall|j: int| 0 <= j < 5 implies gates[n + 5 * k + j] == #[trigger] blur_gates(n, k, w as int, x, y)[j] by {
            assert(gates[n + 5 * k + j] == concat_blocks(m, fg)[5 * k + j]);
            assert(concat_blocks(m, fg)[5 * k + j] == fg(k)[j]);
        }
        assert(witness[n + 5 * k + 1] == concat_blocks(m, fw)[5 * k + 1]);
        assert(concat_blocks(m, fw)[5 * k + 1] == fw(k)[1]);
        lemma_blur_block(gates, witness, pixels, n, k, w as int, x, y);
        assert(constraints[1 * k + 0] == fc(k)[0]);
    }
}

/// The blur circuit's witness sets every input exactly when every pixel is given.
#[verifier::spinoff_prover]
proof fn lemma_blur_plan_witness(
    pixels: Seq<u8>,
    w: u32,
    h: u32,
    bx: u32,
    by: u32,
    bw: u32,
    bh: u32,
    base_g: Seq<GateSpec>,
    base_w: Seq<Option<u64>>,
    fg: spec_fn(int) -> Seq<GateSpec>,
    fc: spec_fn(int) -> Seq<Constraint>,
    fw: spec_fn(int) -> Seq<Option<u64>>,
    fp: spec_fn(int) -> Seq<usize>,
)
    requires
        blur_plan_fits(pixels.len() as int, w, h, bx, by, bw, bh),
        w * h + 5 * interior_count(bw as int, bh as int) <= usize::MAX,
        base_g.len() == w * h,
        base_w.len() == w * h,
        forall|idx: int| 0 <= idx < w * h ==> #[trigger] base_g[idx] == GateSpec::Input,
        forall|idx: int| 0 <= idx < w * h ==> #[trigger] base_w[idx]
            == if idx < pixels.len() { Some(pixels[idx] as u64) } else { None },
        forall|k: int| #[trigger] fg(k) == blur_gates(w * h, k, w as int, bx + 1 + k % (bw - 2), by + 1 + k / (bw - 2)),
        forall|k: int| #[trigger] fc(k) == seq![Constraint::RangeCheck { t: (w * h + 5 * k + 4) as usize, bits: 4 }],
        forall|k: int| #[trigger] fw(k) == seq![
            None,
            Some(((box_sum(pixels, w as int, bx + 1 + k % (bw - 2), by + 1 + k / (bw - 2)) + 4) / 9) as u64),
            None,
            None,
            None,
        ],
        forall|i: int| #[trigger] fp(i) == if in_blur_interior(bx as int, by as int, bw as int, bh as int, i % (w as int), i / (w as int)) {
            Seq::<usize>::empty()
        } else {
            seq![i as usize]
        },
    ensures
        witness_complete(base_g + concat_blocks(interior_count(bw as int, bh as int) as nat, fg),
            base_w + concat_blocks(interior_count(bw as int, bh as int) as nat, fw)) <==> pixels.len() == w * h,
{
    let n = (w * h) as int;
    let m = interior_count(bw as int, bh as int) as nat;
    let gates = base_g + concat_blocks(m, fg);
    let witness = base_w + concat_blocks(m, fw);
    let constraints = concat_blocks(m, fc);
    lemma_concat_uniform(m, fg, 5);
    lemma_concat_uniform(m, fw, 5);
    lemma_concat_uniform(m, fc, 1);
    if pixels.len() == n {
        assert forall|idx: int| 0 <= idx < gates.len() && gates[idx] is Input implies #[trigger] witness[idx] is Some by {
            if idx >= n {
                let k = (idx - n) / 5;
                let j = (idx - n) % 5;
                assert(0 <= k < m) by (nonlinear_arith)
                    requires
                        idx - n == 5 * k + j,
                        0 <= j < 5,
                        0 <= idx - n < 5 * m,
                ;
                assert(gates[idx] == fg(k)[j]);
                assert(witness[idx] == fw(k)[j]);
            } else {
                assert(gates[idx] == base_g[idx]);
                assert(witness[idx] == base_w[idx]);
            }
        }
        assert(witness_complete(gates, witness));
    } else {
        assert(gates[pixels.len() as int] == base_g[pixels.len() as int]);
        assert(witness[pixels.len() as int] == base_w[pixels.len() as int]);
        assert(!witness_complete(gates, witness));
    }
}

/// Circuit for a box blur
///
/// The circuit proves that each pixel of the blur interior is the rounded mean of
/// its 3x3 neighbourhood: `sum + 4 - 9 * blurred` lies in `[0, 15]`. The pixels
/// outside the interior are public, row by row.
pub fn blur_plan(
    pixels: &[u8],
    width: u32,
    height: u32,
    blur_x: u32,
    blur_y: u32,
    blur_width: u32,
    blur_height: u32,
    config: &ProofConfig,
) -> (plan: CircuitPlan)
    requires
        blur_plan_fits(pixels@.len() as int, width, height, blur_x, blur_y, blur_width, blur_height),
        width * height + 5 * interior_count(blur_width as int, blur_height as int) <= usize::MAX,
    ensures
        ({
            let n = (width * height) as int;
            let iw = blur_width - 2;
            let m = interior_count(blur_width as int, blur_height as int);
            &&& plan.zero_knowledge == config.use_zk
            &&& plan.gate_specs() == Seq::new(n as nat, |i: int| GateSpec::Input) + concat_blocks(
                m as nat,
                |k: int| blur_gates(n, k, width as int, blur_x + 1 + k % iw, blur_y + 1 + k / iw),
            )
            &&& plan.constraints@ == concat_blocks(
                m as nat,
                |k: int| seq![Constraint::RangeCheck { t: (n + 5 * k + 4) as usize, bits: 4 }],
            )
            &&& plan.public_inputs@ == concat_blocks(
                n as nat,
                |i: int|
                    if in_blur_interior(blur_x as int, blur_y as int, blur_width as int, blur_height as int,
                        i % width as int, i / width as int) {
                        Seq::empty()
                    } else {
                        seq![i as usize]
                    },
            )
            &&& plan.witness@ == Seq::new(n as nat, |i: int| if i < pixels@.len() { Some(pixels@[i] as u64) } else { None })
                + concat_blocks(
                m as nat,
                |k: int| seq![
                    None,
                    Some(((box_sum(pixels@, width as int, blur_x + 1 + k % iw, blur_y + 1 + k / iw) + 4) / 9) as u64),
                    None,
                    None,
                    None,
                ],
            )
            &&& public_values(plan.gate_specs(), plan.witness@, plan.public_inputs@) == concat_blocks(n as nat, |i: int|
                if in_blur_interior(blur_x as int, blur_y as int, blur_width as int, blur_height as int,
                    i % width as int, i / width as int) {
                    Seq::<int>::empty()
                } else {
                    seq![get_or_zero(pixels@, i) as int]
                })
            &&& satisfied(plan.gate_specs(), plan.witness@, plan.constraints@) <==> pixels@.len() == n
        }),
{
    let n = (width * height) as usize;
    let ghost (ni, wi, bxi, byi, bwi, bhi) = (n as int, width as int, blur_x as int, blur_y as int, blur_width as int, blur_height as int);
    let ghost iw = bwi - 2;
    let ghost fg = |k: int| blur_gates(ni, k, wi, bxi + 1 + k % iw, byi + 1 + k / iw);
    let ghost fc = |k: int| seq![Constraint::RangeCheck { t: (ni + 5 * k + 4) as usize, bits: 4 }];
    let ghost fw = |k: int| seq![
        None,
        Some(((box_sum(pixels@, wi, bxi + 1 + k % iw, byi + 1 + k / iw) + 4) / 9) as u64),
        None,
        None,
        None,
    ];
    let mut gates: Vec<Gate> = Vec::new();
    push_inputs(&mut gates, n);
    let mut witness: Vec<Option<u64>> = Vec::new();
    let mut i: usize = 0;
    while i < n
        invariant
            i <= n,
            witness@ =~= Seq::new(i as nat, |j: int| if j < pixels@.len() { Some(pixels@[j] as u64) } else { None }),
        decreases n - i,
    {
        if i < pixels.len() {
            witness.push(Some(pixels[i] as u64));
        } else {
            witness.push(None);
        }
        i = i + 1;
    }
    let ghost base_gates = gates_view(gates@);
    let ghost base_witness = witness@;
    let mut constraints: Vec<Constraint> = Vec::new();
    if blur_width >= 3 && blur_height >= 3 {
        let iw_exec = blur_width - 2;
        let ih_exec = blur_height - 2;
        let mut row: u32 = 0;
        while row < ih_exec
            invariant
                blur_plan_fits(pixels@.len() as int, width, height, blur_x, blur_y, blur_width, blur_height),
                width * height + 5 * interior_count(blur_width as int, blur_height as int) <= usize::MAX,
                blur_width >= 3 && blur_height >= 3,
                iw_exec == blur_width - 2,
                ih_exec == blur_height - 2,
                ni == n as int,
                n == width * height,
                wi == width as int,
                bxi == blur_x as int,
                byi == blur_y as int,
                bwi == blur_width as int,
                iw == iw_exec as int,
                row <= ih_exec,
                fg == (|k: int| blur_gates(ni, k, wi, bxi + 1 + k % iw, byi + 1 + k / iw)),
                fc == (|k: int| seq![Constraint::RangeCheck { t: (ni + 5 * k + 4) as usize, bits: 4 }]),
                fw == (|k: int| seq![
                    None,
                    Some(((box_sum(pixels@, wi, bxi + 1 + k % iw, byi + 1 + k / iw) + 4) / 9) as u64),
                    None,
                    None,
                    None,
                ]),
                gates_view(gates@) == base_gates + concat_blocks((row * iw_exec) as nat, fg),
                constraints@ == concat_blocks((row * iw_exec) as nat, fc),
                witness@ == base_witness + concat_blocks((row * iw_exec) as nat, fw),
            decreases ih_exec - row,
        {
            let mut col: u32 = 0;
            proof {
                assert((row + 1) * iw_exec <= iw_exec * ih_exec) by (nonlinear_arith)
                    requires
                        row < ih_exec,
                ;
            }
            while col < iw_exec
                invariant
                    blur_plan_fits(pixels@.len() as int, width, height, blur_x, blur_y, blur_width, blur_height),
                    width * height + 5 * interior_count(blur_width as int, blur_height as int) <= usize::MAX,
                    blur_width >= 3 && blur_height >= 3,
                    iw_exec == blur_width - 2,
                    ih_exec == blur_height - 2,
                    (row + 1) * iw_exec <= iw_exec * ih_exec,
                    ni == n as int,
                    n == width * height,
                    wi == width as int,
                    bxi == blur_x as int,
                    byi == blur_y as int,
                    bwi == blur_width as int,
                    iw == iw_exec as int,
                    row < ih_exec,
                    col <= iw_exec,
                    fg == (|k: int| blur_gates(ni, k, wi, bxi + 1 + k % iw, byi + 1 + k / iw)),
                    fc == (|k: int| seq![Constraint::RangeCheck { t: (ni + 5 * k + 4) as usize, bits: 4 }]),
                    fw == (|k: int| seq![
                        None,
                        Some(((box_sum(pixels@, wi, bxi + 1 + k % iw, byi + 1 + k / iw) + 4) / 9) as u64),
                        None,
                        None,
                        None,
                    ]),
                    gates_view(gates@) == base_gates + concat_blocks((row * iw_exec + col) as nat, fg),
                    constraints@ == concat_blocks((row * iw_exec + col) as nat, fc),
                    witness@ == base_witness + concat_blocks((row * iw_exec + col) as nat, fw),
                decreases iw_exec - col,
            {
                let ghost k = row * iw_exec + col;
                let x = blur_x + 1 + col;
                let y = blur_y + 1 + row;
                proof {
                    crate::image_io::lemma_pixel_index_split(iw, col as int, row as int);
                    lemma_concat_blocks_step(k as nat, fg);
                    lemma_concat_blocks_step(k as nat, fc);
                    lemma_concat_blocks_step(k as nat, fw);
                    assert(row * iw_exec + col < (row + 1) * iw_exec) by (nonlinear_arith)
                        requires
                            col < iw_exec,
                    ;
                    assert(interior_count(blur_width as int, blur_height as int) == iw_exec * ih_exec);
                    assert((y + 1) * width + (x + 1) <= (blur_y + blur_height - 1) * width + (blur_x + blur_width - 1)) by (nonlinear_arith)
                        requires
                            y + 1 <= blur_y + blur_height - 1,
                            x + 1 <= blur_x + blur_width - 1,
                    ;
                }
                let kk = (row as usize) * (iw_exec as usize) + col as usize;
                push_blur_gates(&mut gates, n, kk, width, x, y);
                constraints.push(Constraint::RangeCheck { t: n + 5 * kk + 4, bits: 4 });
                let blur_val = rounded_box_mean(pixels, width, x, y);
                let ghost old_witness = witness@;
                witness.push(None);
                witness.push(Some(blur_val as u64));
                witness.push(None);
                witness.push(None);
                witness.push(None);
                proof {
                    assert(k % iw == col && k / iw == row);
                    assert(gates_view(gates@) =~= base_gates + concat_blocks(k as nat, fg) + fg(k));
                    assert(constraints@ =~= concat_blocks(k as nat, fc) + fc(k));
                    assert(witness@ =~= base_witness + concat_blocks(k as nat, fw) + fw(k));
                }
                col = col + 1;
            }
            proof {
                assert(row * iw_exec + iw_exec == (row + 1) * iw_exec) by (nonlinear_arith);
            }
            row = row + 1;
        }
        proof {
            assert(ih_exec * iw_exec == iw_exec * ih_exec) by (nonlinear_arith);
        }
    }
    let ghost fp = |i: int|
        if in_blur_interior(bxi, byi, bwi, blur_height as int, i % wi, i / wi) {
            Seq::<usize>::empty()
        } else {
            seq![i as usize]
        };
    let mut public_inputs: Vec<usize> = Vec::new();
    let mut y: u32 = 0;
    while y < height
        invariant
            blur_plan_fits(pixels@.len() as int, width, height, blur_x, blur_y, blur_width, blur_height),
            n == width * height,
            wi == width as int,
            bxi == blur_x as int,
            byi == blur_y as int,
            bwi == blur_width as int,
            y <= height,
            fp == (|i: int|
                if in_blur_interior(bxi, byi, bwi, blur_height as int, i % wi, i / wi) {
                    Seq::<usize>::empty()
                } else {
                    seq![i as usize]
                }),
            public_inputs@ == concat_blocks((y * width) as nat, fp),
        decreases height - y,
    {
        let mut x: u32 = 0;
        while x < width
            invariant
                blur_plan_fits(pixels@.len() as int, width, height, blur_x, blur_y, blur_width, blur_height),
                n == width * height,
                wi == width as int,
                bxi == blur_x as int,
                byi == blur_y as int,
                bwi == blur_width as int,
                y < height,
                x <= width,
                fp == (|i: int|
                    if in_blur_interior(bxi, byi, bwi, blur_height as int, i % wi, i / wi) {
                        Seq::<usize>::empty()
                    } else {
                        seq![i as usize]
                    }),
                public_inputs@ == concat_blocks((y * width + x) as nat, fp),
            decreases width - x,
        {
            let ghost i = y * width + x;
            proof {
                crate::image_io::lemma_pixel_index_split(wi, x as int, y as int);
                crate::image_io::lemma_pixel_index_bounds(wi, height as int, x as int, y as int);
                lemma_concat_blocks_step(i as nat, fp);
            }
            let in_blur_region = x > blur_x && x < blur_x + blur_width - 1 && y > blur_y && y < blur_y + blur_height - 1;
            if !in_blur_region {
                public_inputs.push((y * width + x) as usize);
            }
            proof {
                assert(i % wi == x && i / wi == y);
                assert(public_inputs@ =~= concat_blocks(i as nat, fp) + fp(i));
            }
            x = x + 1;
        }
        proof {
            assert(y * width + width == (y + 1) * width) by (nonlinear_arith);
        }
        y = y + 1;
    }
    proof {
        assert(height * width == width * height) by (nonlinear_arith);
        assert(gates_view(gates@) =~= Seq::new(n as nat, |i: int| GateSpec::Input) + concat_blocks(
            interior_count(bwi, blur_height as int) as nat, fg));
        lemma_blur_plan_values(pixels@, width, height, blur_x, blur_y, blur_width, blur_height, base_gates, base_witness,
            fg, fc, fw, fp);
    }
    CircuitPlan { zero_knowledge: config.use_zk, gates, constraints, public_inputs, witness }
}


/// The proof output of a proved circuit: the bincode encoding of the proof bytes,
/// and the proof's public inputs.
pub fn proof_output(artifacts: ProofArtifacts, proving_time_ms: u64) -> (out: ProofOutput)
    ensures
        out.proof_data@ == bincode_of_bytes(artifacts.proof_bytes@),
        out.public_inputs == artifacts.public_inputs,
        out.proving_time_ms == proving_time_ms,
        out.peak_memory_bytes is None,
{
    let proof_data = match serialize_bytes(&artifacts.proof_bytes) {
        Some(bytes) => bytes,
        None => Vec::new(),
    };
    ProofOutput { proof_data, public_inputs: artifacts.public_inputs, proving_time_ms, peak_memory_bytes: None }
}

} // verus!
