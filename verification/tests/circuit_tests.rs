use veritas::circuit::{CircuitPlan, Constraint, Gate};
use veritas::proofs::{blur_plan, crop_plan, grayscale_plan, proof_output, resize_plan, PlanError, ProofConfig};
use veritas::prover::{blur_edit_plan, crop_edit_plan, grayscale_edit_plan, resize_edit_plan, ProverError, ProverConfig};
use veritas::circuit::ProofArtifacts;

fn inputs(plan: &CircuitPlan) -> usize {
    plan.gates.iter().filter(|g| matches!(g, Gate::Input)).count()
}

fn values(plan: &CircuitPlan) -> Vec<u64> {
    plan.witness.iter().filter_map(|w| *w).collect()
}

#[test]
fn grayscale_edit_circuit_shape_and_witness() {
    let plan = grayscale_edit_plan(&[100, 0], &[150, 0], &[200, 1], &ProverConfig::default()).unwrap();
    assert!(plan.zero_knowledge);
    assert_eq!(plan.gates.len(), 22);
    assert_eq!(inputs(&plan), 10);
    assert_eq!(plan.public_inputs, vec![3, 14]);
    assert!(matches!(plan.gates[5], Gate::MulConst { c: 30, t: 0 }));
    match &plan.gates[9] {
        Gate::AddMany { terms } => assert_eq!(terms, &vec![5, 6, 7, 4]),
        _ => panic!("expected a sum"),
    }
    assert!(matches!(plan.gates[10], Gate::AddConst { t: 4, c: 49 }));
    assert_eq!(plan.constraints[0], Constraint::Connect { a: 9, b: 8 });
    assert_eq!(plan.constraints[4], Constraint::RangeCheck { t: 3, bits: 8 });
    assert_eq!(plan.constraints[5], Constraint::RangeCheck { t: 10, bits: 7 });
    // 14050 -> gray 141, remainder 50; 11 -> gray 0, remainder -11 as the field element p - 11
    let p: u64 = 0xFFFF_FFFF_0000_0001;
    assert_eq!(values(&plan), vec![100, 150, 200, 141, 50, 0, 0, 1, 0, p - 11]);
    assert_eq!(plan.witness.len(), 22);
}

#[test]
fn grayscale_edit_circuit_refuses_unequal_channels() {
    let e = grayscale_edit_plan(&[1, 2], &[1], &[1, 2], &ProverConfig::default()).err();
    assert_eq!(e, Some(ProverError::ChannelLengthMismatch));
    assert_eq!(ProverError::ChannelLengthMismatch.message(), "Pixel arrays must have equal length");
    assert_eq!(ProverError::Serialization.message(), "Failed to serialize the lattice hash");
    assert_eq!(PlanError::ChannelLengthMismatch.message(), "Pixel arrays must have equal length");
}

#[test]
fn grayscale_circuit_proves_gray_values() {
    let config = ProofConfig { use_zk: false, ..ProofConfig::default() };
    let plan = grayscale_plan(&[1, 2], &[3, 4], &[5, 6], &config).unwrap();
    assert!(!plan.zero_knowledge);
    assert_eq!(plan.gates.len(), 22);
    assert_eq!(plan.public_inputs, vec![3, 14]);
    assert_eq!(plan.constraints.len(), 12);
    // 262 -> gray 3, remainder 38; 362 -> gray 4, remainder 38
    assert_eq!(values(&plan), vec![1, 3, 5, 3, 38, 2, 4, 6, 4, 38]);
    assert!(grayscale_plan(&[1], &[], &[1], &config).is_err());
}

#[test]
fn proof_config_default() {
    let c = ProofConfig::default();
    assert_eq!((c.pixel_count, c.pixel_bits, c.use_zk, c.rate_bits, c.cap_height), (1000, 8, true, 2, 4));
}

#[test]
fn crop_circuit_publishes_region_pixels() {
    let pixels: Vec<u8> = (10..22).collect(); // 4 x 3
    let plan = crop_plan(&pixels, 4, 3, 1, 1, 2, 2, &ProofConfig::default());
    assert_eq!(values(&plan), vec![15, 16, 19, 20]);
    assert_eq!(plan.public_inputs, vec![0, 1, 2, 3]);
    assert_eq!(inputs(&plan), 4);
}

#[test]
fn crop_circuit_skips_pixels_past_the_end() {
    let plan = crop_plan(&[1, 2, 3], 2, 2, 0, 1, 2, 1, &ProofConfig::default());
    assert_eq!(values(&plan), vec![3]);
}

#[test]
fn crop_edit_circuit_publishes_rgb_wires() {
    let plan = crop_edit_plan(&[1, 2, 3, 4], &[5, 6, 7, 8], &[9, 10], 2, 2, 1, 0, 1, 2, &ProverConfig::default());
    assert_eq!(plan.gates.len(), 12);
    assert_eq!(plan.public_inputs, vec![3, 4, 5, 9, 10, 11]);
    assert_eq!(values(&plan), vec![1, 5, 9, 2, 6, 10, 3, 7, 0, 4, 8, 0]);
}

#[test]
fn resize_edit_circuit_interpolates_red_channel() {
    let plan = resize_edit_plan(&[0, 100], &[], &[], 2, 1, 3, 1, &ProverConfig::default());
    assert_eq!(plan.gates.len(), 15);
    assert_eq!(plan.public_inputs, vec![4, 9, 14]);
    assert_eq!(values(&plan), vec![0, 100, 0, 100, 0, 0, 100, 0, 100, 50, 100, 100, 100, 100, 100]);
}

#[test]
fn resize_circuit_uses_integer_weights() {
    let plan = resize_plan(&[0, 100], 2, 1, 3, 1, &ProofConfig::default());
    assert_eq!(plan.gates.len(), 42);
    assert_eq!(plan.public_inputs, vec![4, 18, 32]);
    // scale (3 - 1) * 1 = 2; output column 1 sits halfway: weights 1, 1, 0, 0
    assert!(matches!(plan.gates[14 + 5], Gate::MulConst { c: 1, t: 14 }));
    assert!(matches!(plan.gates[14 + 6], Gate::MulConst { c: 1, t: 15 }));
    assert!(matches!(plan.gates[14 + 11], Gate::AddConst { t: 24, c: 2 }));
    assert!(matches!(plan.gates[14 + 12], Gate::MulConst { c: 4, t: 18 }));
    assert_eq!(plan.witness[18], Some(50));
    // the rounding residual lies in [0, 4): 2 bits
    assert_eq!(plan.constraints[1], Constraint::RangeCheck { t: 27, bits: 2 });
    let plan = resize_plan(&[0, 100, 50, 150], 2, 2, 3, 3, &ProofConfig::default());
    // output (1, 1): source fraction 1/2 in both directions, weights 1 each of 2 * 2
    assert!(matches!(plan.gates[4 * 14 + 5], Gate::MulConst { c: 1, t: 56 }));
    assert!(matches!(plan.gates[4 * 14 + 8], Gate::MulConst { c: 1, t: 59 }));
    assert_eq!(plan.constraints[4], Constraint::RangeCheck { t: 4 * 14 + 13, bits: 3 });
}

#[test]
fn blur_circuit_checks_interior_and_publishes_rest() {
    let pixels = vec![0, 0, 0, 0, 90, 0, 0, 0, 0];
    let plan = blur_plan(&pixels, 3, 3, 0, 0, 3, 3, &ProofConfig::default());
    assert_eq!(plan.gates.len(), 14);
    assert_eq!(plan.public_inputs, vec![0, 1, 2, 3, 5, 6, 7, 8]);
    assert_eq!(plan.constraints, vec![Constraint::RangeCheck { t: 13, bits: 4 }]);
    assert_eq!(plan.witness[10], Some(10));
    match &plan.gates[9] {
        Gate::AddMany { terms } => assert_eq!(terms, &vec![0, 1, 2, 3, 4, 5, 6, 7, 8]),
        _ => panic!("expected a sum"),
    }
}

#[test]
fn blur_edit_circuit_clamps_neighbourhood() {
    let plan = blur_edit_plan(&[9, 0, 0, 0], &[], &[], 2, 2, 0, 0, 1, 1, &ProverConfig::default());
    assert_eq!(plan.gates.len(), 9);
    assert!(matches!(plan.gates[8], Gate::AddConst { t: 7, c: 4 }));
    match &plan.gates[4] {
        Gate::AddMany { terms } => assert_eq!(terms, &vec![0, 0, 1, 0, 0, 1, 2, 2, 3]),
        _ => panic!("expected a sum"),
    }
    // four copies of the corner value 9: (36 + 4) / 9 = 4
    assert_eq!(plan.witness[5], Some(4));
    assert_eq!(plan.public_inputs, vec![5]);
    assert_eq!(plan.constraints, vec![Constraint::RangeCheck { t: 8, bits: 4 }]);
}

#[test]
fn proof_output_encodes_proof_bytes() {
    let art = ProofArtifacts { proof_bytes: vec![1, 2, 3], public_inputs: vec![4], verifier_data: vec![], common_data: vec![] };
    let out = proof_output(art, 12);
    assert_eq!(out.proof_data, bincode::serialize(&vec![1u8, 2, 3]).unwrap());
    assert_eq!(out.public_inputs, vec![4]);
    assert_eq!(out.proving_time_ms, 12);
}
