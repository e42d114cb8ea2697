use veritas::circuit::{CircuitPlan, Constraint, Gate};
use veritas::image_io::{blur_pixels, crop_pixels, grayscale_pixels, resize_pixels, PixelVectors};
use veritas::proofs::{blur_plan, crop_plan, grayscale_plan, resize_plan, ProofConfig};
use veritas::prover::{blur_edit_plan, crop_edit_plan, grayscale_edit_plan, resize_edit_plan, ProverConfig};

const P: u128 = 0xFFFF_FFFF_0000_0001;

/// Wire values of a plan under its witness (unset inputs read as 0), in the
/// Goldilocks field.
fn wire_values(plan: &CircuitPlan) -> Vec<u128> {
    let mut v: Vec<u128> = Vec::new();
    for (i, g) in plan.gates.iter().enumerate() {
        let x = match g {
            Gate::Input => plan.witness.get(i).copied().flatten().unwrap_or(0) as u128 % P,
            Gate::MulConst { c, t } => (*c as u128 * v[*t]) % P,
            Gate::AddMany { terms } => terms.iter().fold(0u128, |acc, &t| (acc + v[t]) % P),
            Gate::AddConst { t, c } => (v[*t] + *c as u128) % P,
            Gate::Sub { a, b } => (v[*a] + P - v[*b]) % P,
        };
        v.push(x);
    }
    v
}

/// Whether the witness sets every input and meets every constraint.
fn satisfied(plan: &CircuitPlan) -> bool {
    let v = wire_values(plan);
    let complete = plan.witness.len() == plan.gates.len()
        && plan.gates.iter().enumerate().all(|(i, g)| !matches!(g, Gate::Input) || plan.witness[i].is_some());
    complete
        && plan.constraints.iter().all(|c| match c {
            Constraint::Connect { a, b } => v[*a] == v[*b],
            Constraint::RangeCheck { t, bits } => v[*t] < (1u128 << bits),
        })
}

fn public_values(plan: &CircuitPlan) -> Vec<u128> {
    let v = wire_values(plan);
    plan.public_inputs.iter().map(|&p| v[p]).collect()
}

#[test]
fn grayscale_edit_circuit_outputs_gray_values() {
    let plan = grayscale_edit_plan(&[100, 255, 0], &[150, 255, 0], &[200, 255, 0], &ProverConfig::default()).unwrap();
    assert_eq!(public_values(&plan), vec![141, 255, 0]);
    assert!(satisfied(&plan));
}

#[test]
fn grayscale_edit_circuit_satisfied_when_rounded_down() {
    // 30 * 1 + 59 * 0 + 11 * 0 = 30 rounds down to gray 0: remainder -30
    let plan = grayscale_edit_plan(&[1, 0], &[0, 0], &[0, 1], &ProverConfig::default()).unwrap();
    assert_eq!(public_values(&plan), vec![0, 0]);
    assert!(satisfied(&plan));
}

#[test]
fn grayscale_circuit_outputs_gray_values() {
    let plan = grayscale_plan(&[100, 1], &[150, 2], &[200, 3], &ProofConfig::default()).unwrap();
    assert_eq!(public_values(&plan), vec![141, 2]);
    assert!(satisfied(&plan));
}

#[test]
fn crop_circuits_output_region_pixels() {
    let pixels: Vec<u8> = (10..26).collect();
    let plan = crop_plan(&pixels, 4, 4, 1, 1, 2, 2, &ProofConfig::default());
    assert_eq!(public_values(&plan), vec![15, 16, 19, 20]);
    assert!(satisfied(&plan));
    let edit = crop_edit_plan(&[1, 2, 3, 4], &[5, 6, 7, 8], &[9, 10, 11, 12], 2, 2, 1, 0, 1, 2, &ProverConfig::default());
    assert_eq!(public_values(&edit), vec![2, 6, 10, 4, 8, 12]);
    assert!(satisfied(&edit));
}

#[test]
fn resize_edit_circuit_outputs_resized_channel() {
    let r = vec![0, 100, 200, 40];
    let plan = resize_edit_plan(&r, &[], &[], 2, 2, 3, 3, &ProverConfig::default());
    let pv = PixelVectors { r: r.clone(), g: r.clone(), b: r.clone(), width: 2, height: 2 };
    let resized = resize_pixels(&pv, 3, 3);
    let expected: Vec<u128> = resized.r.iter().map(|&x| x as u128).collect();
    assert_eq!(public_values(&plan), expected);
    assert!(satisfied(&plan));
}

#[test]
fn resize_circuit_outputs_resized_pixels() {
    // 2x1 resized to 3x2: the middle pixel is 50
    let plan = resize_plan(&[0, 100], 2, 1, 3, 2, &ProofConfig::default());
    let resized = resize_pixels(&PixelVectors { r: vec![0, 100], g: vec![0, 100], b: vec![0, 100], width: 2, height: 1 }, 3, 2);
    let expected: Vec<u128> = resized.r.iter().map(|&v| v as u128).collect();
    assert_eq!(public_values(&plan), expected);
    assert_eq!(public_values(&plan)[1], 50);
    assert!(satisfied(&plan));
}

#[test]
fn blur_circuit_publishes_border_and_is_satisfied() {
    let pixels = vec![0, 0, 0, 0, 90, 0, 0, 0, 0];
    let plan = blur_plan(&pixels, 3, 3, 0, 0, 3, 3, &ProofConfig::default());
    assert_eq!(public_values(&plan), vec![0, 0, 0, 0, 0, 0, 0, 0]);
    assert!(satisfied(&plan));
    let short = blur_plan(&pixels[..8], 3, 3, 0, 0, 2, 2, &ProofConfig::default());
    assert!(!satisfied(&short));
}

#[test]
fn blur_edit_circuit_satisfied_for_every_rounding() {
    // clamped sum 36: output (36 + 4) / 9 = 4
    let plan = blur_edit_plan(&[9, 0, 0, 0], &[], &[], 2, 2, 0, 0, 1, 1, &ProverConfig::default());
    assert_eq!(public_values(&plan), vec![4]);
    assert!(satisfied(&plan));
    // clamped sum 4 * 2 = 8: output (8 + 4) / 9 = 1 is rounded up
    let plan = blur_edit_plan(&[2, 0, 0, 0], &[], &[], 2, 2, 0, 0, 1, 1, &ProverConfig::default());
    assert_eq!(public_values(&plan), vec![1]);
    assert!(satisfied(&plan));
    // 2x1 image [1, 0]: pixel (0, 0) sums 6 * 1 = 6, output 1
    let plan = blur_edit_plan(&[1, 0], &[], &[], 2, 1, 0, 0, 2, 1, &ProverConfig::default());
    assert_eq!(public_values(&plan), vec![1, 0]);
    assert!(satisfied(&plan));
    // a missing pixel input leaves the circuit unsatisfied
    let plan = blur_edit_plan(&[9, 0, 0], &[], &[], 2, 2, 0, 0, 1, 1, &ProverConfig::default());
    assert!(!satisfied(&plan));
}

fn channels(r: Vec<u8>, g: Vec<u8>, b: Vec<u8>, width: u32, height: u32) -> PixelVectors {
    PixelVectors { r, g, b, width, height }
}

#[test]
fn crop_circuit_matches_cropped_image() {
    let r: Vec<u8> = (0..20).collect();
    let pv = channels(r.clone(), r.clone(), r.clone(), 5, 4);
    let cropped = crop_pixels(&pv, 1, 1, 3, 2).unwrap();
    let plan = crop_plan(&r, 5, 4, 1, 1, 3, 2, &ProofConfig::default());
    let expected: Vec<u128> = cropped.r.iter().map(|&v| v as u128).collect();
    assert_eq!(public_values(&plan), expected);
}

#[test]
fn grayscale_circuit_publishes_gray_image() {
    let (r, g, b) = (vec![100, 0, 255, 7], vec![150, 0, 255, 9], vec![200, 1, 255, 250]);
    let gray = grayscale_pixels(&channels(r.clone(), g.clone(), b.clone(), 2, 2));
    let plan = grayscale_plan(&r, &g, &b, &ProofConfig::default()).unwrap();
    let expected: Vec<u128> = gray.r.iter().map(|&v| v as u128).collect();
    assert_eq!(public_values(&plan), expected);
}

#[test]
fn blur_circuit_publishes_pixels_left_by_blur() {
    let r: Vec<u8> = (0..16).map(|v| v * 10).collect();
    let blurred = blur_pixels(&channels(r.clone(), r.clone(), r.clone(), 4, 4), 0, 0, 4, 4).unwrap();
    let plan = blur_plan(&r, 4, 4, 0, 0, 4, 4, &ProofConfig::default());
    // the interior of a 4 x 4 region is pixels 5, 6, 9 and 10
    let expected: Vec<u128> = blurred
        .r
        .iter()
        .enumerate()
        .filter(|(i, _)| ![5, 6, 9, 10].contains(i))
        .map(|(_, &v)| v as u128)
        .collect();
    assert_eq!(public_values(&plan), expected);
    assert!(satisfied(&plan));
}

#[test]
fn resize_circuit_publishes_resized_image() {
    let r = vec![0, 100, 200, 40];
    let resized = resize_pixels(&channels(r.clone(), r.clone(), r.clone(), 2, 2), 3, 3);
    let plan = resize_plan(&r, 2, 2, 3, 3, &ProofConfig::default());
    let expected: Vec<u128> = resized.r.iter().map(|&v| v as u128).collect();
    assert_eq!(public_values(&plan), expected);
    assert!(satisfied(&plan));
}

#[test]
fn crop_edit_circuit_matches_cropped_image() {
    let r: Vec<u8> = (0..12).collect();
    let g: Vec<u8> = (100..112).collect();
    let b: Vec<u8> = (200..212).collect();
    let cropped = crop_pixels(&channels(r.clone(), g.clone(), b.clone(), 4, 3), 1, 1, 2, 2).unwrap();
    let plan = crop_edit_plan(&r, &g, &b, 4, 3, 1, 1, 2, 2, &ProverConfig::default());
    let mut expected: Vec<u128> = Vec::new();
    for k in 0..cropped.r.len() {
        expected.extend([cropped.r[k] as u128, cropped.g[k] as u128, cropped.b[k] as u128]);
    }
    assert_eq!(public_values(&plan), expected);
    assert!(satisfied(&plan));
}
