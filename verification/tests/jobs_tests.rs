use base64::Engine;
use veritas::api::{apply_edit, edit_accepted, edit_job_result, handle_verify_request, job_created_response,
    job_type_for, record_outcome, start_edit_job, EditRequest, RequestError, VerifyRequest};
use veritas::image_io::ImageError;
use veritas::image_io::{image_to_png_bytes, pixel_vectors_to_image, PixelVectors};
use veritas::jobs::{EditParams, Job, JobResult, JobStatus, JobType};
use veritas::proofs::ProofOutput;

fn b64(bytes: &[u8]) -> String {
    base64::engine::general_purpose::STANDARD.encode(bytes)
}

fn small_image() -> PixelVectors {
    PixelVectors { r: vec![1, 2, 3, 4], g: vec![5, 6, 7, 8], b: vec![9, 10, 11, 12], width: 2, height: 2 }
}

fn empty_result() -> JobResult {
    JobResult {
        edited_image: None,
        proof: None,
        proof_size: None,
        proving_time_ms: None,
        verification_time_ms: None,
        verified: None,
        technical_details: None,
    }
}

#[test]
fn new_job_is_pending() {
    let job = Job::new(JobType::Crop);
    assert_eq!(job.status, JobStatus::Pending);
    assert_eq!(job.progress, 0);
    assert_eq!(job.message.as_deref(), Some("Job created"));
    assert_eq!(job.created_at, job.updated_at);
    assert_eq!(job.id.len(), 36);
    let chars: Vec<char> = job.id.chars().collect();
    assert_eq!((chars[8], chars[13], chars[18], chars[23], chars[14]), ('-', '-', '-', '-', '4'));
    assert_ne!(Job::new(JobType::Crop).id, job.id);
}

#[test]
fn job_lifecycle_keeps_identity() {
    let mut job = Job::new(JobType::Blur);
    let id = job.id.clone();
    job.set_processing("working");
    assert_eq!(job.status, JobStatus::Processing);
    job.set_progress(10, "Processing image...");
    assert_eq!(job.progress, 10);
    assert_eq!(job.message.as_deref(), Some("Processing image..."));
    job.set_completed(empty_result());
    assert_eq!(job.status, JobStatus::Completed);
    assert_eq!(job.progress, 100);
    assert_eq!(job.message.as_deref(), Some("Completed successfully"));
    assert!(job.result.is_some());
    assert_eq!(job.id, id);
    assert_eq!(job.job_type, JobType::Blur);
}

#[test]
fn failed_job_records_error() {
    let mut job = Job::new(JobType::Resize);
    job.set_failed("boom");
    assert_eq!(job.status, JobStatus::Failed);
    assert_eq!(job.message.as_deref(), Some("Job failed"));
    assert_eq!(job.error.as_deref(), Some("boom"));
}

#[test]
fn job_type_follows_edit() {
    assert_eq!(job_type_for(&EditParams::Crop { x: 0, y: 0, width: 1, height: 1 }), JobType::Crop);
    assert_eq!(job_type_for(&EditParams::Blur { x: 0, y: 0, width: 1, height: 1 }), JobType::Blur);
    assert_eq!(job_type_for(&EditParams::Resize { new_width: 1, new_height: 1 }), JobType::Resize);
    assert_eq!(job_type_for(&EditParams::Grayscale), JobType::Grayscale);
}

#[test]
fn edit_job_starts_from_base64_png() {
    let png = image_to_png_bytes(&pixel_vectors_to_image(&small_image()).unwrap()).unwrap();
    let request = EditRequest { image: b64(&png), edit: EditParams::Grayscale };
    let (job, pixels) = start_edit_job(&request).unwrap();
    assert_eq!(job.job_type, JobType::Grayscale);
    assert_eq!(job.status, JobStatus::Processing);
    assert_eq!(job.message.as_deref(), Some("Starting proof generation..."));
    assert_eq!((pixels.width, pixels.height), (2, 2));
    assert_eq!(pixels.r, vec![1, 2, 3, 4]);
    let response = job_created_response(&job);
    assert_eq!(response.job_id, job.id);
    assert_eq!(response.status, "processing");
}

#[test]
fn edit_job_refuses_bad_input() {
    let request = EditRequest { image: "***".to_string(), edit: EditParams::Grayscale };
    let decoder_text = base64::engine::general_purpose::STANDARD.decode("***").unwrap_err().to_string();
    let e = start_edit_job(&request).err().unwrap();
    assert_eq!(e, RequestError::InvalidBase64(decoder_text.clone()));
    assert_eq!(e.edit_message(), format!("Invalid base64 image: {}", decoder_text));
    let request = EditRequest { image: b64(b"hello"), edit: EditParams::Grayscale };
    let e = start_edit_job(&request).err().unwrap();
    assert_eq!(e, RequestError::ImageLoad);
    assert_eq!(
        e.edit_message(),
        "Failed to load image: Failed to load image. Supported formats: PNG, JPEG, WebP, GIF. HEIC/HEIF is NOT supported."
    );
}

#[test]
fn job_result_encodes_image_and_proof() {
    let edited = small_image();
    let out = ProofOutput { proof_data: vec![1, 2, 3], public_inputs: vec![], proving_time_ms: 8, peak_memory_bytes: None };
    let result = edit_job_result(&edited, &out, "crop").unwrap();
    let png = image_to_png_bytes(&pixel_vectors_to_image(&edited).unwrap()).unwrap();
    assert_eq!(result.edited_image, Some(b64(&png)));
    assert_eq!(result.proof.as_deref(), Some("AQID"));
    assert_eq!(result.proof_size, Some(3));
    assert_eq!(result.proving_time_ms, Some(8));
    let td = result.technical_details.unwrap();
    assert_eq!(td.image_pixels, 4);
    assert_eq!(td.hash_type, "Poseidon");
    assert_eq!(td.proof_system, "Plonky2 (PLONK + FRI)");
    assert_eq!((td.field_size_bits, td.security_bits), (64, 100));
}

#[test]
fn verify_request_decodes_proof() {
    let request = VerifyRequest { proof: b64(&[0u8; 1001]), public_inputs: vec![], edit_type: "crop".to_string() };
    assert!(handle_verify_request(&request).unwrap().valid);
    assert!(handle_verify_request(&request).unwrap().error.is_none());
    let request = VerifyRequest { proof: b64(&[0u8; 5]), public_inputs: vec![], edit_type: "crop".to_string() };
    let result = handle_verify_request(&request).unwrap();
    assert!(!result.valid);
    assert_eq!(result.error.as_deref(), Some("Proof too small: 5 bytes (expected > 1000)"));
    let request = VerifyRequest { proof: "%%".to_string(), public_inputs: vec![], edit_type: "crop".to_string() };
    let decoder_text = base64::engine::general_purpose::STANDARD.decode("%%").unwrap_err().to_string();
    let e = handle_verify_request(&request).err().unwrap();
    assert_eq!(e, RequestError::InvalidBase64(decoder_text.clone()));
    assert_eq!(e.verify_message(), format!("Invalid base64 proof: {}", decoder_text));
}

#[test]
fn edit_step_applies_the_edit() {
    let p = small_image();
    let crop = EditParams::Crop { x: 1, y: 0, width: 1, height: 2 };
    assert!(edit_accepted(&p, &crop));
    let out = apply_edit(&p, &crop).unwrap();
    assert_eq!((out.width, out.height, out.r.clone()), (1, 2, vec![2, 4]));
    let outside = EditParams::Crop { x: 2, y: 0, width: 1, height: 1 };
    assert!(matches!(apply_edit(&p, &outside), Err(ImageError::CropOutOfBounds { .. })));
    assert!(!edit_accepted(&p, &EditParams::Crop { x: u32::MAX, y: 0, width: 1, height: 1 }));
    assert!(!edit_accepted(&p, &EditParams::Blur { x: 0, y: 0, width: 1, height: 0 }));
    assert!(!edit_accepted(&p, &EditParams::Resize { new_width: 65536, new_height: 65536 }));
    let gray = apply_edit(&p, &EditParams::Grayscale).unwrap();
    assert_eq!(gray.r, gray.g);
    let resized = apply_edit(&p, &EditParams::Resize { new_width: 1, new_height: 1 }).unwrap();
    assert_eq!(resized.r, vec![1]);
    let bad = PixelVectors { r: vec![1], g: vec![], b: vec![], width: 1, height: 1 };
    assert!(!edit_accepted(&bad, &EditParams::Grayscale));
}

#[test]
fn edit_step_records_outcome() {
    let mut job = Job::new(JobType::Blur);
    let id = job.id.clone();
    record_outcome(&mut job, Ok(empty_result()));
    assert_eq!((job.status, job.progress, job.id.clone()), (JobStatus::Completed, 100, id.clone()));
    let mut job = Job::new(JobType::Blur);
    record_outcome(&mut job, Err("boom".to_string()));
    assert_eq!(job.status, JobStatus::Failed);
    assert_eq!(job.error.as_deref(), Some("boom"));
}
