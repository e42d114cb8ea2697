//! Request handling of the HTTP API, without the transport: decoding requests,
//! starting edit jobs, assembling job results and answering verification requests.

use vstd::prelude::*;
use vstd::string::*;
use crate::jobs::{EditParams, Job, JobType, JobStatus, JobResult, TechnicalDetails, is_uuid_v4_text, same_job};
use crate::image_io::{crop_pixels, blur_pixels, resize_pixels, grayscale_pixels, crop_channel, blur_channel, resize_channel, gray_channel};
use crate::image_io::{PixelVectors, ImageError, image_error_text, load_image_from_bytes, image_to_pixel_vectors,
    pixel_vectors_to_image, image_to_png_bytes, decoded_rgb8, interleave, png_encoding};
use crate::encoding::{base64_decode, base64_encode, bytes_from_base64, base64_of, base64_error_text};
use crate::proofs::{ProofOutput, get_proof_stats, MIN_PROOF_SIZE, too_small_message};

verus! {

/// Request body for edit operation
pub struct EditRequest {
    /// Base64-encoded image data
    pub image: String,
    /// Edit operation type and parameters
    pub edit: EditParams,
}

/// Response for job creation
pub struct JobCreatedResponse {
    pub job_id: String,
    pub status: String,
    pub message: String,
}

/// Request body for verification
pub struct VerifyRequest {
    pub proof: String,
    pub public_inputs: Vec<u64>,
    pub edit_type: String,
}

/// Errors answered to a request.
#[derive(Debug, PartialEq, Eq)]
pub enum RequestError {
    /// The image or proof is not valid base64; the base64 decoder's error text.
    InvalidBase64(String),
    /// The bytes are no image in a supported format.
    ImageLoad,
    /// The image has more pixels than fit in `u32`.
    ImageTooLarge,
}

/// The message with which an edit request is refused.
pub open spec fn edit_request_error_text(e: RequestError) -> Seq<char> {
    match e {
        RequestError::InvalidBase64(m) => "Invalid base64 image: "@ + m@,
        RequestError::ImageLoad => "Failed to load image: "@ + image_error_text(ImageError::Decode),
        RequestError::ImageTooLarge => "Failed to load image: too many pixels"@,
    }
}

/// The message with which a verify request is refused.
pub open spec fn verify_request_error_text(e: RequestError) -> Seq<char> {
    match e {
        RequestError::InvalidBase64(m) => "Invalid base64 proof: "@ + m@,
        _ => edit_request_error_text(e),
    }
}

impl RequestError {
    /// The message with which an edit request is refused.
    pub fn edit_message(&self) -> (m: String)
        ensures
            m@ == edit_request_error_text(*self),
    {
        match self {
            RequestError::InvalidBase64(text) => String::from_str("Invalid base64 image: ").concat(text.as_str()),
            RequestError::ImageLoad => String::from_str("Failed to load image: ").concat(ImageError::Decode.message().as_str()),
            RequestError::ImageTooLarge => String::from_str("Failed to load image: too many pixels"),
        }
    }

    /// The message with which a verify request is refused.
    pub fn verify_message(&self) -> (m: String)
        ensures
            m@ == verify_request_error_text(*self),
    {
        match self {
            RequestError::InvalidBase64(text) => String::from_str("Invalid base64 proof: ").concat(text.as_str()),
            _ => self.edit_message(),
        }
    }
}

/// The job type of an edit.
pub open spec fn job_type_of(edit: EditParams) -> JobType {
    match edit {
        EditParams::Crop { .. } => JobType::Crop,
        EditParams::Blur { .. } => JobType::Blur,
        EditParams::Resize { .. } => JobType::Resize,
        EditParams::Grayscale => JobType::Grayscale,
    }
}

/// An edit job is filed under the type of its edit, and never as a signing or a
/// verification job.
pub proof fn lemma_job_type_names_edit(edit: EditParams)
    ensures
        edit is Crop <==> job_type_of(edit) == JobType::Crop,
        edit is Blur <==> job_type_of(edit) == JobType::Blur,
        edit is Resize <==> job_type_of(edit) == JobType::Resize,
        edit is Grayscale <==> job_type_of(edit) == JobType::Grayscale,
        job_type_of(edit) != JobType::Sign,
        job_type_of(edit) != JobType::Verify,
{
}

/// Determine job type from edit params
pub fn job_type_for(edit: &EditParams) -> (t: JobType)
    ensures
        t == job_type_of(*edit),
        *edit is Crop ==> t == JobType::Crop,
        *edit is Blur ==> t == JobType::Blur,
        *edit is Resize ==> t == JobType::Resize,
        *edit is Grayscale ==> t == JobType::Grayscale,
{
    match edit {
        EditParams::Crop { .. } => JobType::Crop,
        EditParams::Blur { .. } => JobType::Blur,
        EditParams::Resize { .. } => JobType::Resize,
        EditParams::Grayscale => JobType::Grayscale,
    }
}

/// The edit parameters are within what the edit functions take: their
/// coordinate sums fit in `u32`, and a non-empty resize has a non-empty source.
pub open spec fn edit_in_range(pixels: PixelVectors, edit: EditParams) -> bool {
    match edit {
        EditParams::Crop { x, y, width, height } => x + width <= u32::MAX && y + height <= u32::MAX,
        EditParams::Blur { x, y, width, height } => {
            &&& x + width <= u32::MAX
            &&& y + height <= u32::MAX
            &&& y + height >= 1
            &&& y + height <= pixels.height ==> y < u32::MAX
            &&& height >= 3 ==> x + width >= 1
        },
        EditParams::Resize { new_width, new_height } => {
            &&& new_width * new_height <= u32::MAX
            &&& new_width >= 1 && new_height >= 1 ==> pixels.width >= 1 && pixels.height >= 1
        },
        EditParams::Grayscale => true,
    }
}

/// Whether the image is well formed and the edit parameters are within what the
/// edit functions take.
pub fn edit_accepted(pixels: &PixelVectors, edit: &EditParams) -> (ok: bool)
    ensures
        ok == (pixels.wf() && edit_in_range(*pixels, *edit)),
{
    let max = u32::MAX as u64;
    proof {
        assert(pixels.width as u64 * pixels.height as u64 <= u32::MAX as u64 * u32::MAX as u64) by (nonlinear_arith)
            requires
                pixels.width <= u32::MAX,
                pixels.height <= u32::MAX,
        ;
    }
    let n = pixels.width as u64 * pixels.height as u64;
    if n > max || pixels.r.len() as u64 != n || pixels.g.len() as u64 != n || pixels.b.len() as u64 != n {
        return false;
    }
    match edit {
        EditParams::Crop { x, y, width, height } => *x as u64 + *width as u64 <= max && *y as u64 + *height as u64 <= max,
        EditParams::Blur { x, y, width, height } => {
            let right = *x as u64 + *width as u64;
            let bottom = *y as u64 + *height as u64;
            right <= max && bottom <= max && bottom >= 1 && (bottom > pixels.height as u64 || (*y as u64) < max)
                && (*height < 3 || right >= 1)
        },
        EditParams::Resize { new_width, new_height } => {
            proof {
                assert(*new_width as u64 * *new_height as u64 <= u32::MAX as u64 * u32::MAX as u64) by (nonlinear_arith)
                    requires
                        *new_width <= u32::MAX,
                        *new_height <= u32::MAX,
                ;
            }
            *new_width as u64 * *new_height as u64 <= max
                && (*new_width == 0 || *new_height == 0 || (pixels.width >= 1 && pixels.height >= 1))
        },
        EditParams::Grayscale => true,
    }
}

/// The edited image that `apply_edit` gives: the result of the edit's own function.
pub open spec fn edit_result_holds(pixels: PixelVectors, edit: EditParams, res: Result<PixelVectors, ImageError>) -> bool {
    let (w, h) = (pixels.width as int, pixels.height as int);
    match edit {
        EditParams::Crop { x, y, width, height } => match res {
            Ok(out) => {
                &&& x + width <= pixels.width && y + height <= pixels.height
                &&& out.wf() && out.width == width && out.height == height
                &&& out.r@ == crop_channel(pixels.r@, w, x as int, y as int, width as int, height as int)
                &&& out.g@ == crop_channel(pixels.g@, w, x as int, y as int, width as int, height as int)
                &&& out.b@ == crop_channel(pixels.b@, w, x as int, y as int, width as int, height as int)
            },
            Err(e) => (x + width > pixels.width || y + height > pixels.height) && e == (ImageError::CropOutOfBounds {
                x, y, width, height, image_width: pixels.width, image_height: pixels.height,
            }),
        },
        EditParams::Blur { x, y, width, height } => match res {
            Ok(out) => {
                &&& x + width <= pixels.width && y + height <= pixels.height
                &&& out.wf() && out.width == pixels.width && out.height == pixels.height
                &&& out.r@ == blur_channel(pixels.r@, w, x as int, y as int, width as int, height as int)
                &&& out.g@ == blur_channel(pixels.g@, w, x as int, y as int, width as int, height as int)
                &&& out.b@ == blur_channel(pixels.b@, w, x as int, y as int, width as int, height as int)
            },
            Err(e) => (x + width > pixels.width || y + height > pixels.height) && e == (ImageError::BlurOutOfBounds {
                x, y, width, height, image_width: pixels.width, image_height: pixels.height,
            }),
        },
        EditParams::Resize { new_width, new_height } => res matches Ok(out) && {
            &&& out.wf() && out.width == new_width && out.height == new_height
            &&& out.r@ == resize_channel(pixels.r@, w, h, new_width as int, new_height as int)
            &&& out.g@ == resize_channel(pixels.g@, w, h, new_width as int, new_height as int)
            &&& out.b@ == resize_channel(pixels.b@, w, h, new_width as int, new_height as int)
        },
        EditParams::Grayscale => res matches Ok(out) && {
            &&& out.wf() && out.width == pixels.width && out.height == pixels.height
            &&& out.r@ == gray_channel(pixels.r@, pixels.g@, pixels.b@)
            &&& out.g@ == out.r@ && out.b@ == out.r@
        },
    }
}

/// Apply the edit of an edit job to its image.
pub fn apply_edit(pixels: &PixelVectors, edit: &EditParams) -> (res: Result<PixelVectors, ImageError>)
    requires
        pixels.wf(),
        edit_in_range(*pixels, *edit),
    ensures
        edit_result_holds(*pixels, *edit, res),
{
    match edit {
        EditParams::Crop { x, y, width, height } => crop_pixels(pixels, *x, *y, *width, *height),
        EditParams::Blur { x, y, width, height } => blur_pixels(pixels, *x, *y, *width, *height),
        EditParams::Resize { new_width, new_height } => Ok(resize_pixels(pixels, *new_width, *new_height)),
        EditParams::Grayscale => Ok(grayscale_pixels(pixels)),
    }
}

/// Record the outcome of an edit job: completed with its result, or failed with
/// the error's message.
pub fn record_outcome(job: &mut Job, outcome: Result<JobResult, String>)
    ensures
        same_job(*final(job), *old(job)),
        match outcome {
            Ok(result) => {
                &&& final(job).status == JobStatus::Completed
                &&& final(job).progress == 100
                &&& final(job).result == Some(result)
                &&& final(job).error == old(job).error
            },
            Err(message) => {
                &&& final(job).status == JobStatus::Failed
                &&& final(job).error matches Some(e) && e@ == message@
                &&& final(job).progress == old(job).progress
                &&& final(job).result == old(job).result
            },
        },
{
    match outcome {
        Ok(result) => job.set_completed(result),
        Err(message) => job.set_failed(message.as_str()),
    }
}

/// Start an edit job: decode the base64 image, convert it to pixel vectors, and
/// create a job of the edit's type that is processing.
pub fn start_edit_job(request: &EditRequest) -> (res: Result<(Job, PixelVectors), RequestError>)
    ensures
        match res {
            Ok((job, pixels)) => {
                &&& bytes_from_base64(request.image@) matches Some(bytes)
                    && decoded_rgb8(bytes) == Some((pixels.width, pixels.height, interleave(pixels.r@, pixels.g@, pixels.b@)))
                &&& pixels.wf()
                &&& job.job_type == job_type_of(request.edit)
                &&& is_uuid_v4_text(job.id@)
                &&& job.status == JobStatus::Processing
                &&& job.progress == 0
                &&& job.message matches Some(m) && m@ == "Starting proof generation..."@
                &&& job.result is None
                &&& job.error is None
            },
            Err(RequestError::InvalidBase64(m)) => bytes_from_base64(request.image@) is None
                && m@ == base64_error_text(request.image@),
            Err(RequestError::ImageLoad) => bytes_from_base64(request.image@) matches Some(bytes)
                && decoded_rgb8(bytes) is None,
            Err(RequestError::ImageTooLarge) => bytes_from_base64(request.image@) matches Some(bytes)
                && decoded_rgb8(bytes) matches Some((w, h, raw)) && w * h > u32::MAX,
        },
{
    let image_bytes = match base64_decode(request.image.as_str()) {
        Ok(bytes) => bytes,
        Err(text) => return Err(RequestError::InvalidBase64(text)),
    };
    let img = match load_image_from_bytes(image_bytes.as_slice()) {
        Ok(img) => img,
        Err(_) => return Err(RequestError::ImageLoad),
    };
    proof {
        assert(img.width as u64 * img.height as u64 <= u32::MAX as u64 * u32::MAX as u64) by (nonlinear_arith)
            requires
                img.width <= u32::MAX,
                img.height <= u32::MAX,
        ;
    }
    if img.width as u64 * img.height as u64 > u32::MAX as u64 {
        return Err(RequestError::ImageTooLarge);
    }
    let pixels = image_to_pixel_vectors(&img);
    proof {
        crate::image_io::lemma_interleave_channels(img.raw@);
    }
    let job_type = job_type_for(&request.edit);
    let mut job = Job::new(job_type);
    job.set_processing("Starting proof generation...");
    Ok((job, pixels))
}

/// The response that announces a created job.
pub fn job_created_response(job: &Job) -> (response: JobCreatedResponse)
    ensures
        response.job_id@ == job.id@,
        response.status@ == "processing"@,
        response.message@ == "Edit job created. Poll /api/job/{id} for status."@,
{
    JobCreatedResponse {
        job_id: String::from_str(job.id.as_str()),
        status: String::from_str("processing"),
        message: String::from_str("Edit job created. Poll /api/job/{id} for status."),
    }
}

/// The result of a finished edit job: the edited image as base64 PNG, the proof
/// as base64, and the proof's statistics.
pub fn edit_job_result(edited: &PixelVectors, proof_output: &ProofOutput, edit_name: &str) -> (res: Result<JobResult, ImageError>)
    requires
        edited.wf(),
    ensures
        match res {
            Ok(result) => {
                &&& png_encoding(edited.width, edited.height, interleave(edited.r@, edited.g@, edited.b@)) matches Some(png)
                    && result.edited_image matches Some(text) && text@ == base64_of(png)
                &&& result.proof matches Some(text) && text@ == base64_of(proof_output.proof_data@)
                &&& result.proof_size == Some(proof_output.proof_data@.len() as usize)
                &&& result.proving_time_ms == Some(proof_output.proving_time_ms)
                &&& result.verification_time_ms is None
                &&& result.verified is None
                &&& result.technical_details matches Some(td) && {
                    &&& td.image_pixels == edited.r@.len()
                    &&& td.circuit_size is None
                    &&& td.num_constraints is None
                    &&& td.hash_type@ == "Poseidon"@
                    &&& td.proof_system@ == "Plonky2 (PLONK + FRI)"@
                    &&& td.field_size_bits == 64
                    &&& td.security_bits == 100
                }
            },
            Err(e) => e == ImageError::Encode && png_encoding(edited.width, edited.height,
                interleave(edited.r@, edited.g@, edited.b@)) is None,
        },
{
    let edited_img = match pixel_vectors_to_image(edited) {
        Ok(img) => img,
        Err(e) => return Err(e),
    };
    let edited_bytes = image_to_png_bytes(&edited_img)?;
    let proof_stats = get_proof_stats(proof_output, edit_name);
    Ok(JobResult {
        edited_image: Some(base64_encode(edited_bytes.as_slice())),
        proof: Some(base64_encode(proof_output.proof_data.as_slice())),
        proof_size: Some(proof_output.proof_data.len()),
        proving_time_ms: Some(proof_output.proving_time_ms),
        verification_time_ms: None,
        verified: None,
        technical_details: Some(TechnicalDetails {
            image_pixels: edited.pixel_count(),
            circuit_size: proof_stats.circuit_info.num_gates,
            num_constraints: None,
            hash_type: String::from_str("Poseidon"),
            proof_system: String::from_str("Plonky2 (PLONK + FRI)"),
            field_size_bits: 64,
            security_bits: 100,
        }),
    })
}

/// Verify a proof sent as base64: decode it and run the structural check.
pub fn handle_verify_request(request: &VerifyRequest) -> (res: Result<crate::proofs::VerificationResult, RequestError>)
    ensures
        match res {
            Ok(result) => bytes_from_base64(request.proof@) matches Some(bytes) && {
                &&& result.valid == (bytes.len() > MIN_PROOF_SIZE)
                &&& result.valid ==> result.error is None
                &&& !result.valid ==> (result.error matches Some(msg) && msg@ == too_small_message(bytes.len()))
            },
            Err(e) => e matches RequestError::InvalidBase64(m) && bytes_from_base64(request.proof@) is None
                && m@ == base64_error_text(request.proof@),
        },
{
    let proof_bytes = match base64_decode(request.proof.as_str()) {
        Ok(bytes) => bytes,
        Err(text) => return Err(RequestError::InvalidBase64(text)),
    };
    Ok(crate::proofs::verify_proof(proof_bytes.as_slice(), request.public_inputs.as_slice(), request.edit_type.as_str()))
}

} // verus!
