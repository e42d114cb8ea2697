//! Verified core of an image-provenance service: pixel edits, the lattice hash
//! that signers apply to images, and the checks that a verifier runs.

pub mod image_io;
pub mod signer;
pub mod support;
pub mod encoding;
pub mod proofs;
pub mod prover;
pub mod client;
pub mod circuit;
pub mod jobs;
pub mod api;
