//! Verification of TEE attestation evidence.

pub mod azure;
pub mod bytes;
pub mod gcp;
