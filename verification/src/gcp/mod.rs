//! Google-endorsed firmware on GCP.

pub mod firmware;
pub mod laws;
