//! Azure vTPM quotes.

pub mod format_laws;
pub mod laws;
pub mod layout;
pub mod quote_laws;
pub mod tpm_quote;
pub mod tpms_attest;
