//! The marshalled form of a quote-type `TPMS_ATTEST` (TPM 2.0, Part 2:
//! Structures, section 10.12), as mathematics.
//!
//! The format is described twice. [`marshal`] says which byte string a quote
//! is written as. [`attest_outcome`] says what reading an arbitrary byte
//! string gives: the two fields that quote verification needs, or the first
//! thing found wrong with it. The laws in [`crate::azure::laws`] tie the two
//! together.

use vstd::prelude::*;

use crate::azure::tpms_attest::{
    AttestError, MAX_PCR_SELECTIONS, TPM_GENERATED_VALUE, TPM_ST_ATTEST_QUOTE,
};
use crate::bytes;

verus! {

/// One `TPMS_PCR_SELECTION`: a hash algorithm and the bit map of the PCRs
/// selected in its bank.
pub struct PcrSelection {
    pub hash_alg: u16,
    pub pcr_select: Seq<u8>,
}

/// Everything a marshalled quote-type `TPMS_ATTEST` holds.
pub struct QuoteAttest {
    /// `TPM2B_NAME` of the signing key.
    pub qualified_signer: Seq<u8>,
    /// `TPM2B_DATA` that the caller asked the TPM to include: the nonce.
    pub extra_data: Seq<u8>,
    /// `TPMS_CLOCK_INFO`: clock, resetCount, restartCount, safe.
    pub clock_info: Seq<u8>,
    /// `UINT64`.
    pub firmware_version: Seq<u8>,
    /// `TPML_PCR_SELECTION`.
    pub pcr_selections: Seq<PcrSelection>,
    /// `TPM2B_DIGEST` of the selected PCR values.
    pub pcr_digest: Seq<u8>,
}

/// The fields of a quote that its verification needs.
pub struct AttestFields {
    pub extra_data: Seq<u8>,
    pub pcr_digest: Seq<u8>,
}

/// Length of a `TPMS_CLOCK_INFO`.
pub open spec fn clock_info_len() -> nat {
    8 + 4 + 4 + 1
}

/// Length of the `firmwareVersion` field.
pub open spec fn firmware_version_len() -> nat {
    8
}

impl PcrSelection {
    /// The bit map's length fits in its one-byte size field.
    pub open spec fn wf(self) -> bool {
        self.pcr_select.len() <= u8::MAX
    }
}

impl QuoteAttest {
    /// Every field fits in the format, and there are no more PCR selections
    /// than are accepted.
    pub open spec fn wf(self) -> bool {
        &&& self.qualified_signer.len() <= u16::MAX
        &&& self.extra_data.len() <= u16::MAX
        &&& self.clock_info.len() == clock_info_len()
        &&& self.firmware_version.len() == firmware_version_len()
        &&& self.pcr_selections.len() <= MAX_PCR_SELECTIONS
        &&& forall|i: int|
            0 <= i < self.pcr_selections.len() ==> (#[trigger] self.pcr_selections[i]).wf()
        &&& self.pcr_digest.len() <= u16::MAX
    }

    /// The fields that quote verification needs.
    pub open spec fn fields(self) -> AttestFields {
        AttestFields { extra_data: self.extra_data, pcr_digest: self.pcr_digest }
    }
}

// ---- writing ----

/// A size-prefixed `TPM2B` buffer.
pub open spec fn tpm2b(payload: Seq<u8>) -> Seq<u8> {
    bytes::u16_bytes(payload.len() as u16) + payload
}

/// A `TPMS_PCR_SELECTION`.
pub open spec fn marshal_selection(selection: PcrSelection) -> Seq<u8> {
    bytes::u16_bytes(selection.hash_alg) + seq![selection.pcr_select.len() as u8]
        + selection.pcr_select
}

/// The entries of a `TPML_PCR_SELECTION`, one after the other.
pub open spec fn marshal_selections(selections: Seq<PcrSelection>) -> Seq<u8>
    decreases selections.len(),
{
    if selections.len() == 0 {
        seq![]
    } else {
        marshal_selection(selections[0]) + marshal_selections(selections.skip(1))
    }
}

/// What precedes the qualified signer in every quote.
pub open spec fn quote_tag() -> Seq<u8> {
    bytes::u32_bytes(TPM_GENERATED_VALUE) + bytes::u16_bytes(TPM_ST_ATTEST_QUOTE)
}

/// A quote up to, and without, the count of its PCR selections.
pub open spec fn marshal_header(quote: QuoteAttest) -> Seq<u8> {
    quote_tag() + (tpm2b(quote.qualified_signer) + (tpm2b(quote.extra_data) + (quote.clock_info
        + quote.firmware_version)))
}

/// A quote from the count of its PCR selections to its end.
pub open spec fn marshal_quote_info(quote: QuoteAttest) -> Seq<u8> {
    bytes::u32_bytes(quote.pcr_selections.len() as u32) + (marshal_selections(quote.pcr_selections)
        + tpm2b(quote.pcr_digest))
}

/// The byte string that a quote is written as.
pub open spec fn marshal(quote: QuoteAttest) -> Seq<u8> {
    marshal_header(quote) + marshal_quote_info(quote)
}

/// Whether `bytes` is what some quote is written as.
pub open spec fn is_marshalled_quote(bytes: Seq<u8>) -> bool {
    exists|quote: QuoteAttest| quote.wf() && bytes == #[trigger] marshal(quote)
}

/// Whether `bytes` is what some quote is written as, with more behind it.
pub open spec fn has_trailing_bytes(bytes: Seq<u8>) -> bool {
    exists|quote: QuoteAttest|
        quote.wf() && is_proper_prefix(#[trigger] marshal(quote), bytes)
}

/// Whether `bytes` starts as a quote does, up to a count of PCR selections
/// that is not accepted.
pub open spec fn has_excessive_count(bytes: Seq<u8>) -> bool {
    exists|quote: QuoteAttest, count: u32|
        quote.wf() && count > MAX_PCR_SELECTIONS && (#[trigger] marshal_header(quote)
            + #[trigger] bytes::u32_bytes(count)).is_prefix_of(bytes)
}

/// Whether `part` is a prefix of `whole` and shorter than it.
pub open spec fn is_proper_prefix(part: Seq<u8>, whole: Seq<u8>) -> bool {
    part.len() < whole.len() && part.is_prefix_of(whole)
}

/// Length of the longest byte string that a quote is written as.
pub open spec fn max_quote_len() -> nat {
    let tpm2b_len = 2 + u16::MAX as nat;
    let selection_len = 3 + u8::MAX as nat;
    4 + 2 + tpm2b_len + tpm2b_len + clock_info_len() + firmware_version_len() + 4
        + MAX_PCR_SELECTIONS as nat * selection_len + tpm2b_len
}

// ---- reading ----

/// Split a 16-bit integer off the front of a byte string.
pub open spec fn split_u16(s: Seq<u8>) -> Option<(u16, Seq<u8>)> {
    if s.len() < 2 {
        None
    } else {
        Some((bytes::be_u16(s[0], s[1]), s.skip(2)))
    }
}

/// Split a 32-bit integer off the front of a byte string.
pub open spec fn split_u32(s: Seq<u8>) -> Option<(u32, Seq<u8>)> {
    if s.len() < 4 {
        None
    } else {
        Some((bytes::be_u32(s[0], s[1], s[2], s[3]), s.skip(4)))
    }
}

/// Split a `TPM2B` buffer off the front of a byte string.
pub open spec fn split_tpm2b(s: Seq<u8>) -> Option<(Seq<u8>, Seq<u8>)> {
    match split_u16(s) {
        Some((size, rest)) => if size <= rest.len() {
            Some((rest.take(size as int), rest.skip(size as int)))
        } else {
            None
        },
        None => None,
    }
}

/// Drop a `TPMS_PCR_SELECTION` from the front of a byte string.
pub open spec fn drop_selection(s: Seq<u8>) -> Option<Seq<u8>> {
    if s.len() < 3 || s.len() < 3 + s[2] {
        None
    } else {
        Some(s.skip(3 + s[2]))
    }
}

/// Drop `count` `TPMS_PCR_SELECTION`s from the front of a byte string.
pub open spec fn drop_selections(s: Seq<u8>, count: nat) -> Option<Seq<u8>>
    decreases count,
{
    if count == 0 {
        Some(s)
    } else {
        match drop_selection(s) {
            Some(rest) => drop_selections(rest, (count - 1) as nat),
            None => None,
        }
    }
}

/// What reading `bytes` as a quote gives: its fields, or the first thing
/// found wrong with it from the front.
pub open spec fn attest_outcome(bytes: Seq<u8>) -> Result<AttestFields, AttestError> {
    match split_u32(bytes) {
        None => Err(AttestError::Truncated),
        Some((magic, rest)) => if magic != TPM_GENERATED_VALUE {
            Err(AttestError::Magic)
        } else {
            match split_u16(rest) {
                None => Err(AttestError::Truncated),
                Some((tag, rest)) => if tag != TPM_ST_ATTEST_QUOTE {
                    Err(AttestError::NotAQuote)
                } else {
                    body_outcome(rest)
                },
            }
        },
    }
}

/// [`attest_outcome`] from the qualified signer on.
pub open spec fn body_outcome(s: Seq<u8>) -> Result<AttestFields, AttestError> {
    match split_tpm2b(s) {
        None => Err(AttestError::Truncated),
        Some((_, rest)) => match split_tpm2b(rest) {
            None => Err(AttestError::Truncated),
            Some((extra_data, rest)) => if rest.len() < clock_info_len() + firmware_version_len() {
                Err(AttestError::Truncated)
            } else {
                quote_info_outcome(
                    extra_data,
                    rest.skip((clock_info_len() + firmware_version_len()) as int),
                )
            },
        },
    }
}

/// [`attest_outcome`] from the count of PCR selections on.
pub open spec fn quote_info_outcome(extra_data: Seq<u8>, s: Seq<u8>) -> Result<
    AttestFields,
    AttestError,
> {
    match split_u32(s) {
        None => Err(AttestError::Truncated),
        Some((count, rest)) => if count > MAX_PCR_SELECTIONS {
            Err(AttestError::PcrSelectionCount)
        } else {
            selections_outcome(extra_data, rest, count as nat)
        },
    }
}

/// [`attest_outcome`] from the first of `count` PCR selections on.
pub open spec fn selections_outcome(extra_data: Seq<u8>, s: Seq<u8>, count: nat) -> Result<
    AttestFields,
    AttestError,
> {
    match drop_selections(s, count) {
        None => Err(AttestError::Truncated),
        Some(rest) => match split_tpm2b(rest) {
            None => Err(AttestError::Truncated),
            Some((pcr_digest, rest)) => if rest.len() != 0 {
                Err(AttestError::TrailingData)
            } else {
                Ok(AttestFields { extra_data, pcr_digest })
            },
        },
    }
}

} // verus!
