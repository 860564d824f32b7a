//! Parsing of the TPM 2.0 `TPMS_ATTEST` structure.
//!
//! Quote verification only needs two fields of a quote-type attestation
//! structure: `extraData` (the caller-provided nonce) and the attested
//! `pcrDigest`. `TPMS_ATTEST` is a flat, big-endian structure frozen by TPM 2.0
//! (Part 2: Structures, section 10.12), so it is parsed here without any
//! native TPM library.

use vstd::prelude::*;

use crate::azure::{laws, layout};
use crate::bytes::{decode_u16, decode_u32};

verus! {

/// TPM_GENERATED_VALUE, the magic constant leading every TPMS_ATTEST
/// (TPM 2.0, Part 2, section 6.2).
pub const TPM_GENERATED_VALUE: u32 = 0xff54_4347;

/// TPM_ST_ATTEST_QUOTE, the tag of quote-type attestation structures
/// (TPM 2.0, Part 2, section 6.9).
pub const TPM_ST_ATTEST_QUOTE: u16 = 0x8018;

/// Maximum number of TPMS_PCR_SELECTION entries accepted in a
/// TPML_PCR_SELECTION. TPM 2.0 bounds the list by the number of hash
/// algorithms the TPM implements (Part 2, section 10.9.7); 16 is far above any
/// real TPM and merely bounds work on hostile input.
pub const MAX_PCR_SELECTIONS: u32 = 16;

/// Why a byte string is not a marshalled quote.
#[derive(Debug)]
pub enum AttestError {
    /// The buffer is too short for a TPMS_ATTEST field.
    Truncated,
    /// The magic is not TPM_GENERATED_VALUE.
    Magic,
    /// The structure is not a quote.
    NotAQuote,
    /// The TPML_PCR_SELECTION count is implausibly large.
    PcrSelectionCount,
    /// Bytes follow the TPMS_ATTEST.
    TrailingData,
}

/// The quote-relevant fields of a marshalled `TPMS_ATTEST` structure.
#[derive(Debug)]
pub struct TpmsAttest {
    extra_data: Vec<u8>,
    pcr_digest: Vec<u8>,
}

impl View for TpmsAttest {
    type V = layout::AttestFields;

    closed spec fn view(&self) -> layout::AttestFields {
        layout::AttestFields { extra_data: self.extra_data@, pcr_digest: self.pcr_digest@ }
    }
}

impl TpmsAttest {
    /// Parse a marshalled TPMS_ATTEST, accepting only quote-type attestation
    /// structures (TPM_ST_ATTEST_QUOTE).
    #[verifier::rlimit(25)]
    pub fn parse(bytes: &[u8]) -> (parsed: Result<Self, AttestError>)
        ensures
            match parsed {
                Ok(attest) => layout::attest_outcome(bytes@) == Ok::<_, AttestError>(attest@),
                Err(error) => layout::attest_outcome(bytes@) == Err::<layout::AttestFields, _>(
                    error,
                ),
            },
            parsed is Ok <==> layout::is_marshalled_quote(bytes@),
            forall|quote: layout::QuoteAttest|
                quote.wf() && bytes@ == #[trigger] layout::marshal(quote) ==> {
                    &&& parsed matches Ok(attest)
                    &&& attest@.extra_data == quote.extra_data
                    &&& attest@.pcr_digest == quote.pcr_digest
                },
    {
        proof {
            laws::law_accepted_iff_marshalled_quote(bytes@);
            assert forall|quote: layout::QuoteAttest|
                quote.wf() && bytes@ == #[trigger] layout::marshal(quote) implies {
                &&& layout::attest_outcome(bytes@) matches Ok(fields)
                &&& fields.extra_data == quote.extra_data
                &&& fields.pcr_digest == quote.pcr_digest
            } by {
                laws::law_marshalled_quote_is_accepted(quote);
            }
        }
        let mut reader = Reader::new(bytes);
        if reader.read_u32()? != TPM_GENERATED_VALUE {
            return Err(AttestError::Magic);
        }
        if reader.read_u16()? != TPM_ST_ATTEST_QUOTE {
            return Err(AttestError::NotAQuote);
        }
        // qualifiedSigner: TPM2B_NAME
        reader.read_tpm2b()?;
        // extraData: TPM2B_DATA
        let extra_data = vstd::slice::slice_to_vec(reader.read_tpm2b()?);
        let ghost timing = reader@;
        // clockInfo: TPMS_CLOCK_INFO (clock, resetCount, restartCount, safe)
        reader.skip(8 + 4 + 4 + 1)?;
        // firmwareVersion: UINT64
        reader.skip(8)?;
        assert(reader@ =~= timing.skip(25));
        // attested.quote: TPMS_QUOTE_INFO, starting with the pcrSelect list
        // (TPML_PCR_SELECTION)
        let selection_count: u32 = reader.read_u32()?;
        if selection_count > MAX_PCR_SELECTIONS {
            return Err(AttestError::PcrSelectionCount);
        }
        for i in 0..selection_count
            invariant
                layout::attest_outcome(bytes@) == layout::selections_outcome(
                    extra_data@,
                    reader@,
                    (selection_count - i) as nat,
                ),
                layout::attest_outcome(bytes@) is Ok <==> layout::is_marshalled_quote(bytes@),
                forall|quote: layout::QuoteAttest|
                    quote.wf() && bytes@ == #[trigger] layout::marshal(quote) ==> {
                        &&& layout::attest_outcome(bytes@) matches Ok(fields)
                        &&& fields.extra_data == quote.extra_data
                        &&& fields.pcr_digest == quote.pcr_digest
                    },
        {
            let ghost entry = reader@;
            // TPMS_PCR_SELECTION: hash algorithm, sizeofSelect, pcrSelect
            reader.skip(2)?;
            let size_of_select: usize = reader.read_u8()? as usize;
            reader.skip(size_of_select)?;
            assert(reader@ =~= entry.skip(3 + size_of_select));
        }
        // attested.quote.pcrDigest: TPM2B_DIGEST
        let pcr_digest = vstd::slice::slice_to_vec(reader.read_tpm2b()?);
        if !reader.is_at_end() {
            return Err(AttestError::TrailingData);
        }
        Ok(TpmsAttest { extra_data, pcr_digest })
    }

    /// The `extraData` field: caller-provided qualifying data (the nonce).
    pub fn extra_data(&self) -> (data: &[u8])
        ensures
            data@ == self@.extra_data,
    {
        self.extra_data.as_slice()
    }

    /// The attested `pcrDigest`: digest of the selected PCR values.
    pub fn pcr_digest(&self) -> (digest: &[u8])
        ensures
            digest@ == self@.pcr_digest,
    {
        self.pcr_digest.as_slice()
    }
}

/// A cursor that reads a byte string from the front. Its view is what has not
/// been read yet.
pub struct Reader<'a> {
    bytes: &'a [u8],
    offset: usize,
}

impl<'a> View for Reader<'a> {
    type V = Seq<u8>;

    closed spec fn view(&self) -> Seq<u8> {
        self.bytes@.skip(self.offset as int)
    }
}

impl<'a> Reader<'a> {
    #[verifier::type_invariant]
    closed spec fn in_bounds(self) -> bool {
        self.offset <= self.bytes@.len()
    }

    /// A reader at the front of `bytes`.
    pub fn new(bytes: &'a [u8]) -> (reader: Self)
        ensures
            reader@ == bytes@,
    {
        let reader = Reader { bytes, offset: 0 };
        assert(reader@ =~= bytes@);
        reader
    }

    /// Whether everything has been read.
    pub fn is_at_end(&self) -> (at_end: bool)
        ensures
            at_end == (self@.len() == 0),
    {
        proof {
            use_type_invariant(self);
        }
        self.offset == self.bytes.len()
    }

    /// Read the next `len` bytes. Nothing is consumed where fewer are left.
    pub fn take(&mut self, len: usize) -> (taken: Result<&'a [u8], AttestError>)
        ensures
            len <= old(self)@.len() ==> {
                &&& taken matches Ok(bytes)
                &&& bytes@ == old(self)@.take(len as int)
                &&& final(self)@ == old(self)@.skip(len as int)
            },
            len > old(self)@.len() ==> {
                &&& taken == Err::<&'a [u8], _>(AttestError::Truncated)
                &&& final(self)@ == old(self)@
            },
    {
        proof {
            use_type_invariant(&*self);
        }
        let end: usize = match self.offset.checked_add(len) {
            Some(end) => end,
            None => {
                assert(self.bytes.len() == self.bytes@.len());
                return Err(AttestError::Truncated);
            },
        };
        if end > self.bytes.len() {
            return Err(AttestError::Truncated);
        }
        let bytes = vstd::slice::slice_subrange(self.bytes, self.offset, end);
        assert(bytes@ =~= self@.take(len as int));
        self.offset = end;
        assert(self@ =~= old(self)@.skip(len as int));
        Ok(bytes)
    }

    /// Pass over the next `len` bytes.
    pub fn skip(&mut self, len: usize) -> (skipped: Result<(), AttestError>)
        ensures
            len <= old(self)@.len() ==> {
                &&& skipped is Ok
                &&& final(self)@ == old(self)@.skip(len as int)
            },
            len > old(self)@.len() ==> {
                &&& skipped == Err::<(), _>(AttestError::Truncated)
                &&& final(self)@ == old(self)@
            },
    {
        self.take(len)?;
        Ok(())
    }

    /// Read one byte.
    pub fn read_u8(&mut self) -> (read: Result<u8, AttestError>)
        ensures
            old(self)@.len() >= 1 ==> {
                &&& read == Ok::<_, AttestError>(old(self)@[0])
                &&& final(self)@ == old(self)@.skip(1)
            },
            old(self)@.len() < 1 ==> {
                &&& read == Err::<u8, _>(AttestError::Truncated)
                &&& final(self)@ == old(self)@
            },
    {
        Ok(self.take(1)?[0])
    }

    /// Read a big-endian 16-bit integer.
    pub fn read_u16(&mut self) -> (read: Result<u16, AttestError>)
        ensures
            match layout::split_u16(old(self)@) {
                Some((n, rest)) => read == Ok::<_, AttestError>(n) && final(self)@ == rest,
                None => {
                    &&& read == Err::<u16, _>(AttestError::Truncated)
                    &&& final(self)@ == old(self)@
                },
            },
            old(self)@.len() >= 2 ==> {
                &&& read matches Ok(n)
                &&& n == 0x100 * old(self)@[0] + old(self)@[1]
                &&& final(self)@ == old(self)@.skip(2)
            },
            old(self)@.len() < 2 ==> {
                &&& read == Err::<u16, _>(AttestError::Truncated)
                &&& final(self)@ == old(self)@
            },
    {
        let b = self.take(2)?;
        Ok(decode_u16(b[0], b[1]))
    }

    /// Read a big-endian 32-bit integer.
    pub fn read_u32(&mut self) -> (read: Result<u32, AttestError>)
        ensures
            match layout::split_u32(old(self)@) {
                Some((n, rest)) => read == Ok::<_, AttestError>(n) && final(self)@ == rest,
                None => {
                    &&& read == Err::<u32, _>(AttestError::Truncated)
                    &&& final(self)@ == old(self)@
                },
            },
            old(self)@.len() >= 4 ==> {
                &&& read matches Ok(n)
                &&& n == 0x100_0000 * old(self)@[0] + 0x1_0000 * old(self)@[1] + 0x100 * old(
                    self,
                )@[2] + old(self)@[3]
                &&& final(self)@ == old(self)@.skip(4)
            },
            old(self)@.len() < 4 ==> {
                &&& read == Err::<u32, _>(AttestError::Truncated)
                &&& final(self)@ == old(self)@
            },
    {
        let b = self.take(4)?;
        Ok(decode_u32(b[0], b[1], b[2], b[3]))
    }

    /// Read a size-prefixed TPM2B buffer (16-bit big-endian size followed by
    /// that many bytes). Where the buffer is cut short after its size, the
    /// size alone is consumed.
    pub fn read_tpm2b(&mut self) -> (read: Result<&'a [u8], AttestError>)
        ensures
            match layout::split_tpm2b(old(self)@) {
                Some((payload, rest)) => {
                    &&& read matches Ok(bytes)
                    &&& bytes@ == payload
                    &&& final(self)@ == rest
                },
                None => {
                    &&& read == Err::<&'a [u8], _>(AttestError::Truncated)
                    &&& final(self)@ == match layout::split_u16(old(self)@) {
                        Some((_, rest)) => rest,
                        None => old(self)@,
                    }
                },
            },
            old(self)@.len() < 2 ==> {
                &&& read == Err::<&'a [u8], _>(AttestError::Truncated)
                &&& final(self)@ == old(self)@
            },
            old(self)@.len() >= 2 ==> {
                let size = 0x100 * old(self)@[0] + old(self)@[1];
                if old(self)@.len() < 2 + size {
                    &&& read == Err::<&'a [u8], _>(AttestError::Truncated)
                    &&& final(self)@ == old(self)@.skip(2)
                } else {
                    &&& read matches Ok(bytes)
                    &&& bytes@ == old(self)@.subrange(2, 2 + size)
                    &&& final(self)@ == old(self)@.skip(2 + size)
                }
            },
    {
        let size: usize = self.read_u16()? as usize;
        self.take(size)
    }
}

} // verus!
