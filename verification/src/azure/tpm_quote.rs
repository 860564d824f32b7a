//! Verification of Azure vTPM quotes.
//!
//! A vTPM quote is a signed, marshalled `TPMS_ATTEST` structure together with
//! the PCR values it attests to. Verifying one is pure computation: an RSA
//! signature check over the message, a nonce comparison against the
//! `extraData` field, and a SHA-256 digest comparison against the attested
//! `pcrDigest`. It needs no TPM stack.

use openssl::error::ErrorStack;
use openssl::hash::MessageDigest;
use openssl::pkey::{PKey, Public};
use openssl::sha::Sha256;
use openssl::sign::Verifier;
use vstd::prelude::*;

use crate::azure::{layout, quote_laws};
use crate::azure::layout::AttestFields;
use crate::azure::tpms_attest::{AttestError, TpmsAttest};
use crate::bytes::bytes_equal;

verus! {

// ---- OpenSSL ----

/// The errors that an OpenSSL call leaves behind.
#[verifier::external_type_specification]
#[verifier::external_body]
pub struct ExErrorStack(ErrorStack);

/// The tag of keys that hold public components only.
#[verifier::external_type_specification]
#[verifier::external_body]
pub struct ExPublic(Public);

/// An OpenSSL key.
#[verifier::external_type_specification]
#[verifier::external_body]
#[verifier::reject_recursive_types(T)]
pub struct ExPKey<T>(PKey<T>);

/// Whether `signature` is a signature of `message` under `key`, with SHA-256
/// as the message digest.
pub uninterp spec fn signature_valid(
    key: PKey<Public>,
    message: Seq<u8>,
    signature: Seq<u8>,
) -> bool;

/// `openssl::sign::Verifier`: `new` with `MessageDigest::sha256()`, one
/// `update` with the message, then `verify` with the signature.
///
/// Where these calls go through, the answer is whether the signature is valid,
/// and that depends on the key, the message and the signature alone. Whether
/// they go through is left open: OpenSSL may fail for reasons of the process
/// it runs in, such as its configuration or memory. Nothing is said of the
/// errors either, which are whatever the thread's error queue holds.
#[verifier::external_body]
fn check_signature(pub_key: &PKey<Public>, message: &[u8], signature: &[u8]) -> (checked: Result<
    bool,
    ErrorStack,
>)
    ensures
        checked matches Ok(valid) ==> valid == signature_valid(*pub_key, message@, signature@),
{
    let mut verifier = Verifier::new(MessageDigest::sha256(), pub_key)?;
    verifier.update(message)?;
    verifier.verify(signature)
}

/// The SHA-256 digest of a byte string.
pub uninterp spec fn sha256(data: Seq<u8>) -> Seq<u8>;

/// `openssl::sha::Sha256`: `new`, one `update` with the data, then `finish`.
///
/// The result is the SHA-256 digest of the data, which depends on the data
/// alone.
#[verifier::external_body]
fn digest_sha256(data: &[u8]) -> (digest: [u8; 32])
    ensures
        digest@ == sha256(data@),
{
    let mut hasher = Sha256::new();
    hasher.update(data);
    hasher.finish()
}

// ---- quotes ----

/// An error when verifying a vTPM quote.
#[derive(Debug)]
pub enum TpmQuoteError {
    /// The message is not a marshalled quote.
    Attest(AttestError),
    /// OpenSSL could not check the signature.
    OpenSsl(ErrorStack),
    /// The quote is not signed by the key.
    SignatureMismatch,
    /// The quote was made for another nonce.
    NonceMismatch,
    /// The attested PCR digest does not match the PCR values.
    PcrMismatch,
}

impl From<AttestError> for TpmQuoteError {
    fn from(error: AttestError) -> (converted: Self)
        ensures
            converted == TpmQuoteError::Attest(error),
    {
        TpmQuoteError::Attest(error)
    }
}

impl vstd::std_specs::convert::FromSpecImpl<AttestError> for TpmQuoteError {
    open spec fn obeys_from_spec() -> bool {
        true
    }

    open spec fn from_spec(error: AttestError) -> Self {
        TpmQuoteError::Attest(error)
    }
}

impl From<ErrorStack> for TpmQuoteError {
    fn from(error: ErrorStack) -> (converted: Self)
        ensures
            converted == TpmQuoteError::OpenSsl(error),
    {
        TpmQuoteError::OpenSsl(error)
    }
}

impl vstd::std_specs::convert::FromSpecImpl<ErrorStack> for TpmQuoteError {
    open spec fn obeys_from_spec() -> bool {
        true
    }

    open spec fn from_spec(error: ErrorStack) -> Self {
        TpmQuoteError::OpenSsl(error)
    }
}

/// A vTPM quote: AK signature, marshalled `TPMS_ATTEST` message, and the
/// attested sha256 PCR values.
#[derive(Debug)]
pub struct TpmQuote {
    pub signature: Vec<u8>,
    pub message: Vec<u8>,
    pub pcrs: Vec<[u8; 32]>,
}

/// PCR values, one after the other.
pub open spec fn pcr_bytes(pcrs: Seq<[u8; 32]>) -> Seq<u8>
    decreases pcrs.len(),
{
    if pcrs.len() == 0 {
        seq![]
    } else {
        pcr_bytes(pcrs.drop_last()) + pcrs.last()@
    }
}

/// What the signature check on its own decides.
pub open spec fn signature_verdict_spec(valid: bool) -> Result<(), TpmQuoteError> {
    if valid {
        Ok(())
    } else {
        Err(TpmQuoteError::SignatureMismatch)
    }
}

/// [`signature_verdict_spec`] of what came of a signature check: where OpenSSL
/// could not make it, its error.
pub open spec fn signature_outcome(checked: Result<bool, ErrorStack>) -> Result<
    (),
    TpmQuoteError,
> {
    match checked {
        Ok(valid) => signature_verdict_spec(valid),
        Err(error) => Err(TpmQuoteError::OpenSsl(error)),
    }
}

/// What the nonce comparison on its own decides.
pub open spec fn nonce_verdict_spec(attested: AttestFields, nonce: Seq<u8>) -> Result<
    (),
    TpmQuoteError,
> {
    if attested.extra_data == nonce {
        Ok(())
    } else {
        Err(TpmQuoteError::NonceMismatch)
    }
}

/// What the comparison of a digest with the attested one decides.
pub open spec fn pcr_verdict_spec(attested: AttestFields, digest: Seq<u8>) -> Result<
    (),
    TpmQuoteError,
> {
    if attested.pcr_digest == digest {
        Ok(())
    } else {
        Err(TpmQuoteError::PcrMismatch)
    }
}

/// What all checks together decide: the first of them that fails, in the
/// order signature, message, nonce, PCR digest.
pub open spec fn quote_verdict(
    valid: bool,
    message: Seq<u8>,
    nonce: Seq<u8>,
    digest: Seq<u8>,
) -> Result<(), TpmQuoteError> {
    if !valid {
        Err(TpmQuoteError::SignatureMismatch)
    } else {
        match layout::attest_outcome(message) {
            Err(error) => Err(TpmQuoteError::Attest(error)),
            Ok(attested) => if attested.extra_data != nonce {
                Err(TpmQuoteError::NonceMismatch)
            } else {
                pcr_verdict_spec(attested, digest)
            },
        }
    }
}

/// [`quote_verdict`] of what came of a signature check: where OpenSSL could
/// not make it, its error, whatever the rest of the quote holds.
pub open spec fn quote_outcome(
    checked: Result<bool, ErrorStack>,
    message: Seq<u8>,
    nonce: Seq<u8>,
    digest: Seq<u8>,
) -> Result<(), TpmQuoteError> {
    match checked {
        Ok(valid) => quote_verdict(valid, message, nonce, digest),
        Err(error) => Err(TpmQuoteError::OpenSsl(error)),
    }
}

/// Turn the outcome of a signature check into a verdict.
pub fn signature_verdict(checked: Result<bool, ErrorStack>) -> (verdict: Result<
    (),
    TpmQuoteError,
>)
    ensures
        verdict == signature_outcome(checked),
        verdict is Ok <==> checked == Ok::<_, ErrorStack>(true),
        checked == Ok::<_, ErrorStack>(false) ==> verdict == Err::<(), _>(
            TpmQuoteError::SignatureMismatch,
        ),
        checked matches Err(error) ==> verdict == Err::<(), _>(TpmQuoteError::OpenSsl(error)),
{
    match checked {
        Ok(true) => Ok(()),
        Ok(false) => Err(TpmQuoteError::SignatureMismatch),
        Err(error) => Err(TpmQuoteError::from(error)),
    }
}

/// Compare the attested nonce with the expected one.
pub fn nonce_verdict(attest: &TpmsAttest, nonce: &[u8]) -> (verdict: Result<(), TpmQuoteError>)
    ensures
        verdict == nonce_verdict_spec(attest@, nonce@),
        verdict is Ok <==> attest@.extra_data == nonce@,
        verdict is Err ==> verdict == Err::<(), _>(TpmQuoteError::NonceMismatch),
{
    if bytes_equal(attest.extra_data(), nonce) {
        Ok(())
    } else {
        Err(TpmQuoteError::NonceMismatch)
    }
}

/// Compare the attested PCR digest with one computed from PCR values.
pub fn pcr_verdict(attest: &TpmsAttest, digest: &[u8]) -> (verdict: Result<(), TpmQuoteError>)
    ensures
        verdict == pcr_verdict_spec(attest@, digest@),
        verdict is Ok <==> attest@.pcr_digest == digest@,
        verdict is Err ==> verdict == Err::<(), _>(TpmQuoteError::PcrMismatch),
{
    if bytes_equal(attest.pcr_digest(), digest) {
        Ok(())
    } else {
        Err(TpmQuoteError::PcrMismatch)
    }
}

impl TpmQuote {
    /// Retrieve sha256 PCR values from the quote.
    pub fn pcrs_sha256(&self) -> (pcrs: std::slice::Iter<'_, [u8; 32]>)
        ensures
            vstd::std_specs::iter::IteratorSpec::remaining(&pcrs) == self.pcrs@.as_ref(),
            vstd::std_specs::iter::IteratorSpec::decrease(&pcrs) is Some,
            vstd::std_specs::iter::IteratorSpec::initial_value_relation(&pcrs, &pcrs),
    {
        self.pcrs.as_slice().iter()
    }

    /// Whether the quote's signature is one of its message under `pub_key`.
    pub open spec fn signed_by(self, pub_key: PKey<Public>) -> bool {
        signature_valid(pub_key, self.message@, self.signature@)
    }

    /// Verify the quote's signature, nonce, and PCR digest.
    ///
    /// This is [`TpmQuote::checked_verdict`] of OpenSSL's check of the
    /// signature. When OpenSSL fails to make that check is left open.
    pub fn verify(&self, pub_key: &PKey<Public>, nonce: &[u8]) -> (verified: Result<
        (),
        TpmQuoteError,
    >)
        ensures
            verified matches Err(TpmQuoteError::OpenSsl(_)) || verified == quote_verdict(
                self.signed_by(*pub_key),
                self.message@,
                nonce@,
                sha256(pcr_bytes(self.pcrs@)),
            ),
            verified is Ok ==> sha256(pcr_bytes(self.pcrs@)).len() == 32,
            verified is Ok ==> {
                &&& signature_valid(*pub_key, self.message@, self.signature@)
                &&& layout::attest_outcome(self.message@) matches Ok(attested)
                &&& attested.extra_data == nonce@
                &&& attested.pcr_digest == sha256(pcr_bytes(self.pcrs@))
            },
            !signature_valid(*pub_key, self.message@, self.signature@) ==> {
                ||| verified == Err::<(), _>(TpmQuoteError::SignatureMismatch)
                ||| verified matches Err(TpmQuoteError::OpenSsl(_))
            },
            signature_valid(*pub_key, self.message@, self.signature@) ==> {
                ||| verified matches Err(TpmQuoteError::OpenSsl(_))
                ||| match layout::attest_outcome(self.message@) {
                    Err(error) => verified == Err::<(), _>(TpmQuoteError::Attest(error)),
                    Ok(attested) => {
                        &&& attested.extra_data != nonce@ ==> verified == Err::<(), _>(
                            TpmQuoteError::NonceMismatch,
                        )
                        &&& attested.extra_data == nonce@ && attested.pcr_digest != sha256(
                            pcr_bytes(self.pcrs@),
                        ) ==> verified == Err::<(), _>(TpmQuoteError::PcrMismatch)
                        &&& attested.extra_data == nonce@ && attested.pcr_digest == sha256(
                            pcr_bytes(self.pcrs@),
                        ) ==> verified is Ok
                    },
                }
            },
    {
        self.checked_verdict(
            check_signature(pub_key, self.message.as_slice(), self.signature.as_slice()),
            nonce,
        )
    }

    /// Verify the quote's nonce and PCR digest, given what came of the check
    /// of its signature.
    ///
    /// Where OpenSSL could not make that check, its error is returned and
    /// nothing else is looked at.
    pub fn checked_verdict(&self, checked: Result<bool, ErrorStack>, nonce: &[u8]) -> (verified:
        Result<(), TpmQuoteError>)
        ensures
            verified == quote_outcome(
                checked,
                self.message@,
                nonce@,
                sha256(pcr_bytes(self.pcrs@)),
            ),
            verified is Ok ==> sha256(pcr_bytes(self.pcrs@)).len() == 32,
            checked matches Err(error) ==> verified == Err::<(), _>(TpmQuoteError::OpenSsl(error)),
            checked == Ok::<_, ErrorStack>(false) ==> verified == Err::<(), _>(
                TpmQuoteError::SignatureMismatch,
            ),
            checked == Ok::<_, ErrorStack>(true) ==> match layout::attest_outcome(self.message@) {
                Err(error) => verified == Err::<(), _>(TpmQuoteError::Attest(error)),
                Ok(attested) => {
                    &&& attested.extra_data != nonce@ ==> verified == Err::<(), _>(
                        TpmQuoteError::NonceMismatch,
                    )
                    &&& attested.extra_data == nonce@ && attested.pcr_digest != sha256(
                        pcr_bytes(self.pcrs@),
                    ) ==> verified == Err::<(), _>(TpmQuoteError::PcrMismatch)
                    &&& attested.extra_data == nonce@ && attested.pcr_digest == sha256(
                        pcr_bytes(self.pcrs@),
                    ) ==> verified is Ok
                },
            },
    {
        signature_verdict(checked)?;
        match TpmsAttest::parse(self.message.as_slice()) {
            Ok(attest) => {
                nonce_verdict(&attest, nonce)?;
                self.verify_pcrs(&attest)
            },
            Err(error) => Err(TpmQuoteError::from(error)),
        }
    }

    /// Verify the quote's signature (SHA-256 RSA) over the message.
    pub fn verify_signature(&self, pub_key: &PKey<Public>) -> (verified: Result<(), TpmQuoteError>)
        ensures
            verified matches Err(TpmQuoteError::OpenSsl(_)) || verified == signature_verdict_spec(
                self.signed_by(*pub_key),
            ),
            verified is Ok ==> signature_valid(*pub_key, self.message@, self.signature@),
            !signature_valid(*pub_key, self.message@, self.signature@) ==> {
                ||| verified == Err::<(), _>(TpmQuoteError::SignatureMismatch)
                ||| verified matches Err(TpmQuoteError::OpenSsl(_))
            },
            signature_valid(*pub_key, self.message@, self.signature@) ==> {
                ||| verified is Ok
                ||| verified matches Err(TpmQuoteError::OpenSsl(_))
            },
    {
        signature_verdict(
            check_signature(pub_key, self.message.as_slice(), self.signature.as_slice()),
        )
    }

    /// The bundled PCR values, one after the other.
    pub fn concatenated_pcrs(&self) -> (data: Vec<u8>)
        ensures
            data@ == pcr_bytes(self.pcrs@),
            data@.len() == 32 * self.pcrs@.len(),
            forall|i: int, j: int|
                0 <= i < self.pcrs@.len() && 0 <= j < 32 ==> data@[32 * i + j]
                    == #[trigger] self.pcrs@[i]@[j],
    {
        let mut data: Vec<u8> = Vec::new();
        for i in 0..self.pcrs.len()
            invariant
                data@ == pcr_bytes(self.pcrs@.take(i as int)),
        {
            data.extend_from_slice(self.pcrs[i].as_slice());
            assert(self.pcrs@.take(i + 1).drop_last() =~= self.pcrs@.take(i as int));
        }
        assert(self.pcrs@.take(self.pcrs@.len() as int) =~= self.pcrs@);
        proof {
            quote_laws::law_pcr_bytes_are_the_values_in_a_row(self.pcrs@);
        }
        data
    }

    /// Verify that the attested PCR digest matches the digest of the bundled
    /// PCR values.
    pub fn verify_pcrs(&self, attest: &TpmsAttest) -> (verified: Result<(), TpmQuoteError>)
        ensures
            verified == pcr_verdict_spec(attest@, sha256(pcr_bytes(self.pcrs@))),
            sha256(pcr_bytes(self.pcrs@)).len() == 32,
            verified is Ok <==> attest@.pcr_digest == sha256(
                self.pcrs@.map_values(|pcr: [u8; 32]| pcr@).flatten(),
            ),
            verified is Err ==> verified == Err::<(), _>(TpmQuoteError::PcrMismatch),
    {
        proof {
            quote_laws::law_pcr_bytes_are_the_values_in_a_row(self.pcrs@);
        }
        let digest = digest_sha256(self.concatenated_pcrs().as_slice());
        pcr_verdict(attest, digest.as_slice())
    }
}

} // verus!
