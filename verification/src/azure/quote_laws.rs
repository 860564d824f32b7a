//! Laws of quote verification: what an accepted quote binds.

use openssl::error::ErrorStack;
use openssl::pkey::{PKey, Public};
use vstd::prelude::*;

use crate::azure::{format_laws, layout};
use crate::azure::layout::AttestFields;
use crate::azure::tpm_quote;
use crate::azure::tpm_quote::{TpmQuote, TpmQuoteError};

verus! {

/// A quote is accepted exactly where its signature is valid, its message is a
/// marshalled quote, the message holds the nonce, and the message holds the
/// digest of the PCR values.
pub proof fn law_accepted_iff(valid: bool, message: Seq<u8>, nonce: Seq<u8>, digest: Seq<u8>)
    ensures
        tpm_quote::quote_verdict(valid, message, nonce, digest) is Ok <==> {
            &&& valid
            &&& layout::attest_outcome(message) matches Ok(attested)
            &&& attested.extra_data == nonce
            &&& attested.pcr_digest == digest
        },
{
}

/// Where the signature check ends in a refusal, the quote is refused for that,
/// whatever else is right or wrong with it: with OpenSSL's error where the
/// check could not be made, and with a signature mismatch where it failed.
pub proof fn law_signature_comes_first(
    checked: Result<bool, ErrorStack>,
    message: Seq<u8>,
    nonce: Seq<u8>,
    digest: Seq<u8>,
)
    requires
        tpm_quote::signature_outcome(checked) is Err,
    ensures
        tpm_quote::quote_outcome(checked, message, nonce, digest) == tpm_quote::signature_outcome(
            checked,
        ),
{
}

/// A message is accepted for one nonce only: a quote made for one challenge
/// does not answer another.
pub proof fn law_one_nonce_per_message(
    message: Seq<u8>,
    nonce: Seq<u8>,
    digest: Seq<u8>,
    other_nonce: Seq<u8>,
    other_digest: Seq<u8>,
)
    requires
        tpm_quote::quote_verdict(true, message, nonce, digest) is Ok,
        other_nonce != nonce,
    ensures
        tpm_quote::quote_verdict(true, message, other_nonce, other_digest) == Err::<(), _>(
            TpmQuoteError::NonceMismatch,
        ),
{
}

/// With the right nonce, a message is accepted for one PCR digest only.
pub proof fn law_one_digest_per_message(
    message: Seq<u8>,
    nonce: Seq<u8>,
    digest: Seq<u8>,
    other_digest: Seq<u8>,
)
    requires
        tpm_quote::quote_verdict(true, message, nonce, digest) is Ok,
        other_digest != digest,
    ensures
        tpm_quote::quote_verdict(true, message, nonce, other_digest) == Err::<(), _>(
            TpmQuoteError::PcrMismatch,
        ),
{
}

/// A quote counts as signed by a key exactly where OpenSSL's check holds of
/// the key, the whole message and the whole signature.
pub proof fn law_signed_by_is_the_signature_check(quote: TpmQuote, pub_key: PKey<Public>)
    ensures
        quote.signed_by(pub_key) <==> tpm_quote::signature_valid(
            pub_key,
            quote.message@,
            quote.signature@,
        ),
{
}

/// The outcome of the signature check decides alone where it is a refusal,
/// and is passed on as it is.
pub proof fn law_signature_outcome(checked: Result<bool, ErrorStack>)
    ensures
        tpm_quote::signature_outcome(checked) is Ok <==> checked == Ok::<_, ErrorStack>(true),
        checked == Ok::<_, ErrorStack>(false) ==> tpm_quote::signature_outcome(checked) == Err::<
            (),
            _,
        >(TpmQuoteError::SignatureMismatch),
        checked matches Err(error) ==> tpm_quote::signature_outcome(checked) == Err::<(), _>(
            TpmQuoteError::OpenSsl(error),
        ),
{
}

/// Without a valid signature no quote is accepted, and what is reported is
/// the signature: whatever message, nonce and digest are.
pub proof fn law_unsigned_quote_is_refused(
    quote: TpmQuote,
    pub_key: PKey<Public>,
    nonce: Seq<u8>,
    digest: Seq<u8>,
)
    requires
        !tpm_quote::signature_valid(pub_key, quote.message@, quote.signature@),
    ensures
        tpm_quote::quote_verdict(quote.signed_by(pub_key), quote.message@, nonce, digest) == Err::<
            (),
            _,
        >(TpmQuoteError::SignatureMismatch),
        tpm_quote::signature_verdict_spec(quote.signed_by(pub_key)) == Err::<(), _>(
            TpmQuoteError::SignatureMismatch,
        ),
{
}

/// With a valid signature, what is wrong with the message is reported, then a
/// wrong nonce, then a wrong digest; where nothing is wrong the quote is
/// accepted.
pub proof fn law_signed_quote_is_judged_by_its_contents(
    quote: TpmQuote,
    pub_key: PKey<Public>,
    nonce: Seq<u8>,
    digest: Seq<u8>,
)
    requires
        tpm_quote::signature_valid(pub_key, quote.message@, quote.signature@),
    ensures
        tpm_quote::signature_verdict_spec(quote.signed_by(pub_key)) == Ok::<(), TpmQuoteError>(()),
        ({
            let verdict = tpm_quote::quote_verdict(
                quote.signed_by(pub_key),
                quote.message@,
                nonce,
                digest,
            );
            match layout::attest_outcome(quote.message@) {
                Err(error) => verdict == Err::<(), _>(TpmQuoteError::Attest(error)),
                Ok(attested) => {
                    &&& attested.extra_data != nonce ==> verdict == Err::<(), _>(
                        TpmQuoteError::NonceMismatch,
                    )
                    &&& attested.extra_data == nonce && attested.pcr_digest != digest ==> verdict
                        == Err::<(), _>(TpmQuoteError::PcrMismatch)
                    &&& attested.extra_data == nonce && attested.pcr_digest == digest ==> verdict
                        == Ok::<(), TpmQuoteError>(())
                },
            }
        }),
{
}

/// Where OpenSSL could not check the signature its error is the outcome; where
/// it could, the outcome is the verdict for the answer it gave.
pub proof fn law_checked_outcome(
    checked: Result<bool, ErrorStack>,
    message: Seq<u8>,
    nonce: Seq<u8>,
    digest: Seq<u8>,
)
    ensures
        ({
            let outcome = tpm_quote::quote_outcome(checked, message, nonce, digest);
            match checked {
                Ok(valid) => {
                    &&& outcome == tpm_quote::quote_verdict(valid, message, nonce, digest)
                    &&& !valid ==> outcome == Err::<(), _>(TpmQuoteError::SignatureMismatch)
                },
                Err(error) => outcome == Err::<(), _>(TpmQuoteError::OpenSsl(error)),
            }
        }),
{
}

/// What is hashed is the PCR values in a row: byte `32 * i + j` is byte `j` of
/// value `i`, and nothing else is in it.
pub proof fn law_pcr_bytes_are_the_values_in_a_row(pcrs: Seq<[u8; 32]>)
    ensures
        tpm_quote::pcr_bytes(pcrs).len() == 32 * pcrs.len(),
        forall|i: int, j: int|
            0 <= i < pcrs.len() && 0 <= j < 32 ==> tpm_quote::pcr_bytes(pcrs)[32 * i + j]
                == #[trigger] pcrs[i]@[j],
        tpm_quote::pcr_bytes(pcrs) == pcrs.map_values(|pcr: [u8; 32]| pcr@).flatten(),
    decreases pcrs.len(),
{
    let rows = pcrs.map_values(|pcr: [u8; 32]| pcr@);
    if pcrs.len() > 0 {
        let before = pcrs.drop_last();
        let rows_before = before.map_values(|pcr: [u8; 32]| pcr@);
        law_pcr_bytes_are_the_values_in_a_row(before);
        assert(rows =~= rows_before.push(pcrs.last()@));
        rows_before.lemma_flatten_push(pcrs.last()@);
        assert forall|i: int, j: int| 0 <= i < pcrs.len() && 0 <= j < 32 implies
            tpm_quote::pcr_bytes(pcrs)[32 * i + j] == #[trigger] pcrs[i]@[j] by {
            if i < before.len() {
                assert(before[i]@[j] == pcrs[i]@[j]);
            }
        }
    } else {
        assert(rows =~= Seq::<Seq<u8>>::empty());
    }
}

/// With the right nonce, a quote's PCR values are accepted exactly where the
/// attested digest is the SHA-256 digest of the values in a row.
pub proof fn law_pcrs_accepted_iff(attested: AttestFields, pcrs: Seq<[u8; 32]>)
    ensures
        tpm_quote::pcr_verdict_spec(
            attested,
            tpm_quote::sha256(tpm_quote::pcr_bytes(pcrs)),
        ) is Ok <==> attested.pcr_digest == tpm_quote::sha256(
            pcrs.map_values(|pcr: [u8; 32]| pcr@).flatten(),
        ),
{
    law_pcr_bytes_are_the_values_in_a_row(pcrs);
}

/// A genuine quote is accepted: one with a valid signature, whose message
/// holds the nonce and the SHA-256 digest of the PCR values in a row, each in
/// its place.
pub proof fn law_genuine_quote_is_accepted(
    signer: Seq<u8>,
    nonce: Seq<u8>,
    timing: Seq<u8>,
    selections: Seq<Seq<u8>>,
    pcrs: Seq<[u8; 32]>,
    digest: Seq<u8>,
)
    requires
        signer.len() <= 0xffff,
        nonce.len() <= 0xffff,
        timing.len() == 25,
        selections.len() <= 16,
        forall|i: int|
            0 <= i < selections.len() ==> (#[trigger] selections[i]).len() >= 3
                && selections[i].len() == 3 + selections[i][2],
        digest == tpm_quote::sha256(pcrs.map_values(|pcr: [u8; 32]| pcr@).flatten()),
        digest.len() == 32,
    ensures
        tpm_quote::quote_outcome(
            Ok(true),
            seq![0xffu8, 0x54, 0x43, 0x47, 0x80, 0x18] + seq![
                (signer.len() / 0x100) as u8,
                (signer.len() % 0x100) as u8,
            ] + signer + seq![(nonce.len() / 0x100) as u8, (nonce.len() % 0x100) as u8] + nonce
                + timing + seq![0u8, 0, 0, selections.len() as u8] + selections.flatten() + seq![
                0u8,
                32,
            ] + digest,
            nonce,
            tpm_quote::sha256(tpm_quote::pcr_bytes(pcrs)),
        ) == Ok::<(), TpmQuoteError>(()),
{
    let none = Seq::<u8>::empty();
    let message = seq![0xffu8, 0x54, 0x43, 0x47, 0x80, 0x18] + seq![
        (signer.len() / 0x100) as u8,
        (signer.len() % 0x100) as u8,
    ] + signer + seq![(nonce.len() / 0x100) as u8, (nonce.len() % 0x100) as u8] + nonce + timing
        + seq![0u8, 0, 0, selections.len() as u8] + selections.flatten() + seq![
        (digest.len() / 0x100) as u8,
        (digest.len() % 0x100) as u8,
    ] + digest;
    format_laws::law_quote_bytes_are_read(signer, nonce, timing, selections, digest, none);
    format_laws::lemma_nothing_behind(message);
    law_pcr_bytes_are_the_values_in_a_row(pcrs);
}

/// PCR lists written one value after the other have the length of their
/// values together.
proof fn lemma_pcr_bytes_len(pcrs: Seq<[u8; 32]>)
    ensures
        tpm_quote::pcr_bytes(pcrs).len() == 32 * pcrs.len(),
    decreases pcrs.len(),
{
    if pcrs.len() > 0 {
        lemma_pcr_bytes_len(pcrs.drop_last());
    }
}

/// What is hashed fixes the PCR values: no two lists of them are written
/// alike.
pub proof fn law_pcr_bytes_fix_the_values(a: Seq<[u8; 32]>, b: Seq<[u8; 32]>)
    requires
        tpm_quote::pcr_bytes(a) == tpm_quote::pcr_bytes(b),
    ensures
        a == b,
    decreases a.len(),
{
    lemma_pcr_bytes_len(a);
    lemma_pcr_bytes_len(b);
    if a.len() == 0 {
        assert(a =~= b);
    } else {
        let a_start = tpm_quote::pcr_bytes(a.drop_last());
        let b_start = tpm_quote::pcr_bytes(b.drop_last());
        lemma_pcr_bytes_len(a.drop_last());
        lemma_pcr_bytes_len(b.drop_last());
        assert((a_start + a.last()@).take(a_start.len() as int) =~= a_start);
        assert((b_start + b.last()@).take(b_start.len() as int) =~= b_start);
        assert((a_start + a.last()@).skip(a_start.len() as int) =~= a.last()@);
        assert((b_start + b.last()@).skip(b_start.len() as int) =~= b.last()@);
        law_pcr_bytes_fix_the_values(a.drop_last(), b.drop_last());
        assert(a.last() =~= b.last());
        assert(a =~= a.drop_last().push(a.last()));
        assert(b =~= b.drop_last().push(b.last()));
    }
}

/// One signed message is accepted with two different lists of PCR values only
/// where two different byte strings have one SHA-256 digest.
pub proof fn law_other_pcrs_need_a_collision(
    message: Seq<u8>,
    nonce: Seq<u8>,
    pcrs: Seq<[u8; 32]>,
    other_pcrs: Seq<[u8; 32]>,
)
    requires
        pcrs != other_pcrs,
        tpm_quote::quote_verdict(
            true,
            message,
            nonce,
            tpm_quote::sha256(tpm_quote::pcr_bytes(pcrs)),
        ) is Ok,
        tpm_quote::quote_verdict(
            true,
            message,
            nonce,
            tpm_quote::sha256(tpm_quote::pcr_bytes(other_pcrs)),
        ) is Ok,
    ensures
        tpm_quote::pcr_bytes(pcrs) != tpm_quote::pcr_bytes(other_pcrs),
        tpm_quote::sha256(tpm_quote::pcr_bytes(pcrs)) == tpm_quote::sha256(
            tpm_quote::pcr_bytes(other_pcrs),
        ),
{
    if tpm_quote::pcr_bytes(pcrs) == tpm_quote::pcr_bytes(other_pcrs) {
        law_pcr_bytes_fix_the_values(pcrs, other_pcrs);
    }
}

} // verus!
