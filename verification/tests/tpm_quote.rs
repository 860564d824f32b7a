use attestation::azure::tpm_quote::{
    nonce_verdict, pcr_verdict, signature_verdict, TpmQuote, TpmQuoteError,
};
use attestation::azure::tpms_attest::{
    AttestError, TpmsAttest, TPM_GENERATED_VALUE, TPM_ST_ATTEST_QUOTE,
};
use openssl::error::ErrorStack;
use openssl::hash::MessageDigest;
use openssl::pkey::{Id, PKey, Private, Public};
use openssl::rsa::Rsa;
use openssl::sha::sha256;
use openssl::sign::Signer;

/// SHA-256 of one PCR value of 32 zero bytes.
const ONE_ZERO_PCR: [u8; 32] = [
    0x66, 0x68, 0x7a, 0xad, 0xf8, 0x62, 0xbd, 0x77, 0x6c, 0x8f, 0xc1, 0x8b, 0x8e, 0x9f, 0x8e, 0x20,
    0x08, 0x97, 0x14, 0x85, 0x6e, 0xe2, 0x33, 0xb3, 0x90, 0x2a, 0x59, 0x1d, 0x0d, 0x5f, 0x29, 0x25,
];

/// SHA-256 of two PCR values of 32 zero bytes each.
const TWO_ZERO_PCRS: [u8; 32] = [
    0xf5, 0xa5, 0xfd, 0x42, 0xd1, 0x6a, 0x20, 0x30, 0x27, 0x98, 0xef, 0x6e, 0xd3, 0x09, 0x97, 0x9b,
    0x43, 0x00, 0x3d, 0x23, 0x20, 0xd9, 0xf0, 0xe8, 0xea, 0x98, 0x31, 0xa9, 0x27, 0x59, 0xfb, 0x4b,
];

/// SHA-256 of nothing.
const NO_PCRS: [u8; 32] = [
    0xe3, 0xb0, 0xc4, 0x42, 0x98, 0xfc, 0x1c, 0x14, 0x9a, 0xfb, 0xf4, 0xc8, 0x99, 0x6f, 0xb9, 0x24,
    0x27, 0xae, 0x41, 0xe4, 0x64, 0x9b, 0x93, 0x4c, 0xa4, 0x95, 0x99, 0x1b, 0x78, 0x52, 0xb8, 0x55,
];

fn marshalled(nonce: &[u8], pcr_digest: &[u8]) -> Vec<u8> {
    let mut bytes = Vec::new();
    bytes.extend_from_slice(&TPM_GENERATED_VALUE.to_be_bytes());
    bytes.extend_from_slice(&TPM_ST_ATTEST_QUOTE.to_be_bytes());
    bytes.extend_from_slice(&0u16.to_be_bytes());
    bytes.extend_from_slice(&(nonce.len() as u16).to_be_bytes());
    bytes.extend_from_slice(nonce);
    bytes.extend_from_slice(&[0; 25]);
    bytes.extend_from_slice(&1u32.to_be_bytes());
    bytes.extend_from_slice(&[0x00, 0x0b, 0x03, 0xff, 0xff, 0xff]);
    bytes.extend_from_slice(&(pcr_digest.len() as u16).to_be_bytes());
    bytes.extend_from_slice(pcr_digest);
    bytes
}

fn key_pair() -> (PKey<Private>, PKey<Public>) {
    let private = PKey::from_rsa(Rsa::generate(2048).unwrap()).unwrap();
    let public = PKey::public_key_from_der(&private.public_key_to_der().unwrap()).unwrap();
    (private, public)
}

fn sign(key: &PKey<Private>, message: &[u8]) -> Vec<u8> {
    let mut signer = Signer::new(MessageDigest::sha256(), key).unwrap();
    signer.update(message).unwrap();
    signer.sign_to_vec().unwrap()
}

/// A quote as a vTPM makes it: 24 PCR values, a nonce, and a signature.
fn signed_quote(key: &PKey<Private>, nonce: &[u8]) -> TpmQuote {
    let mut pcrs = Vec::new();
    let mut all = Vec::new();
    for i in 0..24u8 {
        pcrs.push([i; 32]);
        all.extend_from_slice(&[i; 32]);
    }
    let message = marshalled(nonce, &sha256(&all));
    TpmQuote { signature: sign(key, &message), message, pcrs }
}

fn quote_nonce(quote: &TpmQuote) -> Vec<u8> {
    TpmsAttest::parse(&quote.message).unwrap().extra_data().to_vec()
}

#[test]
fn verify_pcrs_accepts_fixture_and_rejects_tampered_pcr() {
    let (private, _) = key_pair();
    let mut quote = signed_quote(&private, b"challenge");

    let attest = TpmsAttest::parse(&quote.message).unwrap();
    quote.verify_pcrs(&attest).unwrap();

    quote.pcrs[0][0] ^= 0x01;
    let err = quote.verify_pcrs(&attest).unwrap_err();
    assert!(matches!(err, TpmQuoteError::PcrMismatch));
}

#[test]
fn verify_rejects_corrupted_signature() {
    let (private, pub_key) = key_pair();
    let mut quote = signed_quote(&private, b"challenge");

    let nonce = quote_nonce(&quote);
    quote.verify(&pub_key, &nonce).unwrap();

    quote.signature.reverse();
    let err = quote.verify(&pub_key, &nonce).unwrap_err();
    assert!(matches!(err, TpmQuoteError::SignatureMismatch));
}

#[test]
fn verify_rejects_another_key_and_another_message() {
    let (private, pub_key) = key_pair();
    let (_, other_key) = key_pair();
    let mut quote = signed_quote(&private, b"challenge");
    quote.verify_signature(&pub_key).unwrap();
    assert!(matches!(
        quote.verify_signature(&other_key),
        Err(TpmQuoteError::SignatureMismatch)
    ));
    let last = quote.message.len() - 1;
    quote.message[last] ^= 0x80;
    assert!(matches!(
        quote.verify_signature(&pub_key),
        Err(TpmQuoteError::SignatureMismatch)
    ));
    quote.signature.clear();
    assert!(matches!(
        quote.verify_signature(&pub_key),
        Err(TpmQuoteError::SignatureMismatch)
    ));
}

#[test]
fn verify_rejects_other_nonces() {
    let (private, pub_key) = key_pair();
    let quote = signed_quote(&private, b"challenge");
    quote.verify(&pub_key, b"challenge").unwrap();
    for nonce in [&b"challengf"[..], b"challeng", b"challenge0", b""] {
        assert!(matches!(
            quote.verify(&pub_key, nonce),
            Err(TpmQuoteError::NonceMismatch)
        ));
    }
}

#[test]
fn verify_rejects_other_pcrs() {
    let (private, pub_key) = key_pair();
    let mut quote = signed_quote(&private, b"challenge");
    quote.pcrs.swap(3, 4);
    assert!(matches!(
        quote.verify(&pub_key, b"challenge"),
        Err(TpmQuoteError::PcrMismatch)
    ));
    quote.pcrs.swap(3, 4);
    quote.verify(&pub_key, b"challenge").unwrap();
    quote.pcrs.pop();
    assert!(matches!(
        quote.verify(&pub_key, b"challenge"),
        Err(TpmQuoteError::PcrMismatch)
    ));
}

#[test]
fn verify_reports_a_signed_message_that_is_no_quote() {
    let (private, pub_key) = key_pair();
    let message = b"not a quote".to_vec();
    let quote = TpmQuote { signature: sign(&private, &message), message, pcrs: vec![] };
    assert!(matches!(
        quote.verify(&pub_key, b""),
        Err(TpmQuoteError::Attest(AttestError::Magic))
    ));
}

#[test]
fn verify_checks_the_signature_first() {
    let (_, pub_key) = key_pair();
    let quote = TpmQuote { signature: vec![0; 256], message: b"not a quote".to_vec(), pcrs: vec![] };
    assert!(matches!(
        quote.verify(&pub_key, b"nonce"),
        Err(TpmQuoteError::SignatureMismatch)
    ));
}

#[test]
fn verify_reports_openssl_errors() {
    // A signature with a separate digest cannot be checked with such a key.
    let private = PKey::generate_ed25519().unwrap();
    let raw = private.raw_public_key().unwrap();
    let pub_key = PKey::public_key_from_raw_bytes(&raw, Id::ED25519).unwrap();
    let (rsa, _) = key_pair();
    let quote = signed_quote(&rsa, b"challenge");
    assert!(matches!(
        quote.verify(&pub_key, b"challenge"),
        Err(TpmQuoteError::OpenSsl(_))
    ));
}

#[test]
fn verify_pcrs_hashes_the_values_in_a_row() {
    let cases = [(0, NO_PCRS), (1, ONE_ZERO_PCR), (2, TWO_ZERO_PCRS)];
    for (count, digest) in cases {
        let quote = TpmQuote { signature: vec![], message: vec![], pcrs: vec![[0; 32]; count] };
        let attest = TpmsAttest::parse(&marshalled(b"", &digest)).unwrap();
        quote.verify_pcrs(&attest).unwrap();
        assert_eq!(quote.concatenated_pcrs(), vec![0; 32 * count]);
    }
    let quote = TpmQuote { signature: vec![], message: vec![], pcrs: vec![[0; 32]] };
    let attest = TpmsAttest::parse(&marshalled(b"", &TWO_ZERO_PCRS)).unwrap();
    assert!(matches!(quote.verify_pcrs(&attest), Err(TpmQuoteError::PcrMismatch)));
    let attest = TpmsAttest::parse(&marshalled(b"", &ONE_ZERO_PCR[..31])).unwrap();
    assert!(matches!(quote.verify_pcrs(&attest), Err(TpmQuoteError::PcrMismatch)));
}

#[test]
fn verify_pcrs_rejects_digests_of_other_lengths() {
    let mut longer = ONE_ZERO_PCR.to_vec();
    longer.push(0);
    let one = TpmQuote { signature: vec![], message: vec![], pcrs: vec![[0; 32]] };
    for digest in [&b""[..], &ONE_ZERO_PCR[..31], &longer] {
        let attest = TpmsAttest::parse(&marshalled(b"", digest)).unwrap();
        assert!(matches!(one.verify_pcrs(&attest), Err(TpmQuoteError::PcrMismatch)));
    }
    let none = TpmQuote { signature: vec![], message: vec![], pcrs: vec![] };
    let attest = TpmsAttest::parse(&marshalled(b"", b"")).unwrap();
    assert!(matches!(none.verify_pcrs(&attest), Err(TpmQuoteError::PcrMismatch)));
}

#[test]
fn checked_verdict_goes_by_the_signature_check_first() {
    let good = TpmQuote {
        signature: vec![],
        message: marshalled(b"challenge", &ONE_ZERO_PCR),
        pcrs: vec![[0; 32]],
    };
    let bad = TpmQuote { signature: vec![], message: b"not a quote".to_vec(), pcrs: vec![] };
    good.checked_verdict(Ok(true), b"challenge").unwrap();
    for quote in [&good, &bad] {
        assert!(matches!(
            quote.checked_verdict(Ok(false), b"challenge"),
            Err(TpmQuoteError::SignatureMismatch)
        ));
        assert!(matches!(
            quote.checked_verdict(Err(ErrorStack::get()), b"challenge"),
            Err(TpmQuoteError::OpenSsl(_))
        ));
    }
    assert!(matches!(
        bad.checked_verdict(Ok(true), b"challenge"),
        Err(TpmQuoteError::Attest(AttestError::Magic))
    ));
}

#[test]
fn checked_verdict_compares_nonce_and_pcrs() {
    let mut quote = TpmQuote {
        signature: vec![],
        message: marshalled(b"challenge", &TWO_ZERO_PCRS),
        pcrs: vec![[0; 32]; 2],
    };
    quote.checked_verdict(Ok(true), b"challenge").unwrap();
    assert!(matches!(
        quote.checked_verdict(Ok(true), b"other"),
        Err(TpmQuoteError::NonceMismatch)
    ));
    quote.pcrs[1][31] = 1;
    assert!(matches!(
        quote.checked_verdict(Ok(true), b"challenge"),
        Err(TpmQuoteError::PcrMismatch)
    ));
    assert!(matches!(
        quote.checked_verdict(Ok(true), b"other"),
        Err(TpmQuoteError::NonceMismatch)
    ));
}

#[test]
fn pcr_values_fix_what_is_hashed() {
    let mut quote = TpmQuote { signature: vec![], message: vec![], pcrs: vec![[1; 32], [2; 32]] };
    let data = quote.concatenated_pcrs();
    assert_eq!(&data[..32], &[1; 32]);
    assert_eq!(&data[32..], &[2; 32]);
    quote.pcrs.swap(0, 1);
    assert_ne!(quote.concatenated_pcrs(), data);
}

#[test]
fn pcrs_sha256_yields_the_values_in_order() {
    let quote = TpmQuote { signature: vec![], message: vec![], pcrs: vec![[1; 32], [2; 32]] };
    let pcrs: Vec<&[u8; 32]> = quote.pcrs_sha256().collect();
    assert_eq!(pcrs, vec![&[1; 32], &[2; 32]]);
}

#[test]
fn verdicts_of_single_checks() {
    assert!(signature_verdict(Ok(true)).is_ok());
    assert!(matches!(signature_verdict(Ok(false)), Err(TpmQuoteError::SignatureMismatch)));
    assert!(matches!(
        signature_verdict(Err(ErrorStack::get())),
        Err(TpmQuoteError::OpenSsl(_))
    ));
    let attest = TpmsAttest::parse(&marshalled(b"n", b"d")).unwrap();
    assert!(nonce_verdict(&attest, b"n").is_ok());
    assert!(matches!(nonce_verdict(&attest, b"m"), Err(TpmQuoteError::NonceMismatch)));
    assert!(pcr_verdict(&attest, b"d").is_ok());
    assert!(matches!(pcr_verdict(&attest, b"e"), Err(TpmQuoteError::PcrMismatch)));
}

#[test]
fn errors_convert() {
    let error: TpmQuoteError = AttestError::NotAQuote.into();
    assert!(matches!(error, TpmQuoteError::Attest(AttestError::NotAQuote)));
    let error: TpmQuoteError = ErrorStack::get().into();
    assert!(matches!(error, TpmQuoteError::OpenSsl(_)));
}
