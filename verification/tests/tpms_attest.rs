use attestation::azure::tpms_attest::{
    AttestError, Reader, TpmsAttest, MAX_PCR_SELECTIONS, TPM_GENERATED_VALUE, TPM_ST_ATTEST_QUOTE,
};

/// Build a minimal marshalled quote-type TPMS_ATTEST.
fn build_attest(magic: u32, attest_type: u16, extra_data: &[u8], pcr_digest: &[u8]) -> Vec<u8> {
    let mut bytes = Vec::new();
    bytes.extend_from_slice(&magic.to_be_bytes());
    bytes.extend_from_slice(&attest_type.to_be_bytes());
    // qualifiedSigner: TPM2B_NAME with a 4-byte name
    bytes.extend_from_slice(&4u16.to_be_bytes());
    bytes.extend_from_slice(&[0xaa; 4]);
    // extraData: TPM2B_DATA
    bytes.extend_from_slice(&(extra_data.len() as u16).to_be_bytes());
    bytes.extend_from_slice(extra_data);
    // clockInfo + firmwareVersion
    bytes.extend_from_slice(&[0; 8 + 4 + 4 + 1]);
    bytes.extend_from_slice(&[0; 8]);
    // TPML_PCR_SELECTION: one SHA-256 selection of PCRs 0-23
    bytes.extend_from_slice(&1u32.to_be_bytes());
    bytes.extend_from_slice(&0x000bu16.to_be_bytes());
    bytes.push(3);
    bytes.extend_from_slice(&[0xff, 0xff, 0xff]);
    // pcrDigest: TPM2B_DIGEST
    bytes.extend_from_slice(&(pcr_digest.len() as u16).to_be_bytes());
    bytes.extend_from_slice(pcr_digest);
    bytes
}

/// A quote with `count` PCR selections of the given bit map length.
fn build_with_selections(count: u32, select_len: u8) -> Vec<u8> {
    let mut bytes = Vec::new();
    bytes.extend_from_slice(&TPM_GENERATED_VALUE.to_be_bytes());
    bytes.extend_from_slice(&TPM_ST_ATTEST_QUOTE.to_be_bytes());
    bytes.extend_from_slice(&0u16.to_be_bytes());
    bytes.extend_from_slice(&[0x00, 0x02, 0x61, 0x62]);
    bytes.extend_from_slice(&[0; 25]);
    bytes.extend_from_slice(&count.to_be_bytes());
    for _ in 0..count {
        bytes.extend_from_slice(&[0x00, 0x0b, select_len]);
        bytes.extend_from_slice(&vec![0x55; select_len as usize]);
    }
    bytes.extend_from_slice(&[0x00, 0x01, 0x7a]);
    bytes
}

#[test]
fn parses_quote_fields() {
    let extra_data = b"challenge";
    let pcr_digest = [0x42; 32];
    let bytes = build_attest(TPM_GENERATED_VALUE, TPM_ST_ATTEST_QUOTE, extra_data, &pcr_digest);
    let attest = TpmsAttest::parse(&bytes).unwrap();
    assert_eq!(attest.extra_data(), extra_data);
    assert_eq!(attest.pcr_digest(), pcr_digest);
}

#[test]
fn rejects_bad_magic() {
    let bytes = build_attest(0xdeadbeef, TPM_ST_ATTEST_QUOTE, b"x", &[0; 32]);
    assert!(matches!(TpmsAttest::parse(&bytes), Err(AttestError::Magic)));
}

#[test]
fn rejects_non_quote_attestation() {
    // TPM_ST_ATTEST_CERTIFY
    let bytes = build_attest(TPM_GENERATED_VALUE, 0x8017, b"x", &[0; 32]);
    assert!(matches!(TpmsAttest::parse(&bytes), Err(AttestError::NotAQuote)));
}

#[test]
fn rejects_trailing_bytes() {
    let mut bytes = build_attest(TPM_GENERATED_VALUE, TPM_ST_ATTEST_QUOTE, b"x", &[0; 32]);
    bytes.push(0);
    assert!(matches!(TpmsAttest::parse(&bytes), Err(AttestError::TrailingData)));
}

#[test]
fn rejects_truncation_at_every_length() {
    let bytes = build_attest(TPM_GENERATED_VALUE, TPM_ST_ATTEST_QUOTE, b"x", &[0; 32]);
    for len in 0..bytes.len() {
        assert!(
            matches!(TpmsAttest::parse(&bytes[..len]), Err(AttestError::Truncated)),
            "unexpected result at length {len}"
        );
    }
}

#[test]
fn rejects_implausible_pcr_selection_count() {
    let mut bytes = Vec::new();
    bytes.extend_from_slice(&TPM_GENERATED_VALUE.to_be_bytes());
    bytes.extend_from_slice(&TPM_ST_ATTEST_QUOTE.to_be_bytes());
    bytes.extend_from_slice(&0u16.to_be_bytes()); // qualifiedSigner
    bytes.extend_from_slice(&0u16.to_be_bytes()); // extraData
    bytes.extend_from_slice(&[0; 8 + 4 + 4 + 1 + 8]); // clockInfo + firmwareVersion
    bytes.extend_from_slice(&u32::MAX.to_be_bytes()); // pcrSelect count
    assert!(matches!(TpmsAttest::parse(&bytes), Err(AttestError::PcrSelectionCount)));
}

#[test]
fn accepts_selection_counts_up_to_the_maximum() {
    for count in 0..=MAX_PCR_SELECTIONS {
        let attest = TpmsAttest::parse(&build_with_selections(count, 3)).unwrap();
        assert_eq!(attest.extra_data(), b"ab");
        assert_eq!(attest.pcr_digest(), b"z");
    }
    let bytes = build_with_selections(MAX_PCR_SELECTIONS + 1, 3);
    assert!(matches!(TpmsAttest::parse(&bytes), Err(AttestError::PcrSelectionCount)));
}

#[test]
fn accepts_empty_and_longest_bit_maps() {
    for select_len in [0u8, 255] {
        let bytes = build_with_selections(2, select_len);
        assert_eq!(TpmsAttest::parse(&bytes).unwrap().pcr_digest(), b"z");
        assert!(matches!(
            TpmsAttest::parse(&bytes[..bytes.len() - 1]),
            Err(AttestError::Truncated)
        ));
    }
}

#[test]
fn accepts_empty_fields() {
    let bytes = build_attest(TPM_GENERATED_VALUE, TPM_ST_ATTEST_QUOTE, b"", b"");
    let attest = TpmsAttest::parse(&bytes).unwrap();
    assert_eq!(attest.extra_data(), b"");
    assert_eq!(attest.pcr_digest(), b"");
}

#[test]
fn accepts_the_longest_buffers() {
    let longest = vec![0x5a; 0xffff];
    let bytes = build_attest(TPM_GENERATED_VALUE, TPM_ST_ATTEST_QUOTE, &longest, &longest);
    let attest = TpmsAttest::parse(&bytes).unwrap();
    assert_eq!(attest.extra_data(), &longest[..]);
    assert_eq!(attest.pcr_digest(), &longest[..]);
}

#[test]
fn verdicts_other_than_truncation_are_final() {
    let magic = [0xff, 0x54, 0x43, 0x48];
    let certify = [0xff, 0x54, 0x43, 0x47, 0x80, 0x17];
    let mut longer = magic.to_vec();
    longer.extend_from_slice(&certify);
    assert!(matches!(TpmsAttest::parse(&magic), Err(AttestError::Magic)));
    assert!(matches!(TpmsAttest::parse(&longer), Err(AttestError::Magic)));
    let mut longer = certify.to_vec();
    longer.extend_from_slice(&[0; 200]);
    assert!(matches!(TpmsAttest::parse(&certify), Err(AttestError::NotAQuote)));
    assert!(matches!(TpmsAttest::parse(&longer), Err(AttestError::NotAQuote)));
    let mut counted = build_with_selections(17, 0);
    assert!(matches!(TpmsAttest::parse(&counted), Err(AttestError::PcrSelectionCount)));
    counted.push(0);
    assert!(matches!(TpmsAttest::parse(&counted), Err(AttestError::PcrSelectionCount)));
    let mut trailing = build_with_selections(1, 3);
    trailing.extend_from_slice(&[1, 2]);
    assert!(matches!(TpmsAttest::parse(&trailing), Err(AttestError::TrailingData)));
    trailing.extend_from_slice(&[3]);
    assert!(matches!(TpmsAttest::parse(&trailing), Err(AttestError::TrailingData)));
}

#[test]
fn long_input_is_never_truncated() {
    let mut bytes = build_attest(TPM_GENERATED_VALUE, TPM_ST_ATTEST_QUOTE, b"", b"");
    bytes.truncate(6);
    bytes.extend_from_slice(&[0xff; 210_000]);
    assert!(!matches!(TpmsAttest::parse(&bytes), Err(AttestError::Truncated)));
}

#[test]
fn wrong_magic_cut_short_is_truncated_until_it_is_whole() {
    assert!(matches!(TpmsAttest::parse(&[0, 0, 0]), Err(AttestError::Truncated)));
    assert!(matches!(TpmsAttest::parse(&[0, 0, 0, 0]), Err(AttestError::Magic)));
}

#[test]
fn differently_split_bytes_are_different_quotes() {
    let a = build_attest(TPM_GENERATED_VALUE, TPM_ST_ATTEST_QUOTE, b"ab", b"c");
    let b = build_attest(TPM_GENERATED_VALUE, TPM_ST_ATTEST_QUOTE, b"a", b"bc");
    let a = TpmsAttest::parse(&a).unwrap();
    let b = TpmsAttest::parse(&b).unwrap();
    assert_eq!((a.extra_data(), a.pcr_digest()), (&b"ab"[..], &b"c"[..]));
    assert_eq!((b.extra_data(), b.pcr_digest()), (&b"a"[..], &b"bc"[..]));
    assert_ne!(a.extra_data(), b.extra_data());
    assert_ne!(a.pcr_digest(), b.pcr_digest());
}

#[test]
fn reader_reads_in_order() {
    let bytes = [0x01, 0x02, 0x03, 0x04, 0x05, 0x06, 0x07, 0x00, 0x02, 0x08, 0x09, 0x0a];
    let mut reader = Reader::new(&bytes);
    assert_eq!(reader.read_u8().unwrap(), 0x01);
    assert_eq!(reader.read_u16().unwrap(), 0x0203);
    assert_eq!(reader.read_u32().unwrap(), 0x0405_0607);
    assert_eq!(reader.read_tpm2b().unwrap(), &[0x08, 0x09]);
    assert!(!reader.is_at_end());
    reader.skip(1).unwrap();
    assert!(reader.is_at_end());
    assert_eq!(reader.take(0).unwrap(), &[] as &[u8]);
    assert!(matches!(reader.read_u8(), Err(AttestError::Truncated)));
}

#[test]
fn reader_consumes_nothing_where_too_little_is_left() {
    let bytes = [0x00, 0x05, 0x0a];
    let mut reader = Reader::new(&bytes);
    assert!(matches!(reader.read_u32(), Err(AttestError::Truncated)));
    assert!(matches!(reader.take(4), Err(AttestError::Truncated)));
    assert!(matches!(reader.take(usize::MAX), Err(AttestError::Truncated)));
    assert!(matches!(reader.skip(4), Err(AttestError::Truncated)));
    // The size is consumed, the payload is not.
    assert!(matches!(reader.read_tpm2b(), Err(AttestError::Truncated)));
    assert_eq!(reader.take(1).unwrap(), &[0x0a]);
    assert!(reader.is_at_end());
}
