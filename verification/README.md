# attestation

Verification of TEE attestation evidence, written in Verus.

- `src/azure`: Azure vTPM quotes. `layout` describes the marshalled
  `TPMS_ATTEST` of a quote, `tpms_attest` parses it, `tpm_quote` verifies a
  quote's signature, nonce and PCR digest; `laws` and `quote_laws` state what
  holds of the format and of an accepted quote.
- `src/gcp`: Google-endorsed firmware. `firmware` holds the cache, the steps of
  a request for a firmware, and how to fetch; `laws` states when a request
  fetches, what it returns, and that firmware stays with its MRTD.
- `src/bytes.rs`: big-endian integers and byte string comparison.
- `app`: the wire format of quotes, errors that print, and the cache shared
  between threads.

RSA signature checks and SHA-256 are OpenSSL's. What the proofs take from it is
stated at `check_signature` and `digest_sha256` in `src/azure/tpm_quote.rs`. The
runtime that a fetch is offloaded in is tokio's: see `runtime_flavor` and
`current_handle` in `src/gcp/firmware.rs`.
