//! Laws of the marshalled quote format: what [`attest_outcome`] accepts is
//! what [`marshal`] writes, and each refusal says what it seems to say.
//!
//! [`attest_outcome`]: crate::azure::layout::attest_outcome
//! [`marshal`]: crate::azure::layout::marshal

use vstd::prelude::*;

use crate::azure::layout;
use crate::azure::layout::{AttestFields, PcrSelection, QuoteAttest};
use crate::azure::tpms_attest::{
    AttestError, MAX_PCR_SELECTIONS, TPM_GENERATED_VALUE, TPM_ST_ATTEST_QUOTE,
};
use crate::bytes;

verus! {

// ---- the parts of the format ----

/// Splitting an integer off what starts with its encoding gives it back.
proof fn lemma_split_u16(n: u16, s: Seq<u8>)
    ensures
        layout::split_u16(bytes::u16_bytes(n) + s) == Some((n, s)),
{
    bytes::lemma_u16_decode_encode(n);
    assert((bytes::u16_bytes(n) + s).skip(2) =~= s);
}

/// What an integer was split off from is its encoding and the rest.
proof fn lemma_joined_u16(s: Seq<u8>)
    requires
        s.len() >= 2,
    ensures
        s == bytes::u16_bytes(bytes::be_u16(s[0], s[1])) + s.skip(2),
{
    bytes::lemma_u16_encode_decode(s[0], s[1]);
    assert(s =~= seq![s[0], s[1]] + s.skip(2));
}

/// Splitting an integer off what starts with its encoding gives it back.
pub(crate) proof fn lemma_split_u32(n: u32, s: Seq<u8>)
    ensures
        layout::split_u32(bytes::u32_bytes(n) + s) == Some((n, s)),
{
    bytes::lemma_u32_decode_encode(n);
    assert((bytes::u32_bytes(n) + s).skip(4) =~= s);
}

/// What an integer was split off from is its encoding and the rest.
proof fn lemma_joined_u32(s: Seq<u8>)
    requires
        s.len() >= 4,
    ensures
        s == bytes::u32_bytes(bytes::be_u32(s[0], s[1], s[2], s[3])) + s.skip(4),
{
    bytes::lemma_u32_encode_decode(s[0], s[1], s[2], s[3]);
    assert(s =~= seq![s[0], s[1], s[2], s[3]] + s.skip(4));
}

/// Splitting a buffer off what starts with it gives its payload back.
proof fn lemma_split_tpm2b(payload: Seq<u8>, s: Seq<u8>)
    requires
        payload.len() <= u16::MAX,
    ensures
        layout::split_tpm2b(layout::tpm2b(payload) + s) == Some((payload, s)),
{
    let whole = layout::tpm2b(payload) + s;
    assert(whole =~= bytes::u16_bytes(payload.len() as u16) + (payload + s));
    lemma_split_u16(payload.len() as u16, payload + s);
    assert((payload + s).take(payload.len() as int) =~= payload);
    assert((payload + s).skip(payload.len() as int) =~= s);
}

/// What a buffer was split off from is that buffer and the rest.
proof fn lemma_joined_tpm2b(s: Seq<u8>)
    ensures
        layout::split_tpm2b(s) matches Some((payload, rest)) ==> {
            &&& payload.len() <= u16::MAX
            &&& s == layout::tpm2b(payload) + rest
        },
{
    if let Some((payload, rest)) = layout::split_tpm2b(s) {
        lemma_joined_u16(s);
        assert(s.skip(2) =~= payload + rest);
        assert(s =~= layout::tpm2b(payload) + rest);
    }
}

/// Dropping selections from what starts with them leaves the rest.
proof fn lemma_drop_selections(selections: Seq<PcrSelection>, s: Seq<u8>)
    requires
        forall|i: int| 0 <= i < selections.len() ==> (#[trigger] selections[i]).wf(),
    ensures
        layout::drop_selections(layout::marshal_selections(selections) + s, selections.len())
            == Some(s),
    decreases selections.len(),
{
    let whole = layout::marshal_selections(selections) + s;
    if selections.len() == 0 {
        assert(whole =~= s);
    } else {
        let first = selections[0];
        let others = layout::marshal_selections(selections.skip(1)) + s;
        assert(whole =~= layout::marshal_selection(first) + others);
        assert(whole[2] == first.pcr_select.len());
        assert(whole.skip(3 + whole[2]) =~= others);
        lemma_drop_selections(selections.skip(1), s);
    }
}

/// What selections were dropped from is those selections and the rest.
proof fn lemma_dropped_selections(s: Seq<u8>, count: nat) -> (selections: Seq<PcrSelection>)
    requires
        layout::drop_selections(s, count) is Some,
    ensures
        selections.len() == count,
        forall|i: int| 0 <= i < selections.len() ==> (#[trigger] selections[i]).wf(),
        s == layout::marshal_selections(selections) + layout::drop_selections(s, count)->0,
    decreases count,
{
    if count == 0 {
        assert(s =~= layout::marshal_selections(seq![]) + s);
        seq![]
    } else {
        let first = PcrSelection {
            hash_alg: bytes::be_u16(s[0], s[1]),
            pcr_select: s.subrange(3, 3 + s[2]),
        };
        let others = s.skip(3 + s[2]);
        let rest = layout::drop_selections(s, count)->0;
        bytes::lemma_u16_encode_decode(s[0], s[1]);
        assert(s =~= layout::marshal_selection(first) + others);
        let tail = lemma_dropped_selections(others, (count - 1) as nat);
        let selections = seq![first] + tail;
        assert(selections.skip(1) =~= tail);
        assert(layout::marshal_selections(selections) =~= layout::marshal_selection(first)
            + layout::marshal_selections(tail));
        assert(s =~= layout::marshal_selections(selections) + rest);
        selections
    }
}

// ---- the laws ----

/// Concatenation is associative.
pub(crate) proof fn lemma_assoc(a: Seq<u8>, b: Seq<u8>, c: Seq<u8>)
    ensures
        (a + b) + c == a + (b + c),
{
    assert((a + b) + c =~= a + (b + c));
}

/// A byte string is each of its prefixes and what is behind it.
proof fn lemma_behind_prefix(part: Seq<u8>, whole: Seq<u8>)
    requires
        part.is_prefix_of(whole),
    ensures
        whole == part + whole.skip(part.len() as int),
{
    assert(whole =~= part + whole.skip(part.len() as int));
}

/// What something is appended to is a prefix of the result.
proof fn lemma_appended_to(part: Seq<u8>, more: Seq<u8>)
    ensures
        part.is_prefix_of(part + more),
{
    assert((part + more).take(part.len() as int) =~= part);
}

/// What reading a quote and `more` behind it gives.
pub(crate) open spec fn followed_by(quote: QuoteAttest, more: Seq<u8>) -> Result<
    AttestFields,
    AttestError,
> {
    if more.len() == 0 {
        Ok(quote.fields())
    } else {
        Err(AttestError::TrailingData)
    }
}

/// Reading a quote from the count of its PCR selections on.
proof fn lemma_quote_info_read(quote: QuoteAttest, more: Seq<u8>)
    requires
        quote.wf(),
    ensures
        layout::quote_info_outcome(quote.extra_data, layout::marshal_quote_info(quote) + more)
            == followed_by(quote, more),
{
    let count = bytes::u32_bytes(quote.pcr_selections.len() as u32);
    let selections = layout::marshal_selections(quote.pcr_selections);
    let digest = layout::tpm2b(quote.pcr_digest);
    lemma_assoc(count, selections + digest, more);
    lemma_assoc(selections, digest, more);
    lemma_split_u32(quote.pcr_selections.len() as u32, selections + (digest + more));
    lemma_drop_selections(quote.pcr_selections, digest + more);
    lemma_split_tpm2b(quote.pcr_digest, more);
}

/// Reading from the qualified signer to the end of the header.
proof fn lemma_body_then(quote: QuoteAttest, info: Seq<u8>)
    requires
        quote.wf(),
    ensures
        layout::body_outcome(
            layout::tpm2b(quote.qualified_signer) + (layout::tpm2b(quote.extra_data) + ((
            quote.clock_info + quote.firmware_version) + info)),
        ) == layout::quote_info_outcome(quote.extra_data, info),
{
    let timing = (quote.clock_info + quote.firmware_version) + info;
    lemma_split_tpm2b(quote.qualified_signer, layout::tpm2b(quote.extra_data) + timing);
    lemma_split_tpm2b(quote.extra_data, timing);
    assert(timing.skip(25) =~= info);
}

/// Reading the magic and the tag of a quote.
proof fn lemma_tag_then(body: Seq<u8>)
    ensures
        layout::attest_outcome(layout::quote_tag() + body) == layout::body_outcome(body),
{
    let magic = bytes::u32_bytes(TPM_GENERATED_VALUE);
    let tag = bytes::u16_bytes(TPM_ST_ATTEST_QUOTE);
    lemma_assoc(magic, tag, body);
    lemma_split_u32(TPM_GENERATED_VALUE, tag + body);
    lemma_split_u16(TPM_ST_ATTEST_QUOTE, body);
}

/// Reading what starts with a whole header goes on with what is behind it.
pub(crate) proof fn lemma_header_then(quote: QuoteAttest, info: Seq<u8>)
    requires
        quote.wf(),
    ensures
        layout::attest_outcome(layout::marshal_header(quote) + info)
            == layout::quote_info_outcome(quote.extra_data, info),
{
    let signer = layout::tpm2b(quote.qualified_signer);
    let extra = layout::tpm2b(quote.extra_data);
    let timing = quote.clock_info + quote.firmware_version;
    lemma_assoc(layout::quote_tag(), signer + (extra + timing), info);
    lemma_assoc(signer, extra + timing, info);
    lemma_assoc(extra, timing, info);
    lemma_tag_then(signer + (extra + (timing + info)));
    lemma_body_then(quote, info);
}

/// Reading a quote with more bytes behind it.
pub(crate) proof fn lemma_quote_read(quote: QuoteAttest, more: Seq<u8>)
    requires
        quote.wf(),
    ensures
        layout::attest_outcome(layout::marshal(quote) + more) == followed_by(quote, more),
{
    let header = layout::marshal_header(quote);
    let info = layout::marshal_quote_info(quote);
    lemma_assoc(header, info, more);
    lemma_header_then(quote, info + more);
    lemma_quote_info_read(quote, more);
}

/// Reading what a quote is written as gives the quote's fields back.
pub proof fn law_marshalled_quote_is_accepted(quote: QuoteAttest)
    requires
        quote.wf(),
    ensures
        layout::attest_outcome(layout::marshal(quote)) == Ok::<_, AttestError>(quote.fields()),
        layout::attest_outcome(layout::marshal(quote)) matches Ok(fields) && fields.extra_data
            == quote.extra_data && fields.pcr_digest == quote.pcr_digest,
{
    assert(layout::marshal(quote) + seq![] =~= layout::marshal(quote));
    lemma_quote_read(quote, seq![]);
}

/// A quote with the given header fields and nothing else in it.
pub(crate) open spec fn header_only(
    qualified_signer: Seq<u8>,
    extra_data: Seq<u8>,
    clock_info: Seq<u8>,
    firmware_version: Seq<u8>,
) -> QuoteAttest {
    QuoteAttest {
        qualified_signer,
        extra_data,
        clock_info,
        firmware_version,
        pcr_selections: seq![],
        pcr_digest: seq![],
    }
}

/// The header of `bytes`, where it is whole, and what is behind it.
pub(crate) proof fn lemma_header_read(bytes: Seq<u8>) -> (read: Option<(QuoteAttest, Seq<u8>)>)
    ensures
        match read {
            Some((quote, info)) => {
                &&& quote.wf()
                &&& bytes == layout::marshal_header(quote) + info
                &&& layout::attest_outcome(bytes) == layout::quote_info_outcome(
                    quote.extra_data,
                    info,
                )
            },
            None => {
                ||| layout::attest_outcome(bytes) == Err::<AttestFields, _>(AttestError::Truncated)
                ||| layout::attest_outcome(bytes) == Err::<AttestFields, _>(AttestError::Magic)
                ||| layout::attest_outcome(bytes) == Err::<AttestFields, _>(AttestError::NotAQuote)
            },
        },
{
    match layout::split_u32(bytes) {
        None => None,
        Some((magic, tagged)) => match layout::split_u16(tagged) {
            None => None,
            Some((tag, body)) => if magic != TPM_GENERATED_VALUE || tag != TPM_ST_ATTEST_QUOTE {
                None
            } else {
                match layout::split_tpm2b(body) {
                    None => None,
                    Some((signer, rest)) => match layout::split_tpm2b(rest) {
                        None => None,
                        Some((extra, timing)) => if timing.len() < 25 {
                            None
                        } else {
                            let quote = header_only(
                                signer,
                                extra,
                                timing.take(17),
                                timing.subrange(17, 25),
                            );
                            let info = timing.skip(25);
                            let stamps = timing.take(17) + timing.subrange(17, 25);
                            lemma_joined_u32(bytes);
                            lemma_joined_u16(tagged);
                            lemma_joined_tpm2b(body);
                            lemma_joined_tpm2b(rest);
                            assert(timing =~= stamps + info);
                            lemma_assoc(
                                bytes::u32_bytes(magic),
                                bytes::u16_bytes(tag),
                                body,
                            );
                            lemma_assoc(layout::tpm2b(extra), stamps, info);
                            lemma_assoc(
                                layout::tpm2b(signer),
                                layout::tpm2b(extra) + stamps,
                                info,
                            );
                            lemma_assoc(
                                layout::quote_tag(),
                                layout::tpm2b(signer) + (layout::tpm2b(extra) + stamps),
                                info,
                            );
                            Some((quote, info))
                        },
                    },
                }
            },
        },
    }
}

/// The quote that `bytes` starts with, where reading it gets to its end, and
/// what is behind it.
pub(crate) proof fn lemma_read_to_end(bytes: Seq<u8>) -> (read: (QuoteAttest, Seq<u8>))
    requires
        layout::attest_outcome(bytes) is Ok || layout::attest_outcome(bytes) == Err::<
            AttestFields,
            _,
        >(AttestError::TrailingData),
    ensures
        read.0.wf(),
        bytes == layout::marshal(read.0) + read.1,
{
    let read = lemma_header_read(bytes);
    let (header, info) = read->0;
    let (count, entries) = layout::split_u32(info)->0;
    let selections = lemma_dropped_selections(entries, count as nat);
    let tail = layout::drop_selections(entries, count as nat)->0;
    let (pcr_digest, more) = layout::split_tpm2b(tail)->0;
    let quote = QuoteAttest { pcr_selections: selections, pcr_digest, ..header };
    lemma_joined_u32(info);
    lemma_joined_tpm2b(tail);
    let n = bytes::u32_bytes(count);
    let s = layout::marshal_selections(selections);
    let d = layout::tpm2b(pcr_digest);
    lemma_assoc(s, d, more);
    lemma_assoc(n, s + d, more);
    lemma_assoc(layout::marshal_header(header), layout::marshal_quote_info(quote), more);
    (quote, more)
}

/// A byte string is accepted exactly where it is what some quote is written
/// as.
pub proof fn law_accepted_iff_marshalled_quote(bytes: Seq<u8>)
    ensures
        layout::attest_outcome(bytes) is Ok <==> layout::is_marshalled_quote(bytes),
{
    if layout::is_marshalled_quote(bytes) {
        let quote = choose|quote: QuoteAttest|
            quote.wf() && bytes == #[trigger] layout::marshal(quote);
        law_marshalled_quote_is_accepted(quote);
    }
    if layout::attest_outcome(bytes) is Ok {
        let (quote, more) = lemma_read_to_end(bytes);
        lemma_quote_read(quote, more);
        assert(bytes =~= layout::marshal(quote));
    }
}

/// Trailing data is reported exactly where some quote is written as a proper
/// prefix of the byte string.
pub proof fn law_trailing_data_iff(bytes: Seq<u8>)
    ensures
        layout::attest_outcome(bytes) == Err::<AttestFields, _>(AttestError::TrailingData)
            <==> layout::has_trailing_bytes(bytes),
{
    if layout::has_trailing_bytes(bytes) {
        let quote = choose|quote: QuoteAttest|
            quote.wf() && layout::is_proper_prefix(#[trigger] layout::marshal(quote), bytes);
        let more = bytes.skip(layout::marshal(quote).len() as int);
        lemma_behind_prefix(layout::marshal(quote), bytes);
        lemma_quote_read(quote, more);
    }
    if layout::attest_outcome(bytes) == Err::<AttestFields, _>(AttestError::TrailingData) {
        let (quote, more) = lemma_read_to_end(bytes);
        lemma_quote_read(quote, more);
        lemma_appended_to(layout::marshal(quote), more);
        assert(layout::is_proper_prefix(layout::marshal(quote), bytes));
    }
}

/// The magic is refused exactly where it is all there and is not
/// TPM_GENERATED_VALUE.
pub proof fn law_magic_iff(bytes: Seq<u8>)
    ensures
        layout::attest_outcome(bytes) == Err::<AttestFields, _>(AttestError::Magic) <==> (
        bytes.len() >= 4 && bytes.take(4) != bytes::u32_bytes(TPM_GENERATED_VALUE)),
{
    if bytes.len() >= 4 {
        let magic = bytes::be_u32(bytes[0], bytes[1], bytes[2], bytes[3]);
        lemma_joined_u32(bytes);
        assert(bytes.take(4) =~= bytes::u32_bytes(magic));
        bytes::lemma_u32_decode_encode(TPM_GENERATED_VALUE);
    }
}

/// Something other than a quote is refused as such exactly where the magic
/// is right and the tag is all there and is not TPM_ST_ATTEST_QUOTE.
pub proof fn law_not_a_quote_iff(bytes: Seq<u8>)
    ensures
        layout::attest_outcome(bytes) == Err::<AttestFields, _>(AttestError::NotAQuote) <==> (
        bytes.len() >= 6 && bytes.take(4) == bytes::u32_bytes(TPM_GENERATED_VALUE)
            && bytes.subrange(4, 6) != bytes::u16_bytes(TPM_ST_ATTEST_QUOTE)),
{
    if bytes.len() >= 6 {
        law_magic_iff(bytes);
        let rest = bytes.skip(4);
        let tag = bytes::be_u16(rest[0], rest[1]);
        lemma_joined_u16(rest);
        assert(bytes.subrange(4, 6) =~= bytes::u16_bytes(tag));
        bytes::lemma_u16_decode_encode(TPM_ST_ATTEST_QUOTE);
    }
}

/// The count of PCR selections is refused exactly where a whole header is
/// followed by a whole count that is not accepted.
pub proof fn law_selection_count_iff(bytes: Seq<u8>)
    ensures
        layout::attest_outcome(bytes) == Err::<AttestFields, _>(AttestError::PcrSelectionCount)
            <==> layout::has_excessive_count(bytes),
{
    if layout::attest_outcome(bytes) == Err::<AttestFields, _>(AttestError::PcrSelectionCount) {
        let read = lemma_header_read(bytes);
        let (quote, info) = read->0;
        let (count, entries) = layout::split_u32(info)->0;
        lemma_joined_u32(info);
        let start = layout::marshal_header(quote) + bytes::u32_bytes(count);
        lemma_assoc(layout::marshal_header(quote), bytes::u32_bytes(count), entries);
        lemma_appended_to(start, entries);
    }
    if layout::has_excessive_count(bytes) {
        let (quote, count) = choose|quote: QuoteAttest, count: u32|
            quote.wf() && count > MAX_PCR_SELECTIONS && (#[trigger] layout::marshal_header(quote)
                + #[trigger] bytes::u32_bytes(count)).is_prefix_of(bytes);
        let start = layout::marshal_header(quote) + bytes::u32_bytes(count);
        let entries = bytes.skip(start.len() as int);
        lemma_behind_prefix(start, bytes);
        lemma_assoc(layout::marshal_header(quote), bytes::u32_bytes(count), entries);
        lemma_split_u32(count, entries);
        lemma_header_then(quote, bytes::u32_bytes(count) + entries);
    }
}

/// A verdict other than truncation is final: bytes appended later change no
/// refusal, and make an accepted byte string one with trailing data.
pub proof fn law_verdict_is_final(bytes: Seq<u8>, more: Seq<u8>)
    requires
        more.len() > 0,
    ensures
        match layout::attest_outcome(bytes) {
            Ok(_) => layout::attest_outcome(bytes + more) == Err::<AttestFields, _>(
                AttestError::TrailingData,
            ),
            Err(AttestError::Truncated) => true,
            Err(error) => layout::attest_outcome(bytes + more) == Err::<AttestFields, _>(error),
        },
{
    match layout::attest_outcome(bytes) {
        Ok(_) | Err(AttestError::TrailingData) => {
            let (quote, behind) = lemma_read_to_end(bytes);
            lemma_assoc(layout::marshal(quote), behind, more);
            lemma_quote_read(quote, behind + more);
        },
        Err(AttestError::Truncated) => {},
        Err(AttestError::Magic) => {
            law_magic_iff(bytes);
            law_magic_iff(bytes + more);
            assert((bytes + more).take(4) =~= bytes.take(4));
        },
        Err(AttestError::NotAQuote) => {
            law_not_a_quote_iff(bytes);
            law_not_a_quote_iff(bytes + more);
            assert((bytes + more).take(4) =~= bytes.take(4));
            assert((bytes + more).subrange(4, 6) =~= bytes.subrange(4, 6));
        },
        Err(AttestError::PcrSelectionCount) => {
            law_selection_count_iff(bytes);
            let (quote, count) = choose|quote: QuoteAttest, count: u32|
                quote.wf() && count > MAX_PCR_SELECTIONS && (#[trigger] layout::marshal_header(
                    quote,
                ) + #[trigger] bytes::u32_bytes(count)).is_prefix_of(bytes);
            let start = layout::marshal_header(quote) + bytes::u32_bytes(count);
            let behind = bytes.skip(start.len() as int);
            lemma_behind_prefix(start, bytes);
            lemma_assoc(start, behind, more);
            lemma_appended_to(start, behind + more);
            law_selection_count_iff(bytes + more);
        },
    }
}

/// A quote cut short anywhere is refused as truncated.
pub proof fn law_cut_short_is_truncated(quote: QuoteAttest, bytes: Seq<u8>)
    requires
        quote.wf(),
        layout::is_proper_prefix(bytes, layout::marshal(quote)),
    ensures
        layout::attest_outcome(bytes) == Err::<AttestFields, _>(AttestError::Truncated),
{
    let written = layout::marshal(quote);
    lemma_behind_prefix(bytes, written);
    law_marshalled_quote_is_accepted(quote);
    law_verdict_is_final(bytes, written.skip(bytes.len() as int));
}

/// What enough bytes are there for can be dropped.
proof fn lemma_enough_for_selections(s: Seq<u8>, count: nat)
    requires
        s.len() >= count * (3 + u8::MAX),
    ensures
        layout::drop_selections(s, count) matches Some(rest) && rest.len() >= s.len() - count * (3
            + u8::MAX),
    decreases count,
{
    if count > 0 {
        assert(count * (3 + u8::MAX) == (count - 1) * (3 + u8::MAX) + (3 + u8::MAX))
            by (nonlinear_arith);
        lemma_enough_for_selections(s.skip(3 + s[2]), (count - 1) as nat);
    }
}

/// Only what is shorter than the longest quote is refused as truncated.
pub proof fn law_truncated_is_short(bytes: Seq<u8>)
    requires
        layout::attest_outcome(bytes) == Err::<AttestFields, _>(AttestError::Truncated),
    ensures
        bytes.len() < layout::max_quote_len(),
{
    if bytes.len() >= layout::max_quote_len() {
        let (_, tagged) = layout::split_u32(bytes)->0;
        let (_, body) = layout::split_u16(tagged)->0;
        let (_, rest) = layout::split_tpm2b(body)->0;
        let (_, timing) = layout::split_tpm2b(rest)->0;
        let (count, entries) = layout::split_u32(timing.skip(25))->0;
        assert(entries.len() >= 16 * (3 + u8::MAX) + 2 + u16::MAX);
        if count <= MAX_PCR_SELECTIONS {
            assert(count * (3 + u8::MAX) <= 16 * (3 + u8::MAX)) by (nonlinear_arith)
                requires
                    count <= 16,
            ;
            lemma_enough_for_selections(entries, count as nat);
        }
    }
}

/// Truncation is the one refusal that more bytes can change: a refused byte
/// string is refused as truncated exactly where something can be appended so
/// that reading it comes out otherwise.
pub proof fn law_truncated_iff_more_bytes_matter(bytes: Seq<u8>)
    requires
        layout::attest_outcome(bytes) is Err,
    ensures
        layout::attest_outcome(bytes) == Err::<AttestFields, _>(AttestError::Truncated) <==> exists|
            more: Seq<u8>,
        | #[trigger] layout::attest_outcome(bytes + more) != layout::attest_outcome(bytes),
{
    if layout::attest_outcome(bytes) == Err::<AttestFields, _>(AttestError::Truncated) {
        let more = Seq::new(layout::max_quote_len(), |i: int| 0u8);
        if layout::attest_outcome(bytes + more) == Err::<AttestFields, _>(AttestError::Truncated) {
            law_truncated_is_short(bytes + more);
        }
        assert(layout::attest_outcome(bytes + more) != layout::attest_outcome(bytes));
    } else {
        assert forall|more: Seq<u8>| #[trigger]
            layout::attest_outcome(bytes + more) == layout::attest_outcome(bytes) by {
            if more.len() > 0 {
                law_verdict_is_final(bytes, more);
            } else {
                assert(bytes + more =~= bytes);
            }
        }
    }
}

/// What is appended to equal byte strings of one length is equal.
proof fn lemma_cancel(a: Seq<u8>, x: Seq<u8>, b: Seq<u8>, y: Seq<u8>)
    requires
        a.len() == b.len(),
        a + x == b + y,
    ensures
        a == b,
        x == y,
{
    assert((a + x).take(a.len() as int) =~= a);
    assert((b + y).take(b.len() as int) =~= b);
    assert((a + x).skip(a.len() as int) =~= x);
    assert((b + y).skip(b.len() as int) =~= y);
}

/// Equal buffers with something behind them have one payload.
proof fn lemma_tpm2b_unambiguous(a: Seq<u8>, x: Seq<u8>, b: Seq<u8>, y: Seq<u8>)
    requires
        a.len() <= u16::MAX,
        b.len() <= u16::MAX,
        layout::tpm2b(a) + x == layout::tpm2b(b) + y,
    ensures
        a == b,
        x == y,
{
    lemma_split_tpm2b(a, x);
    lemma_split_tpm2b(b, y);
}

/// Equal selection lists with something behind them are one list.
proof fn lemma_selections_unambiguous(
    a: Seq<PcrSelection>,
    x: Seq<u8>,
    b: Seq<PcrSelection>,
    y: Seq<u8>,
)
    requires
        a.len() == b.len(),
        forall|i: int| 0 <= i < a.len() ==> (#[trigger] a[i]).wf(),
        forall|i: int| 0 <= i < b.len() ==> (#[trigger] b[i]).wf(),
        layout::marshal_selections(a) + x == layout::marshal_selections(b) + y,
    ensures
        a == b,
        x == y,
    decreases a.len(),
{
    if a.len() == 0 {
        assert(a =~= b);
        assert(layout::marshal_selections(a) + x =~= x);
        assert(layout::marshal_selections(b) + y =~= y);
    } else {
        let a_others = layout::marshal_selections(a.skip(1));
        let b_others = layout::marshal_selections(b.skip(1));
        lemma_assoc(layout::marshal_selection(a[0]), a_others, x);
        lemma_assoc(layout::marshal_selection(b[0]), b_others, y);
        lemma_selection_unambiguous(a[0], a_others + x, b[0], b_others + y);
        lemma_selections_unambiguous(a.skip(1), x, b.skip(1), y);
        assert(a =~= seq![a[0]] + a.skip(1));
        assert(b =~= seq![b[0]] + b.skip(1));
    }
}

/// Equal selections with something behind them are one selection.
proof fn lemma_selection_unambiguous(a: PcrSelection, x: Seq<u8>, b: PcrSelection, y: Seq<u8>)
    requires
        a.wf(),
        b.wf(),
        layout::marshal_selection(a) + x == layout::marshal_selection(b) + y,
    ensures
        a == b,
        x == y,
{
    let whole = layout::marshal_selection(a) + x;
    assert(whole[2] == a.pcr_select.len());
    assert((layout::marshal_selection(b) + y)[2] == b.pcr_select.len());
    lemma_cancel(layout::marshal_selection(a), x, layout::marshal_selection(b), y);
    let a_start = bytes::u16_bytes(a.hash_alg) + seq![a.pcr_select.len() as u8];
    let b_start = bytes::u16_bytes(b.hash_alg) + seq![b.pcr_select.len() as u8];
    lemma_cancel(a_start, a.pcr_select, b_start, b.pcr_select);
    lemma_cancel(
        bytes::u16_bytes(a.hash_alg),
        seq![a.pcr_select.len() as u8],
        bytes::u16_bytes(b.hash_alg),
        seq![b.pcr_select.len() as u8],
    );
    bytes::lemma_u16_decode_encode(a.hash_alg);
    bytes::lemma_u16_decode_encode(b.hash_alg);
}

/// No two quotes are written alike.
proof fn lemma_marshal_injective(a: QuoteAttest, b: QuoteAttest)
    requires
        a.wf(),
        b.wf(),
        layout::marshal(a) == layout::marshal(b),
    ensures
        a == b,
{
    let a_info = layout::marshal_quote_info(a);
    let b_info = layout::marshal_quote_info(b);
    let a_timing = a.clock_info + a.firmware_version;
    let b_timing = b.clock_info + b.firmware_version;
    let a_extra = layout::tpm2b(a.extra_data);
    let b_extra = layout::tpm2b(b.extra_data);
    let a_signer = layout::tpm2b(a.qualified_signer);
    let b_signer = layout::tpm2b(b.qualified_signer);
    lemma_assoc(layout::quote_tag(), a_signer + (a_extra + a_timing), a_info);
    lemma_assoc(layout::quote_tag(), b_signer + (b_extra + b_timing), b_info);
    lemma_assoc(a_signer, a_extra + a_timing, a_info);
    lemma_assoc(b_signer, b_extra + b_timing, b_info);
    lemma_assoc(a_extra, a_timing, a_info);
    lemma_assoc(b_extra, b_timing, b_info);
    lemma_cancel(
        layout::quote_tag(),
        a_signer + (a_extra + (a_timing + a_info)),
        layout::quote_tag(),
        b_signer + (b_extra + (b_timing + b_info)),
    );
    lemma_tpm2b_unambiguous(
        a.qualified_signer,
        a_extra + (a_timing + a_info),
        b.qualified_signer,
        b_extra + (b_timing + b_info),
    );
    lemma_tpm2b_unambiguous(a.extra_data, a_timing + a_info, b.extra_data, b_timing + b_info);
    lemma_cancel(a_timing, a_info, b_timing, b_info);
    lemma_cancel(a.clock_info, a.firmware_version, b.clock_info, b.firmware_version);
    lemma_quote_info_injective(a, b);
}

/// No two counts, lists of PCR selections and digests are written alike.
proof fn lemma_quote_info_injective(a: QuoteAttest, b: QuoteAttest)
    requires
        a.wf(),
        b.wf(),
        layout::marshal_quote_info(a) == layout::marshal_quote_info(b),
    ensures
        a.pcr_selections == b.pcr_selections,
        a.pcr_digest == b.pcr_digest,
{
    let a_digest = layout::tpm2b(a.pcr_digest);
    let b_digest = layout::tpm2b(b.pcr_digest);
    let a_entries = layout::marshal_selections(a.pcr_selections) + a_digest;
    let b_entries = layout::marshal_selections(b.pcr_selections) + b_digest;
    lemma_split_u32(a.pcr_selections.len() as u32, a_entries);
    lemma_split_u32(b.pcr_selections.len() as u32, b_entries);
    lemma_selections_unambiguous(a.pcr_selections, a_digest, b.pcr_selections, b_digest);
    let none = Seq::<u8>::empty();
    assert(a_digest + none =~= a_digest);
    assert(b_digest + none =~= b_digest);
    lemma_tpm2b_unambiguous(a.pcr_digest, none, b.pcr_digest, none);
}

/// The format is unambiguous: no two quotes are written alike, and none is
/// written as the beginning of another.
pub proof fn law_format_is_unambiguous(a: QuoteAttest, b: QuoteAttest)
    requires
        a.wf(),
        b.wf(),
        layout::marshal(a).is_prefix_of(layout::marshal(b)),
    ensures
        a == b,
{
    if layout::marshal(a).len() < layout::marshal(b).len() {
        law_cut_short_is_truncated(b, layout::marshal(a));
        law_marshalled_quote_is_accepted(a);
    } else {
        lemma_behind_prefix(layout::marshal(a), layout::marshal(b));
        assert(layout::marshal(a) == layout::marshal(b)) by {
            assert(layout::marshal(b).take(layout::marshal(b).len() as int) =~= layout::marshal(b));
        }
        lemma_marshal_injective(a, b);
    }
}

} // verus!
