//! The marshalled form of a quote, byte by byte.
//!
//! These laws say what reading a byte string as a quote gives without any
//! vocabulary of the format: in terms of the bytes themselves. A PCR selection
//! is a byte string here: two bytes of hash algorithm, one byte of size, and
//! that many bytes.

use vstd::prelude::*;

use crate::azure::layout;
use crate::azure::layout::{AttestFields, PcrSelection, QuoteAttest};
use crate::azure::laws;
use crate::azure::tpms_attest::{AttestError, TPM_GENERATED_VALUE, TPM_ST_ATTEST_QUOTE};
use crate::bytes;

verus! {

// ---- writing ----

/// A 16-bit integer is written as its two bytes, the more significant first.
pub proof fn law_u16_bytes(n: u16)
    ensures
        bytes::u16_bytes(n).len() == 2,
        0x100 * bytes::u16_bytes(n)[0] + bytes::u16_bytes(n)[1] == n,
{
}

/// A 32-bit integer is written as its four bytes, the most significant first.
pub proof fn law_u32_bytes(n: u32)
    ensures
        bytes::u32_bytes(n).len() == 4,
        0x100_0000 * bytes::u32_bytes(n)[0] + 0x1_0000 * bytes::u32_bytes(n)[1] + 0x100
            * bytes::u32_bytes(n)[2] + bytes::u32_bytes(n)[3] == n,
{
}

/// PCR selections are written one after the other, each as its algorithm, the
/// size of its bit map, and its bit map.
pub proof fn law_marshalled_selections(selections: Seq<PcrSelection>)
    ensures
        layout::marshal_selections(selections) == selections.map_values(
            |selection: PcrSelection|
                seq![
                    (selection.hash_alg / 0x100) as u8,
                    (selection.hash_alg % 0x100) as u8,
                    selection.pcr_select.len() as u8,
                ] + selection.pcr_select,
        ).flatten(),
    decreases selections.len(),
{
    let rows = selections.map_values(
        |selection: PcrSelection|
            seq![
                (selection.hash_alg / 0x100) as u8,
                (selection.hash_alg % 0x100) as u8,
                selection.pcr_select.len() as u8,
            ] + selection.pcr_select,
    );
    if selections.len() > 0 {
        let others = selections.skip(1);
        law_marshalled_selections(others);
        assert(rows.drop_first() =~= others.map_values(
            |selection: PcrSelection|
                seq![
                    (selection.hash_alg / 0x100) as u8,
                    (selection.hash_alg % 0x100) as u8,
                    selection.pcr_select.len() as u8,
                ] + selection.pcr_select,
        ));
        assert(rows.first() =~= layout::marshal_selection(selections[0]));
    }
}

/// Byte strings in a row, however they are grouped.
proof fn lemma_regroup(
    tag: Seq<u8>,
    a: Seq<u8>,
    signer: Seq<u8>,
    b: Seq<u8>,
    extra: Seq<u8>,
    timing: Seq<u8>,
    info: Seq<u8>,
)
    ensures
        tag + a + signer + b + extra + timing + info == (tag + ((a + signer) + ((b + extra)
            + timing))) + info,
{
    assert(tag + a + signer + b + extra + timing + info =~= (tag + ((a + signer) + ((b + extra)
        + timing))) + info);
}

/// Byte strings in a row, however they are grouped.
proof fn lemma_regroup_info(
    header: Seq<u8>,
    count: Seq<u8>,
    entries: Seq<u8>,
    d: Seq<u8>,
    digest: Seq<u8>,
    more: Seq<u8>,
)
    ensures
        header + count + entries + d + digest + more == (header + (count + (entries + (d
            + digest)))) + more,
{
    assert(header + count + entries + d + digest + more =~= (header + (count + (entries + (d
        + digest)))) + more);
}

/// What the tag of a quote is written as.
proof fn lemma_quote_tag()
    ensures
        layout::quote_tag() == seq![0xffu8, 0x54, 0x43, 0x47, 0x80, 0x18],
{
    assert(layout::quote_tag() =~= seq![0xffu8, 0x54, 0x43, 0x47, 0x80, 0x18]);
}

/// What the size of a buffer is written as.
proof fn lemma_size(n: nat)
    requires
        n <= 0xffff,
    ensures
        bytes::u16_bytes(n as u16) == seq![(n / 0x100) as u8, (n % 0x100) as u8],
{
    assert(bytes::u16_bytes(n as u16) =~= seq![(n / 0x100) as u8, (n % 0x100) as u8]);
}

/// What a small count is written as.
proof fn lemma_count(n: nat)
    requires
        n <= 16,
    ensures
        bytes::u32_bytes(n as u32) == seq![0u8, 0, 0, n as u8],
{
    assert(bytes::u32_bytes(n as u32) =~= seq![0u8, 0, 0, n as u8]);
}

/// What a header is written as.
proof fn lemma_header_bytes(quote: QuoteAttest)
    requires
        quote.wf(),
    ensures
        layout::marshal_header(quote) == seq![0xffu8, 0x54, 0x43, 0x47, 0x80, 0x18] + seq![
            (quote.qualified_signer.len() / 0x100) as u8,
            (quote.qualified_signer.len() % 0x100) as u8,
        ] + quote.qualified_signer + seq![
            (quote.extra_data.len() / 0x100) as u8,
            (quote.extra_data.len() % 0x100) as u8,
        ] + quote.extra_data + (quote.clock_info + quote.firmware_version),
{
    lemma_quote_tag();
    lemma_size(quote.qualified_signer.len());
    lemma_size(quote.extra_data.len());
    let none = Seq::<u8>::empty();
    let a = bytes::u16_bytes(quote.qualified_signer.len() as u16);
    let b = bytes::u16_bytes(quote.extra_data.len() as u16);
    let timing = quote.clock_info + quote.firmware_version;
    lemma_regroup(
        layout::quote_tag(),
        a,
        quote.qualified_signer,
        b,
        quote.extra_data,
        timing,
        none,
    );
    let row = layout::quote_tag() + a + quote.qualified_signer + b + quote.extra_data + timing;
    assert(row + none =~= row);
    assert(layout::marshal_header(quote) + none =~= layout::marshal_header(quote));
}

/// What a quote with `more` behind it is written as.
proof fn lemma_quote_bytes(quote: QuoteAttest, more: Seq<u8>)
    requires
        quote.wf(),
    ensures
        layout::marshal(quote) + more == layout::marshal_header(quote) + seq![
            0u8,
            0,
            0,
            quote.pcr_selections.len() as u8,
        ] + layout::marshal_selections(quote.pcr_selections) + seq![
            (quote.pcr_digest.len() / 0x100) as u8,
            (quote.pcr_digest.len() % 0x100) as u8,
        ] + quote.pcr_digest + more,
{
    lemma_count(quote.pcr_selections.len());
    lemma_size(quote.pcr_digest.len());
    lemma_regroup_info(
        layout::marshal_header(quote),
        bytes::u32_bytes(quote.pcr_selections.len() as u32),
        layout::marshal_selections(quote.pcr_selections),
        bytes::u16_bytes(quote.pcr_digest.len() as u16),
        quote.pcr_digest,
        more,
    );
}

/// A quote can be written exactly where its buffers fit behind 16-bit sizes,
/// its bit maps behind 8-bit ones, its clock and firmware version have 17 and
/// 8 bytes, and it has at most 16 PCR selections.
pub proof fn law_writable_quotes(quote: QuoteAttest)
    ensures
        quote.wf() <==> {
            &&& quote.qualified_signer.len() <= 0xffff
            &&& quote.extra_data.len() <= 0xffff
            &&& quote.clock_info.len() == 17
            &&& quote.firmware_version.len() == 8
            &&& quote.pcr_selections.len() <= 16
            &&& forall|i: int|
                0 <= i < quote.pcr_selections.len() ==> (
                #[trigger] quote.pcr_selections[i]).pcr_select.len() <= 0xff
            &&& quote.pcr_digest.len() <= 0xffff
        },
{
    if forall|i: int|
        0 <= i < quote.pcr_selections.len() ==> (
        #[trigger] quote.pcr_selections[i]).pcr_select.len() <= 0xff {
        assert forall|i: int| 0 <= i < quote.pcr_selections.len() implies (
        #[trigger] quote.pcr_selections[i]).wf() by {}
    }
    if quote.wf() {
        assert forall|i: int| 0 <= i < quote.pcr_selections.len() implies (
        #[trigger] quote.pcr_selections[i]).pcr_select.len() <= 0xff by {
            assert(quote.pcr_selections[i].wf());
        }
    }
}

/// What a quote is written as, byte by byte. [`law_marshalled_selections`]
/// says the same of its PCR selections.
pub proof fn law_marshalled_quote(quote: QuoteAttest)
    requires
        quote.wf(),
    ensures
        layout::marshal(quote) == seq![0xffu8, 0x54, 0x43, 0x47, 0x80, 0x18] + seq![
            (quote.qualified_signer.len() / 0x100) as u8,
            (quote.qualified_signer.len() % 0x100) as u8,
        ] + quote.qualified_signer + seq![
            (quote.extra_data.len() / 0x100) as u8,
            (quote.extra_data.len() % 0x100) as u8,
        ] + quote.extra_data + (quote.clock_info + quote.firmware_version) + seq![
            0u8,
            0,
            0,
            quote.pcr_selections.len() as u8,
        ] + layout::marshal_selections(quote.pcr_selections) + seq![
            (quote.pcr_digest.len() / 0x100) as u8,
            (quote.pcr_digest.len() % 0x100) as u8,
        ] + quote.pcr_digest,
{
    let none = Seq::<u8>::empty();
    let info = layout::marshal_header(quote) + seq![
        0u8,
        0,
        0,
        quote.pcr_selections.len() as u8,
    ] + layout::marshal_selections(quote.pcr_selections) + seq![
        (quote.pcr_digest.len() / 0x100) as u8,
        (quote.pcr_digest.len() % 0x100) as u8,
    ] + quote.pcr_digest;
    lemma_header_bytes(quote);
    lemma_quote_bytes(quote, none);
    lemma_nothing_behind(layout::marshal(quote));
    lemma_nothing_behind(info);
}

/// Nothing behind a byte string is no difference.
pub(crate) proof fn lemma_nothing_behind(s: Seq<u8>)
    ensures
        s + Seq::<u8>::empty() == s,
{
    assert(s + Seq::<u8>::empty() =~= s);
}

/// The selections that rows of bytes are.
spec fn as_selections(rows: Seq<Seq<u8>>) -> Seq<PcrSelection> {
    rows.map_values(
        |row: Seq<u8>|
            PcrSelection { hash_alg: bytes::be_u16(row[0], row[1]), pcr_select: row.skip(3) },
    )
}

/// Rows of bytes are what their selections are written as.
proof fn lemma_as_selections(rows: Seq<Seq<u8>>)
    requires
        forall|i: int|
            0 <= i < rows.len() ==> (#[trigger] rows[i]).len() >= 3 && rows[i].len() == 3
                + rows[i][2],
    ensures
        layout::marshal_selections(as_selections(rows)) == rows.flatten(),
        forall|i: int|
            0 <= i < rows.len() ==> (#[trigger] as_selections(rows)[i]).wf(),
    decreases rows.len(),
{
    let selections = as_selections(rows);
    assert forall|i: int| 0 <= i < rows.len() implies (#[trigger] selections[i]).wf() by {
        assert(rows[i].len() == 3 + rows[i][2]);
    }
    if rows.len() > 0 {
        let row = rows[0];
        let others = rows.drop_first();
        assert forall|i: int| 0 <= i < others.len() implies (#[trigger] others[i]).len() >= 3
            && others[i].len() == 3 + others[i][2] by {
            assert(others[i] == rows[i + 1]);
        }
        lemma_as_selections(others);
        assert(selections.skip(1) =~= as_selections(others));
        bytes::lemma_u16_encode_decode(row[0], row[1]);
        assert(layout::marshal_selection(selections[0]) =~= row);
    }
}

/// The rows of bytes that selections are written as.
proof fn lemma_as_rows(selections: Seq<PcrSelection>) -> (rows: Seq<Seq<u8>>)
    requires
        forall|i: int| 0 <= i < selections.len() ==> (#[trigger] selections[i]).wf(),
    ensures
        rows.len() == selections.len(),
        rows.flatten() == layout::marshal_selections(selections),
        forall|i: int|
            0 <= i < rows.len() ==> (#[trigger] rows[i]).len() >= 3 && rows[i].len() == 3
                + rows[i][2],
    decreases selections.len(),
{
    if selections.len() == 0 {
        Seq::empty()
    } else {
        let others = lemma_as_rows(selections.skip(1));
        let row = layout::marshal_selection(selections[0]);
        let rows = seq![row] + others;
        assert(rows.drop_first() =~= others);
        assert(selections[0].wf());
        assert forall|i: int| 0 <= i < rows.len() implies (#[trigger] rows[i]).len() >= 3
            && rows[i].len() == 3 + rows[i][2] by {
            if i > 0 {
                assert(rows[i] == others[i - 1]);
            }
        }
        rows
    }
}

// ---- reading ----

/// Reading gives the nonce and the digest as they stand in a quote: the magic
/// and tag, then the signer's name and the nonce, each behind its size, 25
/// bytes of clock and firmware version, the number of PCR selections and
/// these, then the digest behind its size. With more bytes behind all that,
/// they are reported as trailing.
pub proof fn law_quote_bytes_are_read(
    signer: Seq<u8>,
    extra_data: Seq<u8>,
    timing: Seq<u8>,
    selections: Seq<Seq<u8>>,
    pcr_digest: Seq<u8>,
    more: Seq<u8>,
)
    requires
        signer.len() <= 0xffff,
        extra_data.len() <= 0xffff,
        timing.len() == 25,
        selections.len() <= 16,
        forall|i: int|
            0 <= i < selections.len() ==> (#[trigger] selections[i]).len() >= 3
                && selections[i].len() == 3 + selections[i][2],
        pcr_digest.len() <= 0xffff,
    ensures
        ({
            let outcome = layout::attest_outcome(
                seq![0xffu8, 0x54, 0x43, 0x47, 0x80, 0x18] + seq![
                    (signer.len() / 0x100) as u8,
                    (signer.len() % 0x100) as u8,
                ] + signer + seq![
                    (extra_data.len() / 0x100) as u8,
                    (extra_data.len() % 0x100) as u8,
                ] + extra_data + timing + seq![0u8, 0, 0, selections.len() as u8]
                    + selections.flatten() + seq![
                    (pcr_digest.len() / 0x100) as u8,
                    (pcr_digest.len() % 0x100) as u8,
                ] + pcr_digest + more,
            );
            if more.len() == 0 {
                &&& outcome matches Ok(fields)
                &&& fields.extra_data == extra_data
                &&& fields.pcr_digest == pcr_digest
            } else {
                outcome == Err::<AttestFields, _>(AttestError::TrailingData)
            }
        }),
{
    let quote = QuoteAttest {
        qualified_signer: signer,
        extra_data,
        clock_info: timing.take(17),
        firmware_version: timing.skip(17),
        pcr_selections: as_selections(selections),
        pcr_digest,
    };
    lemma_as_selections(selections);
    assert(timing =~= quote.clock_info + quote.firmware_version);
    lemma_header_bytes(quote);
    lemma_quote_bytes(quote, more);
    laws::lemma_quote_read(quote, more);
}

/// The parts of what a quote with `more` behind it is written as.
proof fn lemma_parts(quote: QuoteAttest, more: Seq<u8>) -> (selections: Seq<Seq<u8>>)
    requires
        quote.wf(),
    ensures
        selections.len() == quote.pcr_selections.len(),
        forall|i: int|
            0 <= i < selections.len() ==> (#[trigger] selections[i]).len() >= 3
                && selections[i].len() == 3 + selections[i][2],
        layout::marshal(quote) + more == seq![0xffu8, 0x54, 0x43, 0x47, 0x80, 0x18] + seq![
            (quote.qualified_signer.len() / 0x100) as u8,
            (quote.qualified_signer.len() % 0x100) as u8,
        ] + quote.qualified_signer + seq![
            (quote.extra_data.len() / 0x100) as u8,
            (quote.extra_data.len() % 0x100) as u8,
        ] + quote.extra_data + (quote.clock_info + quote.firmware_version) + seq![
            0u8,
            0,
            0,
            selections.len() as u8,
        ] + selections.flatten() + seq![
            (quote.pcr_digest.len() / 0x100) as u8,
            (quote.pcr_digest.len() % 0x100) as u8,
        ] + quote.pcr_digest + more,
{
    lemma_header_bytes(quote);
    lemma_quote_bytes(quote, more);
    lemma_as_rows(quote.pcr_selections)
}

/// Whether anything is behind a quote decides whether it is accepted.
proof fn lemma_accepted_alone(quote: QuoteAttest, more: Seq<u8>)
    requires
        quote.wf(),
    ensures
        layout::attest_outcome(layout::marshal(quote) + more) is Ok <==> more.len() == 0,
{
    laws::lemma_quote_read(quote, more);
}

/// Nothing else is accepted, and nothing else is reported as trailing data:
/// what is read to its end is built up as in [`law_quote_bytes_are_read`]. The
/// law gives the parts, and what is behind them.
pub proof fn law_read_bytes_are_a_quote(bytes: Seq<u8>) -> (parts: (
    Seq<u8>,
    Seq<u8>,
    Seq<u8>,
    Seq<Seq<u8>>,
    Seq<u8>,
    Seq<u8>,
))
    requires
        layout::attest_outcome(bytes) is Ok || layout::attest_outcome(bytes) == Err::<
            AttestFields,
            _,
        >(AttestError::TrailingData),
    ensures
        ({
            let (signer, extra_data, timing, selections, pcr_digest, more) = parts;
            &&& signer.len() <= 0xffff
            &&& extra_data.len() <= 0xffff
            &&& timing.len() == 25
            &&& selections.len() <= 16
            &&& forall|i: int|
                0 <= i < selections.len() ==> (#[trigger] selections[i]).len() >= 3
                    && selections[i].len() == 3 + selections[i][2]
            &&& pcr_digest.len() <= 0xffff
            &&& bytes == seq![0xffu8, 0x54, 0x43, 0x47, 0x80, 0x18] + seq![
                (signer.len() / 0x100) as u8,
                (signer.len() % 0x100) as u8,
            ] + signer + seq![
                (extra_data.len() / 0x100) as u8,
                (extra_data.len() % 0x100) as u8,
            ] + extra_data + timing + seq![0u8, 0, 0, selections.len() as u8]
                + selections.flatten() + seq![
                (pcr_digest.len() / 0x100) as u8,
                (pcr_digest.len() % 0x100) as u8,
            ] + pcr_digest + more
            &&& layout::attest_outcome(bytes) is Ok <==> more.len() == 0
        }),
{
    let (quote, more) = laws::lemma_read_to_end(bytes);
    let selections = lemma_parts(quote, more);
    lemma_accepted_alone(quote, more);
    (
        quote.qualified_signer,
        quote.extra_data,
        quote.clock_info + quote.firmware_version,
        selections,
        quote.pcr_digest,
        more,
    )
}

/// The magic is refused exactly where its four bytes are there and are not
/// `ff 54 43 47`.
pub proof fn law_magic_bytes(bytes: Seq<u8>)
    ensures
        layout::attest_outcome(bytes) == Err::<AttestFields, _>(AttestError::Magic) <==> (
        bytes.len() >= 4 && bytes.take(4) != seq![0xffu8, 0x54, 0x43, 0x47]),
{
    laws::law_magic_iff(bytes);
    assert(bytes::u32_bytes(TPM_GENERATED_VALUE) =~= seq![0xffu8, 0x54, 0x43, 0x47]);
}

/// Something other than a quote is refused as such exactly where the magic is
/// right and the two bytes behind it are there and are not `80 18`.
pub proof fn law_tag_bytes(bytes: Seq<u8>)
    ensures
        layout::attest_outcome(bytes) == Err::<AttestFields, _>(AttestError::NotAQuote) <==> (
        bytes.len() >= 6 && bytes.take(4) == seq![0xffu8, 0x54, 0x43, 0x47] && bytes.subrange(4, 6)
            != seq![0x80u8, 0x18]),
{
    laws::law_not_a_quote_iff(bytes);
    assert(bytes::u32_bytes(TPM_GENERATED_VALUE) =~= seq![0xffu8, 0x54, 0x43, 0x47]);
    assert(bytes::u16_bytes(TPM_ST_ATTEST_QUOTE) =~= seq![0x80u8, 0x18]);
}

/// A count of more than 16 PCR selections is refused as such, whatever is
/// behind it.
pub proof fn law_large_count_is_refused(
    signer: Seq<u8>,
    extra_data: Seq<u8>,
    timing: Seq<u8>,
    count: Seq<u8>,
    behind: Seq<u8>,
)
    requires
        signer.len() <= 0xffff,
        extra_data.len() <= 0xffff,
        timing.len() == 25,
        count.len() == 4,
        0x100_0000 * count[0] + 0x1_0000 * count[1] + 0x100 * count[2] + count[3] > 16,
    ensures
        layout::attest_outcome(
            seq![0xffu8, 0x54, 0x43, 0x47, 0x80, 0x18] + seq![
                (signer.len() / 0x100) as u8,
                (signer.len() % 0x100) as u8,
            ] + signer + seq![
                (extra_data.len() / 0x100) as u8,
                (extra_data.len() % 0x100) as u8,
            ] + extra_data + timing + count + behind,
        ) == Err::<AttestFields, _>(AttestError::PcrSelectionCount),
{
    let quote = laws::header_only(signer, extra_data, timing.take(17), timing.skip(17));
    let n = bytes::be_u32(count[0], count[1], count[2], count[3]);
    assert(timing =~= quote.clock_info + quote.firmware_version);
    lemma_header_bytes(quote);
    bytes::lemma_u32_encode_decode(count[0], count[1], count[2], count[3]);
    assert(count =~= bytes::u32_bytes(n));
    laws::lemma_assoc(layout::marshal_header(quote), count, behind);
    laws::lemma_split_u32(n, behind);
    laws::lemma_header_then(quote, count + behind);
}

/// Nothing else is refused for its count: the law gives the parts of what is,
/// built up as in [`law_large_count_is_refused`].
pub proof fn law_refused_count_is_large(bytes: Seq<u8>) -> (parts: (
    Seq<u8>,
    Seq<u8>,
    Seq<u8>,
    Seq<u8>,
    Seq<u8>,
))
    requires
        layout::attest_outcome(bytes) == Err::<AttestFields, _>(AttestError::PcrSelectionCount),
    ensures
        ({
            let (signer, extra_data, timing, count, behind) = parts;
            &&& signer.len() <= 0xffff
            &&& extra_data.len() <= 0xffff
            &&& timing.len() == 25
            &&& count.len() == 4
            &&& 0x100_0000 * count[0] + 0x1_0000 * count[1] + 0x100 * count[2] + count[3] > 16
            &&& bytes == seq![0xffu8, 0x54, 0x43, 0x47, 0x80, 0x18] + seq![
                (signer.len() / 0x100) as u8,
                (signer.len() % 0x100) as u8,
            ] + signer + seq![
                (extra_data.len() / 0x100) as u8,
                (extra_data.len() % 0x100) as u8,
            ] + extra_data + timing + count + behind
        }),
{
    let read = laws::lemma_header_read(bytes);
    let (quote, info) = read->0;
    let count = info.take(4);
    let behind = info.skip(4);
    assert(count.len() == 4);
    lemma_header_bytes(quote);
    assert(info =~= count + behind);
    laws::lemma_assoc(layout::marshal_header(quote), count, behind);
    (
        quote.qualified_signer,
        quote.extra_data,
        quote.clock_info + quote.firmware_version,
        count,
        behind,
    )
}

} // verus!
