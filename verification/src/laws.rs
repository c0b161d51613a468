//! What holds of the decoder as a whole, proved from the wire format and
//! from the contracts of the decoding functions.

use vstd::prelude::*;
use vstd::utf8::valid_utf8;
use crate::bytes::{checksum, u16_le, u32_le, zeros};
use crate::error::{TNEFError, TNEFResult};
use crate::source::{absorb_all, is_stream_result, ReadOutcome, StreamStep};
use crate::tnef::{is_decode_of, TNEFFile};
use crate::utils::{is_bytes_of, is_text_of};
use crate::wire::{
    apply_block,
    blocks_spec,
    decimal,
    decode_spec,
    empty_document,
    is_document,
    is_known_tag,
    DocumentView,
    SIGNATURE,
};

verus! {

/// Whether a whole block stands at `pos`: nine bytes of header, a length
/// that is not zero, and room for the payload and the checksum.
pub open spec fn block_fits(bytes: Seq<u8>, pos: int) -> bool {
    &&& 0 <= pos
    &&& pos + 9 <= bytes.len()
    &&& u32_le(bytes, pos + 5) != 0
    &&& pos + 11 + u32_le(bytes, pos + 5) <= bytes.len()
}

/// The payload of the block at `pos`.
pub open spec fn payload_at(bytes: Seq<u8>, pos: int) -> Seq<u8> {
    bytes.subrange(pos + 9, pos + 9 + u32_le(bytes, pos + 5))
}

/// Whether the checksum that the block at `pos` carries is the checksum of
/// its payload.
pub open spec fn checksum_matches(bytes: Seq<u8>, pos: int) -> bool {
    checksum(payload_at(bytes, pos)) == u16_le(bytes, pos + 9 + u32_le(bytes, pos + 5))
}

/// The document that the decoder holds when it arrives at `to`, having
/// started at `from` with `doc`. Nothing where it does not arrive there:
/// where `to` is not the start of a block, or a block on the way fails.
pub open spec fn document_at(bytes: Seq<u8>, from: int, doc: DocumentView, to: int) -> Option<
    DocumentView,
>
    decreases bytes.len() - from,
{
    if from == to {
        Some(doc)
    } else if from > to || !block_fits(bytes, from) || !checksum_matches(bytes, from) {
        None
    } else {
        match apply_block(
            doc,
            bytes[from],
            u32_le(bytes, from + 1) as u32,
            payload_at(bytes, from),
        ) {
            Err(_) => None,
            Ok(next) => document_at(bytes, from + 11 + u32_le(bytes, from + 5), next, to),
        }
    }
}

/// Whether the stream starts as a stream must, and the decoder arrives at
/// `pos` with `doc`.
pub open spec fn decoder_arrives(bytes: Seq<u8>, pos: int, doc: DocumentView) -> bool {
    &&& bytes.len() >= 6
    &&& u32_le(bytes, 0) == SIGNATURE
    &&& document_at(bytes, 6, empty_document(), pos) == Some(doc)
}

/// Decoding from `from` goes through every place at which the decoder
/// arrives: it gives what decoding from there gives.
pub proof fn lemma_decoding_goes_on(bytes: Seq<u8>, from: int, doc: DocumentView, to: int)
    requires
        document_at(bytes, from, doc, to) is Some,
    ensures
        blocks_spec(bytes, from, doc) == blocks_spec(
            bytes,
            to,
            document_at(bytes, from, doc, to)->Some_0,
        ),
    decreases bytes.len() - from,
{
    if from != to {
        let next = apply_block(
            doc,
            bytes[from],
            u32_le(bytes, from + 1) as u32,
            payload_at(bytes, from),
        )->Ok_0;
        lemma_decoding_goes_on(bytes, from + 11 + u32_le(bytes, from + 5), next, to);
    }
}

/// A stream whose first four bytes are not the signature is not a TNEF
/// stream, whatever follows.
pub proof fn lemma_corrupted_signature(bytes: Seq<u8>)
    requires
        bytes.len() >= 4,
        u32_le(bytes, 0) != SIGNATURE,
    ensures
        decode_spec(bytes) == Err::<DocumentView, TNEFError>(TNEFError::NotTnefStream),
{
}

/// A stream that ends within the signature cannot be read; one that ends
/// behind a good signature, within the key, has no key.
pub proof fn lemma_cut_in_the_preamble(bytes: Seq<u8>)
    ensures
        bytes.len() < 4 ==> decode_spec(bytes) == Err::<DocumentView, TNEFError>(
            TNEFError::ErrorReadingData,
        ),
        4 <= bytes.len() < 6 && u32_le(bytes, 0) == SIGNATURE ==> decode_spec(bytes) == Err::<
            DocumentView,
            TNEFError,
        >(TNEFError::NoKey),
{
}

/// A stream in which the decoder arrives at a whole block whose checksum is
/// not that of its payload has a bad checksum: the first block, or any
/// block behind blocks that are good.
pub proof fn lemma_tampered_checksum(bytes: Seq<u8>, pos: int, doc: DocumentView)
    requires
        decoder_arrives(bytes, pos, doc),
        block_fits(bytes, pos),
        !checksum_matches(bytes, pos),
    ensures
        decode_spec(bytes) == Err::<DocumentView, TNEFError>(TNEFError::BadChecksum),
{
    lemma_decoding_goes_on(bytes, 6, empty_document(), pos);
}

/// A stream in which the decoder arrives at a block that is cut short, in
/// its header, its payload or its checksum, is an error reading data: there
/// is no document of the blocks before it.
pub proof fn lemma_truncated_stream(bytes: Seq<u8>, pos: int, doc: DocumentView)
    requires
        decoder_arrives(bytes, pos, doc),
        pos < bytes.len(),
        pos + 9 > bytes.len() || pos + 11 + u32_le(bytes, pos + 5) > bytes.len(),
    ensures
        decode_spec(bytes) == Err::<DocumentView, TNEFError>(TNEFError::ErrorReadingData),
{
    lemma_decoding_goes_on(bytes, 6, empty_document(), pos);
}

/// A stream that ends where the decoder arrives holds the document that
/// the decoder has there.
pub proof fn lemma_whole_stream(bytes: Seq<u8>, doc: DocumentView)
    requires
        decoder_arrives(bytes, bytes.len() as int, doc),
    ensures
        decode_spec(bytes) == Ok::<DocumentView, TNEFError>(doc),
{
    lemma_decoding_goes_on(bytes, 6, empty_document(), bytes.len() as int);
}

/// A block whose tag the decoder does not know at its level is skipped: it
/// leaves the document as it is, whatever its payload.
pub proof fn lemma_unknown_tag_is_skipped(
    doc: DocumentView,
    level: u8,
    tag: u32,
    payload: Seq<u8>,
)
    requires
        doc.attachments.len() >= 1,
        !is_known_tag(level, tag),
    ensures
        apply_block(doc, level, tag, payload) == Ok::<DocumentView, TNEFError>(doc),
{
    assert(doc.attachments.update(doc.attachments.len() - 1, doc.attachments.last())
        =~= doc.attachments);
}

/// A number below 65536 has at most five decimal digits.
pub proof fn lemma_decimal_len(n: nat)
    ensures
        decimal(n).len() >= 1,
        n < 10 ==> decimal(n).len() == 1,
        n < 100 ==> decimal(n).len() <= 2,
        n < 1000 ==> decimal(n).len() <= 3,
        n < 10000 ==> decimal(n).len() <= 4,
        n < 100000 ==> decimal(n).len() <= 5,
    decreases n,
{
    if n >= 10 {
        lemma_decimal_len(n / 10);
    }
}

/// A block makes of a document that the decoder can hold another one.
pub proof fn lemma_block_keeps_document(doc: DocumentView, level: u8, tag: u32, payload: Seq<u8>)
    requires
        is_document(doc),
        apply_block(doc, level, tag, payload) is Ok,
    ensures
        is_document(apply_block(doc, level, tag, payload)->Ok_0),
{
    if payload.len() >= 4 {
        lemma_decimal_len(u16_le(payload, 0) as nat);
        lemma_decimal_len(u16_le(payload, 2) as nat);
    }
}

/// Decoding makes of a document that the decoder can hold another one.
pub proof fn lemma_blocks_keep_document(bytes: Seq<u8>, pos: int, doc: DocumentView)
    requires
        is_document(doc),
        blocks_spec(bytes, pos, doc) is Ok,
    ensures
        is_document(blocks_spec(bytes, pos, doc)->Ok_0),
    decreases bytes.len() - pos,
{
    if pos < bytes.len() {
        let length = u32_le(bytes, pos + 5);
        let payload = bytes.subrange(pos + 9, pos + 9 + length);
        let level = bytes[pos];
        let tag = u32_le(bytes, pos + 1) as u32;
        let next = apply_block(doc, level, tag, payload)->Ok_0;
        lemma_block_keeps_document(doc, level, tag, payload);
        lemma_blocks_keep_document(bytes, pos + 11 + length, next);
    }
}

/// Every decoded document is one that the decoder can hold: it has its
/// starting attachment, and its text fields of fixed width keep within
/// their widths.
pub proof fn lemma_decoded_is_document(bytes: Seq<u8>)
    requires
        decode_spec(bytes) is Ok,
    ensures
        is_document(decode_spec(bytes)->Ok_0),
{
    lemma_blocks_keep_document(bytes, 6, empty_document());
}

/// A block keeps the attachments that are there, in their places but for
/// the last, and adds at most one.
pub proof fn lemma_block_keeps_attachments(
    doc: DocumentView,
    level: u8,
    tag: u32,
    payload: Seq<u8>,
)
    requires
        doc.attachments.len() >= 1,
        apply_block(doc, level, tag, payload) is Ok,
    ensures
        ({
            let next = apply_block(doc, level, tag, payload)->Ok_0;
            &&& next.attachments.len() >= doc.attachments.len()
            &&& next.attachments.len() <= doc.attachments.len() + 1
            &&& forall|i: int|
                0 <= i < doc.attachments.len() - 1 ==> next.attachments[i] == doc.attachments[i]
            &&& next.attachments.len() == doc.attachments.len() + 1
                ==> next.attachments[doc.attachments.len() - 1] == doc.attachments.last()
        }),
{
}

/// Decoding never loses an attachment: the document that comes out has at
/// least as many as the document that went in.
pub proof fn lemma_blocks_keep_attachments(bytes: Seq<u8>, pos: int, doc: DocumentView)
    requires
        doc.attachments.len() >= 1,
        blocks_spec(bytes, pos, doc) is Ok,
    ensures
        blocks_spec(bytes, pos, doc)->Ok_0.attachments.len() >= doc.attachments.len(),
    decreases bytes.len() - pos,
{
    if pos < bytes.len() {
        let length = u32_le(bytes, pos + 5);
        let payload = bytes.subrange(pos + 9, pos + 9 + length);
        let level = bytes[pos];
        let tag = u32_le(bytes, pos + 1) as u32;
        let next = apply_block(doc, level, tag, payload)->Ok_0;
        lemma_block_keeps_attachments(doc, level, tag, payload);
        lemma_blocks_keep_attachments(bytes, pos + 11 + length, next);
    }
}

/// Every decoded document has at least one attachment: the starting
/// attachment is there even where the stream holds no other.
pub proof fn lemma_starting_attachment_present(bytes: Seq<u8>)
    requires
        decode_spec(bytes) is Ok,
    ensures
        decode_spec(bytes)->Ok_0.attachments.len() >= 1,
{
    lemma_blocks_keep_attachments(bytes, 6, empty_document());
}

/// Once a second attachment is there, the first one is never touched
/// again: blocks fill the last attachment only.
pub proof fn lemma_blocks_keep_first_attachment(bytes: Seq<u8>, pos: int, doc: DocumentView)
    requires
        doc.attachments.len() >= 2,
        blocks_spec(bytes, pos, doc) is Ok,
    ensures
        blocks_spec(bytes, pos, doc)->Ok_0.attachments[0] == doc.attachments[0],
    decreases bytes.len() - pos,
{
    if pos < bytes.len() {
        let length = u32_le(bytes, pos + 5);
        let payload = bytes.subrange(pos + 9, pos + 9 + length);
        let level = bytes[pos];
        let tag = u32_le(bytes, pos + 1) as u32;
        let next = apply_block(doc, level, tag, payload)->Ok_0;
        lemma_block_keeps_attachments(doc, level, tag, payload);
        lemma_blocks_keep_first_attachment(bytes, pos + 11 + length, next);
    }
}

/// A stream that is cut within a block of a stream that decodes, anywhere
/// behind the key, is an error reading data.
pub proof fn lemma_cut_within_a_block(bytes: Seq<u8>, pos: int, doc: DocumentView, cut: int)
    requires
        0 <= pos <= cut < bytes.len(),
        blocks_spec(bytes, pos, doc) is Ok,
        document_at(bytes, pos, doc, cut) is None,
    ensures
        blocks_spec(bytes.take(cut), pos, doc) == Err::<DocumentView, TNEFError>(
            TNEFError::ErrorReadingData,
        ),
    decreases bytes.len() - pos,
{
    let head = bytes.take(cut);
    let length = u32_le(bytes, pos + 5);
    if pos + 9 <= cut && pos + 11 + length <= cut {
        assert(payload_at(head, pos) =~= payload_at(bytes, pos));
        let next = apply_block(
            doc,
            bytes[pos],
            u32_le(bytes, pos + 1) as u32,
            payload_at(bytes, pos),
        )->Ok_0;
        lemma_cut_within_a_block(bytes, pos + 11 + length, next, cut);
    }
}

/// A stream that is cut at the end of a block of a stream that decodes
/// holds the document that the decoder has there.
pub proof fn lemma_cut_behind_a_block(bytes: Seq<u8>, pos: int, doc: DocumentView, cut: int)
    requires
        0 <= pos <= cut <= bytes.len(),
        document_at(bytes, pos, doc, cut) is Some,
    ensures
        blocks_spec(bytes.take(cut), pos, doc) == Ok::<DocumentView, TNEFError>(
            document_at(bytes, pos, doc, cut)->Some_0,
        ),
    decreases bytes.len() - pos,
{
    let head = bytes.take(cut);
    if pos < cut {
        let length = u32_le(bytes, pos + 5);
        let next = apply_block(
            doc,
            bytes[pos],
            u32_le(bytes, pos + 1) as u32,
            payload_at(bytes, pos),
        )->Ok_0;
        lemma_document_at_below(bytes, pos + 11 + length, next, cut);
        assert(payload_at(head, pos) =~= payload_at(bytes, pos));
        lemma_cut_behind_a_block(bytes, pos + 11 + length, next, cut);
    }
}

/// The decoder arrives only at places that are not before its start.
pub proof fn lemma_document_at_below(bytes: Seq<u8>, from: int, doc: DocumentView, to: int)
    requires
        document_at(bytes, from, doc, to) is Some,
    ensures
        from <= to,
{
}

/// A truncated stream: a stream that decodes, cut anywhere behind its key
/// but at the end of a block, is an error reading data; cut at the end of a
/// block, it is the document of the blocks before the cut.
pub proof fn lemma_truncated_valid_stream(bytes: Seq<u8>, cut: int)
    requires
        decode_spec(bytes) is Ok,
        6 <= cut < bytes.len(),
    ensures
        match document_at(bytes, 6, empty_document(), cut) {
            None => decode_spec(bytes.take(cut)) == Err::<DocumentView, TNEFError>(
                TNEFError::ErrorReadingData,
            ),
            Some(doc) => decode_spec(bytes.take(cut)) == Ok::<DocumentView, TNEFError>(doc),
        },
{
    if document_at(bytes, 6, empty_document(), cut) is None {
        lemma_cut_within_a_block(bytes, 6, empty_document(), cut);
    } else {
        lemma_cut_behind_a_block(bytes, 6, empty_document(), cut);
    }
}

/// Two results of decoding the same bytes are both documents with the same
/// content, or both the same error.
pub proof fn lemma_decode_is_a_function(
    bytes: Seq<u8>,
    first: TNEFResult<TNEFFile>,
    second: TNEFResult<TNEFFile>,
)
    requires
        is_decode_of(first, bytes),
        is_decode_of(second, bytes),
    ensures
        first is Ok == second is Ok,
        first matches Ok(a) ==> (second matches Ok(b) && a@ == b@),
        first matches Err(e) ==> (second matches Err(f) && e == f),
{
}

/// A variable-length field of size zero reads as absent, in bytes and in
/// text; one that holds bytes which are not UTF-8 reads as absent in text
/// and as exactly its bytes in bytes.
pub proof fn lemma_absent_and_present(
    field: Seq<u8>,
    bytes: Option<Vec<u8>>,
    text: Option<String>,
)
    requires
        is_bytes_of(bytes, field),
        is_text_of(text, field),
    ensures
        field.len() == 0 ==> bytes is None && text is None,
        field.len() > 0 ==> (bytes matches Some(v) && v@ == field),
        field.len() > 0 && !valid_utf8(field) ==> text is None,
{
}

/// The reads of a stream that gives `pieces` one after the other, each
/// into a destination of `room` bytes.
pub open spec fn reads_of(pieces: Seq<Seq<u8>>, room: int) -> Seq<ReadOutcome> {
    Seq::new(
        pieces.len(),
        |i: int|
            ReadOutcome {
                bytes_read: pieces[i].len() as int,
                dest: pieces[i] + zeros(room - pieces[i].len()),
            },
    )
}

/// The read that marks the end of the data.
pub open spec fn last_read(room: int) -> ReadOutcome {
    ReadOutcome { bytes_read: 0, dest: zeros(room) }
}

/// Reading pieces one after the other gathers the pieces joined, and
/// leaves the decoder reading on.
pub proof fn lemma_pieces_gathered(pieces: Seq<Seq<u8>>, room: int)
    requires
        forall|i: int| 0 <= i < pieces.len() ==> 0 < (#[trigger] pieces[i]).len() <= room,
    ensures
        absorb_all(reads_of(pieces, room)) == (pieces.flatten_alt(), StreamStep::More),
    decreases pieces.len(),
{
    let reads = reads_of(pieces, room);
    if pieces.len() > 0 {
        let front = pieces.drop_last();
        lemma_pieces_gathered(front, room);
        assert(reads.drop_last() =~= reads_of(front, room));
        let piece = pieces.last();
        assert(reads.last().dest.take(piece.len() as int) =~= piece);
    }
}

/// The stream path and the buffer path agree: a stream that gives the bytes
/// of a buffer in pieces, however they are cut, and then comes to its end,
/// decodes to what the buffer decodes to.
pub proof fn lemma_stream_agrees_with_buffer(
    pieces: Seq<Seq<u8>>,
    room: int,
    r: TNEFResult<TNEFFile>,
)
    requires
        forall|i: int| 0 <= i < pieces.len() ==> 0 < (#[trigger] pieces[i]).len() <= room,
    ensures
        is_stream_result(r, reads_of(pieces, room).push(last_read(room))) == is_decode_of(
            r,
            pieces.flatten(),
        ),
{
    let reads = reads_of(pieces, room).push(last_read(room));
    lemma_pieces_gathered(pieces, room);
    assert(reads.drop_last() =~= reads_of(pieces, room));
    pieces.lemma_flatten_and_flatten_alt_are_equivalent();
}

} // verus!
