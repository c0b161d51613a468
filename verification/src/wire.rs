//! The wire format, as a function from bytes to the document that they
//! hold: the signature and the key, then attribute blocks, each with a
//! level, a tag, a length, a payload and a checksum.

use vstd::prelude::*;
use crate::bytes::{checksum, u16_le, u32_le};
use crate::error::TNEFError;
use crate::mapi::{mapi_spec, MapiPropertyView};
use crate::utils::Dtr;

verus! {

/// The four bytes that every stream starts with, as a little-endian integer.
pub const SIGNATURE: u32 = 0x223E_9F78;

/// The level of a block that belongs to the message.
pub const LVL_MESSAGE: u8 = 1;

/// The level of a block that belongs to an attachment.
pub const LVL_ATTACHMENT: u8 = 2;

/// The owner of the message.
pub const ATT_OWNER: u32 = 0x0006_0000;

/// For whom the message was sent.
pub const ATT_SENT_FOR: u32 = 0x0006_0001;

/// The delegate of the message.
pub const ATT_DELEGATE: u32 = 0x0006_0002;

/// The date of the start.
pub const ATT_DATE_START: u32 = 0x0003_0006;

/// The date of the end.
pub const ATT_DATE_END: u32 = 0x0003_0007;

/// The identifier of the owner's appointment.
pub const ATT_AID_OWNER: u32 = 0x0005_0008;

/// The class that the message had at first.
pub const ATT_ORIGINAL_MESSAGE_CLASS: u32 = 0x0007_0006;

/// The sender.
pub const ATT_FROM: u32 = 0x0000_8000;

/// The subject.
pub const ATT_SUBJECT: u32 = 0x0001_8004;

/// The date of sending.
pub const ATT_DATE_SENT: u32 = 0x0003_8005;

/// The date of receipt.
pub const ATT_DATE_RECEIVED: u32 = 0x0003_8006;

/// The status of the message.
pub const ATT_MESSAGE_STATUS: u32 = 0x0006_8007;

/// The class of the message.
pub const ATT_MESSAGE_CLASS: u32 = 0x0007_8008;

/// The identifier of the message.
pub const ATT_MESSAGE_ID: u32 = 0x0001_8009;

/// The identifier of the message that this one answers.
pub const ATT_PARENT_ID: u32 = 0x0001_800A;

/// The identifier of the conversation.
pub const ATT_CONVERSATION_ID: u32 = 0x0001_800B;

/// The body of the message.
pub const ATT_BODY: u32 = 0x0002_800C;

/// The priority of the message.
pub const ATT_PRIORITY: u32 = 0x0004_800D;

/// The date of the last change.
pub const ATT_DATE_MODIFIED: u32 = 0x0003_8020;

/// The MAPI properties of the message.
pub const ATT_MAPI_PROPS: u32 = 0x0006_9003;

/// The version of the stream.
pub const ATT_TNEF_VERSION: u32 = 0x0008_9006;

/// The code page of the message.
pub const ATT_OEM_CODEPAGE: u32 = 0x0006_9007;

/// The content of an attachment.
pub const ATT_ATTACH_DATA: u32 = 0x0006_800F;

/// The title of an attachment.
pub const ATT_ATTACH_TITLE: u32 = 0x0001_8010;

/// The icon of an attachment.
pub const ATT_ATTACH_META_FILE: u32 = 0x0006_8011;

/// The date of an attachment's creation.
pub const ATT_ATTACH_CREATE_DATE: u32 = 0x0003_8012;

/// The date of an attachment's last change.
pub const ATT_ATTACH_MODIFY_DATE: u32 = 0x0003_8013;

/// The file name that the transport gave an attachment.
pub const ATT_ATTACH_TRANSPORT_FILENAME: u32 = 0x0006_9001;

/// The tag that starts a new attachment; its payload is the rendering data.
pub const ATT_ATTACH_REND_DATA: u32 = 0x0006_9002;

/// How an attachment is to be shown: presentation metadata, not content.
#[derive(Clone, Copy, Debug, PartialEq, Eq, Structural)]
pub struct TNEFAttachmentRenderData {
    pub attach_type: u16,
    pub position: u32,
    pub width: u16,
    pub height: u16,
    pub flags: u32,
}

/// What an attachment is, as plain values. A byte field that is empty is
/// absent.
pub struct AttachmentView {
    pub date: Dtr,
    pub title: Seq<u8>,
    pub create_date: Dtr,
    pub modify_date: Dtr,
    pub transport_filename: Seq<u8>,
    pub render_data: TNEFAttachmentRenderData,
    pub file_data: Seq<u8>,
    pub icon_data: Seq<u8>,
}

/// What a decoded document is, as plain values. A byte field that is empty
/// is absent. The text fields of fixed width hold at most one byte less
/// than their width. There is always at least one attachment.
pub struct DocumentView {
    pub version: Seq<u8>,
    pub from: Seq<u8>,
    pub subject: Seq<u8>,
    pub date_sent: Dtr,
    pub date_received: Dtr,
    pub message_status: Seq<u8>,
    pub message_class: Seq<u8>,
    pub message_id: Seq<u8>,
    pub parent_id: Seq<u8>,
    pub conversation_id: Seq<u8>,
    pub body: Seq<u8>,
    pub priority: Seq<u8>,
    pub attachments: Seq<AttachmentView>,
    pub date_modified: Dtr,
    pub mapi_properties: Seq<MapiPropertyView>,
    pub code_page: Seq<u8>,
    pub original_message_class: Seq<u8>,
    pub owner: Seq<u8>,
    pub sent_for: Seq<u8>,
    pub delegate: Seq<u8>,
    pub date_start: Dtr,
    pub date_end: Dtr,
    pub aid_owner: Seq<u8>,
}

/// The rendering data with every field zero.
pub open spec fn zero_render_data() -> TNEFAttachmentRenderData {
    TNEFAttachmentRenderData { attach_type: 0, position: 0, width: 0, height: 0, flags: 0 }
}

/// The attachment that holds nothing: every date zero, every field absent.
pub open spec fn empty_attachment() -> AttachmentView {
    AttachmentView {
        date: Dtr::zero_spec(),
        title: Seq::empty(),
        create_date: Dtr::zero_spec(),
        modify_date: Dtr::zero_spec(),
        transport_filename: Seq::empty(),
        render_data: zero_render_data(),
        file_data: Seq::empty(),
        icon_data: Seq::empty(),
    }
}

/// The document before any block: nothing but the starting attachment,
/// which holds nothing yet.
pub open spec fn empty_document() -> DocumentView {
    DocumentView {
        version: Seq::empty(),
        from: Seq::empty(),
        subject: Seq::empty(),
        date_sent: Dtr::zero_spec(),
        date_received: Dtr::zero_spec(),
        message_status: Seq::empty(),
        message_class: Seq::empty(),
        message_id: Seq::empty(),
        parent_id: Seq::empty(),
        conversation_id: Seq::empty(),
        body: Seq::empty(),
        priority: Seq::empty(),
        attachments: seq![empty_attachment()],
        date_modified: Dtr::zero_spec(),
        mapi_properties: Seq::empty(),
        code_page: Seq::empty(),
        original_message_class: Seq::empty(),
        owner: Seq::empty(),
        sent_for: Seq::empty(),
        delegate: Seq::empty(),
        date_start: Dtr::zero_spec(),
        date_end: Dtr::zero_spec(),
        aid_owner: Seq::empty(),
    }
}

/// The decimal digits of a number, as ASCII.
pub open spec fn decimal(n: nat) -> Seq<u8>
    decreases n,
{
    if n < 10 {
        seq![(48 + n) as u8]
    } else {
        decimal(n / 10).push((48 + n % 10) as u8)
    }
}

/// The version text of a version payload: `TNEF`, the major number, a dot
/// and the minor number. The payload holds the minor number first.
pub open spec fn version_text(payload: Seq<u8>) -> Seq<u8> {
    seq![0x54u8, 0x4Eu8, 0x45u8, 0x46u8] + decimal(u16_le(payload, 2) as nat) + seq![0x2Eu8]
        + decimal(u16_le(payload, 0) as nat)
}

/// The little-endian integer held by the first four bytes of a payload; a
/// payload of fewer bytes is read as if zero bytes followed it.
pub open spec fn leading_u32_le(payload: Seq<u8>) -> int {
    let b0 = if payload.len() > 0 { payload[0] as int } else { 0 };
    let b1 = if payload.len() > 1 { payload[1] as int } else { 0 };
    let b2 = if payload.len() > 2 { payload[2] as int } else { 0 };
    let b3 = if payload.len() > 3 { payload[3] as int } else { 0 };
    b0 + 256 * b1 + 65536 * b2 + 16777216 * b3
}

/// The priority text of a priority payload: `high` for 3, `normal` for 2,
/// `low` for 1 and `N/A` for every other number.
pub open spec fn priority_text(payload: Seq<u8>) -> Seq<u8> {
    let value = leading_u32_le(payload);
    if value == 3 {
        seq![0x68u8, 0x69u8, 0x67u8, 0x68u8]
    } else if value == 2 {
        seq![0x6Eu8, 0x6Fu8, 0x72u8, 0x6Du8, 0x61u8, 0x6Cu8]
    } else if value == 1 {
        seq![0x6Cu8, 0x6Fu8, 0x77u8]
    } else {
        seq![0x4Eu8, 0x2Fu8, 0x41u8]
    }
}

/// What a text field of fixed width keeps of a payload: its first bytes, at
/// most one less than the width.
pub open spec fn clipped(payload: Seq<u8>, width: int) -> Seq<u8> {
    if payload.len() < width {
        payload
    } else {
        payload.take(width - 1)
    }
}

/// The date record held by the first 14 bytes of a payload: seven 16-bit
/// little-endian fields, the year first and the day of the week last.
pub open spec fn dtr_of(payload: Seq<u8>) -> Dtr {
    Dtr {
        year: u16_le(payload, 0) as u16,
        month: u16_le(payload, 2) as u16,
        day: u16_le(payload, 4) as u16,
        hour: u16_le(payload, 6) as u16,
        minute: u16_le(payload, 8) as u16,
        second: u16_le(payload, 10) as u16,
        day_of_week: u16_le(payload, 12) as u16,
    }
}

/// The rendering data held by the first 14 bytes of a payload, the fields
/// packed one behind the other in little-endian order.
pub open spec fn render_data_of(payload: Seq<u8>) -> TNEFAttachmentRenderData {
    TNEFAttachmentRenderData {
        attach_type: u16_le(payload, 0) as u16,
        position: u32_le(payload, 2) as u32,
        width: u16_le(payload, 6) as u16,
        height: u16_le(payload, 8) as u16,
        flags: u32_le(payload, 10) as u32,
    }
}

/// What a message-level block does to the document. A tag that the decoder
/// does not know leaves the document as it is. A payload that is too short
/// for its tag, or a property list that cannot be read, is an error in the
/// handler.
pub open spec fn apply_message_block(doc: DocumentView, tag: u32, payload: Seq<u8>) -> Result<
    DocumentView,
    TNEFError,
> {
    if tag == ATT_TNEF_VERSION {
        if payload.len() != 4 {
            Err(TNEFError::ErrorInHandler)
        } else {
            Ok(DocumentView { version: version_text(payload), ..doc })
        }
    } else if tag == ATT_FROM {
        Ok(DocumentView { from: payload, ..doc })
    } else if tag == ATT_SUBJECT {
        Ok(DocumentView { subject: payload, ..doc })
    } else if tag == ATT_BODY {
        Ok(DocumentView { body: payload, ..doc })
    } else if tag == ATT_MESSAGE_STATUS {
        Ok(DocumentView { message_status: clipped(payload, 10), ..doc })
    } else if tag == ATT_MESSAGE_CLASS {
        Ok(DocumentView { message_class: clipped(payload, 50), ..doc })
    } else if tag == ATT_MESSAGE_ID {
        Ok(DocumentView { message_id: clipped(payload, 50), ..doc })
    } else if tag == ATT_PARENT_ID {
        Ok(DocumentView { parent_id: clipped(payload, 50), ..doc })
    } else if tag == ATT_CONVERSATION_ID {
        Ok(DocumentView { conversation_id: clipped(payload, 50), ..doc })
    } else if tag == ATT_PRIORITY {
        Ok(DocumentView { priority: priority_text(payload), ..doc })
    } else if tag == ATT_OEM_CODEPAGE {
        Ok(DocumentView { code_page: payload, ..doc })
    } else if tag == ATT_ORIGINAL_MESSAGE_CLASS {
        Ok(DocumentView { original_message_class: payload, ..doc })
    } else if tag == ATT_OWNER {
        Ok(DocumentView { owner: payload, ..doc })
    } else if tag == ATT_SENT_FOR {
        Ok(DocumentView { sent_for: payload, ..doc })
    } else if tag == ATT_DELEGATE {
        Ok(DocumentView { delegate: payload, ..doc })
    } else if tag == ATT_AID_OWNER {
        Ok(DocumentView { aid_owner: payload, ..doc })
    } else if tag == ATT_DATE_SENT || tag == ATT_DATE_RECEIVED || tag == ATT_DATE_MODIFIED || tag
        == ATT_DATE_START || tag == ATT_DATE_END {
        if payload.len() < 14 {
            Err(TNEFError::ErrorInHandler)
        } else if tag == ATT_DATE_SENT {
            Ok(DocumentView { date_sent: dtr_of(payload), ..doc })
        } else if tag == ATT_DATE_RECEIVED {
            Ok(DocumentView { date_received: dtr_of(payload), ..doc })
        } else if tag == ATT_DATE_MODIFIED {
            Ok(DocumentView { date_modified: dtr_of(payload), ..doc })
        } else if tag == ATT_DATE_START {
            Ok(DocumentView { date_start: dtr_of(payload), ..doc })
        } else {
            Ok(DocumentView { date_end: dtr_of(payload), ..doc })
        }
    } else if tag == ATT_MAPI_PROPS {
        match mapi_spec(payload) {
            None => Err(TNEFError::ErrorInHandler),
            Some(properties) => Ok(DocumentView { mapi_properties: properties, ..doc }),
        }
    } else {
        Ok(doc)
    }
}

/// What an attachment-level block does to an attachment that is already
/// there. The tag that starts a new attachment is not among these.
pub open spec fn fill_attachment(attachment: AttachmentView, tag: u32, payload: Seq<u8>) -> Result<
    AttachmentView,
    TNEFError,
> {
    if tag == ATT_ATTACH_TITLE {
        Ok(AttachmentView { title: payload, ..attachment })
    } else if tag == ATT_ATTACH_DATA {
        Ok(AttachmentView { file_data: payload, ..attachment })
    } else if tag == ATT_ATTACH_META_FILE {
        Ok(AttachmentView { icon_data: payload, ..attachment })
    } else if tag == ATT_ATTACH_TRANSPORT_FILENAME {
        Ok(AttachmentView { transport_filename: payload, ..attachment })
    } else if tag == ATT_ATTACH_CREATE_DATE || tag == ATT_ATTACH_MODIFY_DATE {
        if payload.len() < 14 {
            Err(TNEFError::ErrorInHandler)
        } else if tag == ATT_ATTACH_CREATE_DATE {
            Ok(AttachmentView { create_date: dtr_of(payload), ..attachment })
        } else {
            Ok(AttachmentView { modify_date: dtr_of(payload), ..attachment })
        }
    } else {
        Ok(attachment)
    }
}

/// What an attachment-level block does to the document. The tag that
/// starts a new attachment appends one that holds only its rendering data;
/// every other tag fills the last attachment of the sequence.
pub open spec fn apply_attachment_block(doc: DocumentView, tag: u32, payload: Seq<u8>) -> Result<
    DocumentView,
    TNEFError,
> {
    if tag == ATT_ATTACH_REND_DATA {
        if payload.len() < 14 {
            Err(TNEFError::ErrorInHandler)
        } else {
            Ok(
                DocumentView {
                    attachments: doc.attachments.push(
                        AttachmentView { render_data: render_data_of(payload), ..empty_attachment() },
                    ),
                    ..doc
                },
            )
        }
    } else {
        match fill_attachment(doc.attachments.last(), tag, payload) {
            Err(e) => Err(e),
            Ok(filled) => Ok(
                DocumentView {
                    attachments: doc.attachments.update(doc.attachments.len() - 1, filled),
                    ..doc
                },
            ),
        }
    }
}

/// Whether the decoder knows a tag at a level. A block of any other tag or
/// level is skipped.
pub open spec fn is_known_tag(level: u8, tag: u32) -> bool {
    ||| level == LVL_MESSAGE && (tag == ATT_TNEF_VERSION || tag == ATT_FROM || tag == ATT_SUBJECT
        || tag == ATT_BODY || tag == ATT_MESSAGE_STATUS || tag == ATT_MESSAGE_CLASS || tag
        == ATT_MESSAGE_ID || tag == ATT_PARENT_ID || tag == ATT_CONVERSATION_ID || tag
        == ATT_PRIORITY || tag == ATT_OEM_CODEPAGE || tag == ATT_ORIGINAL_MESSAGE_CLASS || tag
        == ATT_OWNER || tag == ATT_SENT_FOR || tag == ATT_DELEGATE || tag == ATT_AID_OWNER || tag
        == ATT_DATE_SENT || tag == ATT_DATE_RECEIVED || tag == ATT_DATE_MODIFIED || tag
        == ATT_DATE_START || tag == ATT_DATE_END || tag == ATT_MAPI_PROPS)
    ||| level == LVL_ATTACHMENT && (tag == ATT_ATTACH_REND_DATA || tag == ATT_ATTACH_TITLE || tag
        == ATT_ATTACH_DATA || tag == ATT_ATTACH_META_FILE || tag == ATT_ATTACH_TRANSPORT_FILENAME
        || tag == ATT_ATTACH_CREATE_DATE || tag == ATT_ATTACH_MODIFY_DATE)
}

/// Whether a document is one that the decoder can hold: it has its
/// starting attachment, and each text field of fixed width leaves room for
/// the zero byte that ends it.
pub open spec fn is_document(doc: DocumentView) -> bool {
    &&& doc.attachments.len() >= 1
    &&& doc.version.len() < 16
    &&& doc.message_status.len() < 10
    &&& doc.message_class.len() < 50
    &&& doc.message_id.len() < 50
    &&& doc.parent_id.len() < 50
    &&& doc.conversation_id.len() < 50
    &&& doc.priority.len() < 10
}

/// What one block does to the document. A block of a level other than the
/// two known ones is skipped.
pub open spec fn apply_block(doc: DocumentView, level: u8, tag: u32, payload: Seq<u8>) -> Result<
    DocumentView,
    TNEFError,
> {
    if level == LVL_MESSAGE {
        apply_message_block(doc, tag, payload)
    } else if level == LVL_ATTACHMENT {
        apply_attachment_block(doc, tag, payload)
    } else {
        Ok(doc)
    }
}

/// Decodes the blocks from `pos` on into `doc`. The stream ends well only
/// at the end of a block. A block is one byte of level, four of tag, four
/// of length, the payload, and two of checksum; its length is not zero.
pub open spec fn blocks_spec(bytes: Seq<u8>, pos: int, doc: DocumentView) -> Result<
    DocumentView,
    TNEFError,
>
    decreases bytes.len() - pos,
{
    if pos >= bytes.len() {
        Ok(doc)
    } else if pos < 0 || pos + 9 > bytes.len() {
        Err(TNEFError::ErrorReadingData)
    } else {
        let length = u32_le(bytes, pos + 5);
        if length == 0 || pos + 11 + length > bytes.len() {
            Err(TNEFError::ErrorReadingData)
        } else {
            let payload = bytes.subrange(pos + 9, pos + 9 + length);
            if checksum(payload) != u16_le(bytes, pos + 9 + length) {
                Err(TNEFError::BadChecksum)
            } else {
                match apply_block(doc, bytes[pos], u32_le(bytes, pos + 1) as u32, payload) {
                    Err(e) => Err(e),
                    Ok(next) => blocks_spec(bytes, pos + 11 + length, next),
                }
            }
        }
    }
}

/// The document that a stream holds, or the first error that a reader of
/// the stream meets.
pub open spec fn decode_spec(bytes: Seq<u8>) -> Result<DocumentView, TNEFError> {
    if bytes.len() < 4 {
        Err(TNEFError::ErrorReadingData)
    } else if u32_le(bytes, 0) != SIGNATURE {
        Err(TNEFError::NotTnefStream)
    } else if bytes.len() < 6 {
        Err(TNEFError::NoKey)
    } else {
        blocks_spec(bytes, 6, empty_document())
    }
}

} // verus!
