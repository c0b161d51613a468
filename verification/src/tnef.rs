//! The decoded document and its attachments, and the decoder that builds
//! them from the bytes of a stream.

use vstd::prelude::*;
use vstd::slice::slice_subrange;
use chrono::NaiveDateTime;
use crate::bytes::{compute_checksum, copy_range, read_u16_le, read_u32_le};
use crate::error::{TNEFError, TNEFResult};
use crate::mapi::{parse_mapi_properties, properties_view, MAPIProperty};
use crate::utils::{
    datetime_from_dtr,
    datetime_of,
    is_bytes_of,
    is_fixed_text_of,
    is_text_of,
    make_safe_string,
    string_from_varlen,
    vec_from_varlen,
    Dtr,
    VariableLength,
};
use crate::wire::{
    apply_attachment_block,
    apply_block,
    apply_message_block,
    blocks_spec,
    clipped,
    decimal,
    decode_spec,
    dtr_of,
    empty_attachment,
    empty_document,
    fill_attachment,
    leading_u32_le,
    priority_text,
    render_data_of,
    version_text,
    AttachmentView,
    DocumentView,
    TNEFAttachmentRenderData,
    ATT_AID_OWNER,
    ATT_ATTACH_CREATE_DATE,
    ATT_ATTACH_DATA,
    ATT_ATTACH_META_FILE,
    ATT_ATTACH_MODIFY_DATE,
    ATT_ATTACH_REND_DATA,
    ATT_ATTACH_TITLE,
    ATT_ATTACH_TRANSPORT_FILENAME,
    ATT_BODY,
    ATT_CONVERSATION_ID,
    ATT_DATE_END,
    ATT_DATE_MODIFIED,
    ATT_DATE_RECEIVED,
    ATT_DATE_SENT,
    ATT_DATE_START,
    ATT_DELEGATE,
    ATT_FROM,
    ATT_MAPI_PROPS,
    ATT_MESSAGE_CLASS,
    ATT_MESSAGE_ID,
    ATT_MESSAGE_STATUS,
    ATT_OEM_CODEPAGE,
    ATT_ORIGINAL_MESSAGE_CLASS,
    ATT_OWNER,
    ATT_PARENT_ID,
    ATT_PRIORITY,
    ATT_SENT_FOR,
    ATT_SUBJECT,
    ATT_TNEF_VERSION,
    LVL_ATTACHMENT,
    LVL_MESSAGE,
    SIGNATURE,
};

verus! {

/// One embedded file or rendering record of a message.
#[derive(Debug)]
pub struct TNEFAttachment {
    date: Dtr,
    title: VariableLength,
    create_date: Dtr,
    modify_date: Dtr,
    transport_filename: VariableLength,
    render_data: TNEFAttachmentRenderData,
    file_data: VariableLength,
    icon_data: VariableLength,
}

impl View for TNEFAttachment {
    type V = AttachmentView;

    closed spec fn view(&self) -> AttachmentView {
        AttachmentView {
            date: self.date,
            title: self.title@,
            create_date: self.create_date,
            modify_date: self.modify_date,
            transport_filename: self.transport_filename@,
            render_data: self.render_data,
            file_data: self.file_data@,
            icon_data: self.icon_data@,
        }
    }
}

/// What a list of attachments is, as plain values.
pub open spec fn attachments_view(v: Seq<TNEFAttachment>) -> Seq<AttachmentView> {
    Seq::new(v.len(), |i: int| v[i]@)
}

impl Clone for TNEFAttachment {
    fn clone(&self) -> (out: Self)
        ensures
            out@ == self@,
    {
        TNEFAttachment {
            date: self.date,
            title: self.title.clone(),
            create_date: self.create_date,
            modify_date: self.modify_date,
            transport_filename: self.transport_filename.clone(),
            render_data: self.render_data,
            file_data: self.file_data.clone(),
            icon_data: self.icon_data.clone(),
        }
    }
}

impl Default for TNEFAttachment {
    fn default() -> (out: Self)
        ensures
            out@ == empty_attachment(),
    {
        TNEFAttachment::new()
    }
}

impl TNEFAttachment {
    /// The attachment that holds nothing: every date zero, every field
    /// absent.
    pub fn new() -> (out: Self)
        ensures
            out@ == empty_attachment(),
    {
        TNEFAttachment {
            date: Dtr::zero(),
            title: VariableLength::empty(),
            create_date: Dtr::zero(),
            modify_date: Dtr::zero(),
            transport_filename: VariableLength::empty(),
            render_data: TNEFAttachmentRenderData {
                attach_type: 0,
                position: 0,
                width: 0,
                height: 0,
                flags: 0,
            },
            file_data: VariableLength::empty(),
            icon_data: VariableLength::empty(),
        }
    }

    /// The date record of the attachment, as the stream holds it.
    pub fn date_dtr(&self) -> (out: Dtr)
        ensures
            out == self@.date,
    {
        self.date
    }

    /// The date record of the attachment's creation, as the stream holds it.
    pub fn create_date_dtr(&self) -> (out: Dtr)
        ensures
            out == self@.create_date,
    {
        self.create_date
    }

    /// The date record of the attachment's last change, as the stream
    /// holds it.
    pub fn modify_date_dtr(&self) -> (out: Dtr)
        ensures
            out == self@.modify_date,
    {
        self.modify_date
    }

    /// The date of the attachment.
    pub fn date(&self) -> (out: NaiveDateTime)
        requires
            self@.date.is_calendar(),
        ensures
            out == datetime_of(self@.date),
    {
        datetime_from_dtr(self.date)
    }

    /// The title of the attachment.
    pub fn title(&self) -> (out: Option<String>)
        ensures
            is_text_of(out, self@.title),
    {
        string_from_varlen(&self.title)
    }

    /// The date of the attachment's creation.
    pub fn create_date(&self) -> (out: NaiveDateTime)
        requires
            self@.create_date.is_calendar(),
        ensures
            out == datetime_of(self@.create_date),
    {
        datetime_from_dtr(self.create_date)
    }

    /// The date of the attachment's last change.
    pub fn modify_date(&self) -> (out: NaiveDateTime)
        requires
            self@.modify_date.is_calendar(),
        ensures
            out == datetime_of(self@.modify_date),
    {
        datetime_from_dtr(self.modify_date)
    }

    /// The file name that the transport gave the attachment.
    pub fn transport_filename(&self) -> (out: Option<String>)
        ensures
            is_text_of(out, self@.transport_filename),
    {
        string_from_varlen(&self.transport_filename)
    }

    /// How the attachment is to be shown.
    pub fn render_data(&self) -> (out: TNEFAttachmentRenderData)
        ensures
            out == self@.render_data,
    {
        TNEFAttachmentRenderData {
            attach_type: self.render_data.attach_type,
            position: self.render_data.position,
            width: self.render_data.width,
            height: self.render_data.height,
            flags: self.render_data.flags,
        }
    }

    /// The content of the attachment.
    pub fn file_data(&self) -> (out: Option<Vec<u8>>)
        ensures
            is_bytes_of(out, self@.file_data),
    {
        vec_from_varlen(&self.file_data)
    }

    /// The icon of the attachment.
    pub fn icon_data(&self) -> (out: Option<Vec<u8>>)
        ensures
            is_bytes_of(out, self@.icon_data),
    {
        vec_from_varlen(&self.icon_data)
    }
}


/// Whether `r` is what decoding `bytes` gives: the document that the bytes
/// hold, or the first error that a reader of the bytes meets.
pub open spec fn is_decode_of(r: TNEFResult<TNEFFile>, bytes: Seq<u8>) -> bool {
    match decode_spec(bytes) {
        Ok(doc) => r matches Ok(file) && file@ == doc,
        Err(e) => r matches Err(x) && x == e,
    }
}

/// A decoded document: the header fields of a message, its attachments in
/// the order of the stream, and its MAPI properties. It owns all of its
/// bytes and is never changed once decoded.
#[derive(Debug)]
pub struct TNEFFile {
    version: Vec<u8>,
    from: VariableLength,
    subject: VariableLength,
    date_sent: Dtr,
    date_received: Dtr,
    message_status: Vec<u8>,
    message_class: Vec<u8>,
    message_id: Vec<u8>,
    parent_id: Vec<u8>,
    conversation_id: Vec<u8>,
    body: VariableLength,
    priority: Vec<u8>,
    /// Every attachment but the last, the starting attachment first.
    earlier: Vec<TNEFAttachment>,
    /// The last attachment: the one that attachment-level blocks fill.
    last: TNEFAttachment,
    date_modified: Dtr,
    mapi_properties: Vec<MAPIProperty>,
    code_page: VariableLength,
    original_message_class: VariableLength,
    owner: VariableLength,
    sent_for: VariableLength,
    delegate: VariableLength,
    date_start: Dtr,
    date_end: Dtr,
    aid_owner: VariableLength,
}

impl View for TNEFFile {
    type V = DocumentView;

    closed spec fn view(&self) -> DocumentView {
        DocumentView {
            version: self.version@,
            from: self.from@,
            subject: self.subject@,
            date_sent: self.date_sent,
            date_received: self.date_received,
            message_status: self.message_status@,
            message_class: self.message_class@,
            message_id: self.message_id@,
            parent_id: self.parent_id@,
            conversation_id: self.conversation_id@,
            body: self.body@,
            priority: self.priority@,
            attachments: attachments_view(self.earlier@).push(self.last@),
            date_modified: self.date_modified,
            mapi_properties: properties_view(self.mapi_properties@),
            code_page: self.code_page@,
            original_message_class: self.original_message_class@,
            owner: self.owner@,
            sent_for: self.sent_for@,
            delegate: self.delegate@,
            date_start: self.date_start,
            date_end: self.date_end,
            aid_owner: self.aid_owner@,
        }
    }
}

fn read_dtr(payload: &[u8]) -> (out: Dtr)
    requires
        payload@.len() >= 14,
    ensures
        out == dtr_of(payload@),
{
    Dtr {
        year: read_u16_le(payload, 0),
        month: read_u16_le(payload, 2),
        day: read_u16_le(payload, 4),
        hour: read_u16_le(payload, 6),
        minute: read_u16_le(payload, 8),
        second: read_u16_le(payload, 10),
        day_of_week: read_u16_le(payload, 12),
    }
}

fn read_render_data(payload: &[u8]) -> (out: TNEFAttachmentRenderData)
    requires
        payload@.len() >= 14,
    ensures
        out == render_data_of(payload@),
{
    TNEFAttachmentRenderData {
        attach_type: read_u16_le(payload, 0),
        position: read_u32_le(payload, 2),
        width: read_u16_le(payload, 6),
        height: read_u16_le(payload, 8),
        flags: read_u32_le(payload, 10),
    }
}

fn whole(payload: &[u8]) -> (out: Vec<u8>)
    ensures
        out@ == payload@,
{
    let out = copy_range(payload, 0, payload.len());
    assert(out@ =~= payload@);
    out
}

fn blob(payload: &[u8]) -> (out: VariableLength)
    ensures
        out@ == payload@,
{
    VariableLength::new(whole(payload))
}

fn clip(payload: &[u8], width: usize) -> (out: Vec<u8>)
    requires
        width >= 1,
    ensures
        out@ == clipped(payload@, width as int),
{
    if payload.len() < width {
        whole(payload)
    } else {
        copy_range(payload, 0, width - 1)
    }
}

fn push_decimal(out: &mut Vec<u8>, n: u16)
    ensures
        final(out)@ == old(out)@ + decimal(n as nat),
    decreases n,
{
    if n >= 10 {
        push_decimal(out, n / 10);
    }
    let digit: u8 = (48 + n % 10) as u8;
    out.push(digit);
    proof {
        if n >= 10 {
            assert(out@ =~= old(out)@ + decimal((n / 10) as nat).push(digit));
        } else {
            assert(out@ =~= old(out)@ + seq![digit]);
        }
    }
}

fn version_bytes(payload: &[u8]) -> (out: Vec<u8>)
    requires
        payload@.len() == 4,
    ensures
        out@ == version_text(payload@),
{
    let minor: u16 = read_u16_le(payload, 0);
    let major: u16 = read_u16_le(payload, 2);
    let mut out: Vec<u8> = Vec::new();
    out.push(0x54u8);
    out.push(0x4Eu8);
    out.push(0x45u8);
    out.push(0x46u8);
    assert(out@ =~= seq![0x54u8, 0x4Eu8, 0x45u8, 0x46u8]);
    push_decimal(&mut out, major);
    out.push(0x2Eu8);
    push_decimal(&mut out, minor);
    assert(out@ =~= version_text(payload@));
    out
}

fn leading_value(payload: &[u8]) -> (out: u32)
    ensures
        out == leading_u32_le(payload@),
{
    let n: usize = payload.len();
    let b0: u32 = if n > 0 { payload[0] as u32 } else { 0 };
    let b1: u32 = if n > 1 { payload[1] as u32 } else { 0 };
    let b2: u32 = if n > 2 { payload[2] as u32 } else { 0 };
    let b3: u32 = if n > 3 { payload[3] as u32 } else { 0 };
    b0 + 256 * b1 + 65536 * b2 + 16777216 * b3
}

fn priority_bytes(payload: &[u8]) -> (out: Vec<u8>)
    ensures
        out@ == priority_text(payload@),
{
    let value: u32 = leading_value(payload);
    let mut out: Vec<u8> = Vec::new();
    if value == 3 {
        out.push(0x68u8);
        out.push(0x69u8);
        out.push(0x67u8);
        out.push(0x68u8);
        assert(out@ =~= seq![0x68u8, 0x69u8, 0x67u8, 0x68u8]);
    } else if value == 2 {
        out.push(0x6Eu8);
        out.push(0x6Fu8);
        out.push(0x72u8);
        out.push(0x6Du8);
        out.push(0x61u8);
        out.push(0x6Cu8);
        assert(out@ =~= seq![0x6Eu8, 0x6Fu8, 0x72u8, 0x6Du8, 0x61u8, 0x6Cu8]);
    } else if value == 1 {
        out.push(0x6Cu8);
        out.push(0x6Fu8);
        out.push(0x77u8);
        assert(out@ =~= seq![0x6Cu8, 0x6Fu8, 0x77u8]);
    } else {
        out.push(0x4Eu8);
        out.push(0x2Fu8);
        out.push(0x41u8);
        assert(out@ =~= seq![0x4Eu8, 0x2Fu8, 0x41u8]);
    }
    out
}

proof fn lemma_attachments_push(v: Seq<TNEFAttachment>, x: TNEFAttachment)
    ensures
        attachments_view(v.push(x)) == attachments_view(v).push(x@),
{
    assert(attachments_view(v.push(x)) =~= attachments_view(v).push(x@));
}

impl TNEFAttachment {
    fn fill(&mut self, tag: u32, payload: &[u8]) -> (r: Result<(), TNEFError>)
        ensures
            match fill_attachment(old(self)@, tag, payload@) {
                Ok(filled) => r is Ok && final(self)@ == filled,
                Err(e) => r == Err::<(), TNEFError>(e),
            },
    {
        if tag == ATT_ATTACH_TITLE {
            self.title = blob(payload);
        } else if tag == ATT_ATTACH_DATA {
            self.file_data = blob(payload);
        } else if tag == ATT_ATTACH_META_FILE {
            self.icon_data = blob(payload);
        } else if tag == ATT_ATTACH_TRANSPORT_FILENAME {
            self.transport_filename = blob(payload);
        } else if tag == ATT_ATTACH_CREATE_DATE || tag == ATT_ATTACH_MODIFY_DATE {
            if payload.len() < 14 {
                return Err(TNEFError::ErrorInHandler);
            }
            if tag == ATT_ATTACH_CREATE_DATE {
                self.create_date = read_dtr(payload);
            } else {
                self.modify_date = read_dtr(payload);
            }
        }
        Ok(())
    }
}

impl TNEFFile {
    fn blank() -> (out: Self)
        ensures
            out@ == empty_document(),
    {
        let earlier: Vec<TNEFAttachment> = Vec::new();
        let properties: Vec<MAPIProperty> = Vec::new();
        assert(attachments_view(earlier@).push(empty_attachment()) =~= seq![empty_attachment()]);
        assert(properties_view(properties@) =~= Seq::empty());
        TNEFFile {
            version: Vec::new(),
            from: VariableLength::empty(),
            subject: VariableLength::empty(),
            date_sent: Dtr::zero(),
            date_received: Dtr::zero(),
            message_status: Vec::new(),
            message_class: Vec::new(),
            message_id: Vec::new(),
            parent_id: Vec::new(),
            conversation_id: Vec::new(),
            body: VariableLength::empty(),
            priority: Vec::new(),
            earlier,
            last: TNEFAttachment::new(),
            date_modified: Dtr::zero(),
            mapi_properties: properties,
            code_page: VariableLength::empty(),
            original_message_class: VariableLength::empty(),
            owner: VariableLength::empty(),
            sent_for: VariableLength::empty(),
            delegate: VariableLength::empty(),
            date_start: Dtr::zero(),
            date_end: Dtr::zero(),
            aid_owner: VariableLength::empty(),
        }
    }

    fn apply_message(&mut self, tag: u32, payload: &[u8]) -> (r: Result<(), TNEFError>)
        ensures
            match apply_message_block(old(self)@, tag, payload@) {
                Ok(doc) => r is Ok && final(self)@ == doc,
                Err(e) => r == Err::<(), TNEFError>(e),
            },
    {
        if tag == ATT_TNEF_VERSION {
            if payload.len() != 4 {
                return Err(TNEFError::ErrorInHandler);
            }
            self.version = version_bytes(payload);
        } else if tag == ATT_FROM {
            self.from = blob(payload);
        } else if tag == ATT_SUBJECT {
            self.subject = blob(payload);
        } else if tag == ATT_BODY {
            self.body = blob(payload);
        } else if tag == ATT_MESSAGE_STATUS {
            self.message_status = clip(payload, 10);
        } else if tag == ATT_MESSAGE_CLASS {
            self.message_class = clip(payload, 50);
        } else if tag == ATT_MESSAGE_ID {
            self.message_id = clip(payload, 50);
        } else if tag == ATT_PARENT_ID {
            self.parent_id = clip(payload, 50);
        } else if tag == ATT_CONVERSATION_ID {
            self.conversation_id = clip(payload, 50);
        } else if tag == ATT_PRIORITY {
            self.priority = priority_bytes(payload);
        } else if tag == ATT_OEM_CODEPAGE {
            self.code_page = blob(payload);
        } else if tag == ATT_ORIGINAL_MESSAGE_CLASS {
            self.original_message_class = blob(payload);
        } else if tag == ATT_OWNER {
            self.owner = blob(payload);
        } else if tag == ATT_SENT_FOR {
            self.sent_for = blob(payload);
        } else if tag == ATT_DELEGATE {
            self.delegate = blob(payload);
        } else if tag == ATT_AID_OWNER {
            self.aid_owner = blob(payload);
        } else if tag == ATT_DATE_SENT || tag == ATT_DATE_RECEIVED || tag == ATT_DATE_MODIFIED
            || tag == ATT_DATE_START || tag == ATT_DATE_END {
            if payload.len() < 14 {
                return Err(TNEFError::ErrorInHandler);
            }
            let date = read_dtr(payload);
            if tag == ATT_DATE_SENT {
                self.date_sent = date;
            } else if tag == ATT_DATE_RECEIVED {
                self.date_received = date;
            } else if tag == ATT_DATE_MODIFIED {
                self.date_modified = date;
            } else if tag == ATT_DATE_START {
                self.date_start = date;
            } else {
                self.date_end = date;
            }
        } else if tag == ATT_MAPI_PROPS {
            match parse_mapi_properties(payload) {
                None => {
                    return Err(TNEFError::ErrorInHandler);
                },
                Some(properties) => {
                    self.mapi_properties = properties;
                },
            }
        }
        Ok(())
    }

    fn apply_attachment(&mut self, tag: u32, payload: &[u8]) -> (r: Result<(), TNEFError>)
        ensures
            match apply_attachment_block(old(self)@, tag, payload@) {
                Ok(doc) => r is Ok && final(self)@ == doc,
                Err(e) => r == Err::<(), TNEFError>(e),
            },
    {
        if tag == ATT_ATTACH_REND_DATA {
            if payload.len() < 14 {
                return Err(TNEFError::ErrorInHandler);
            }
            let mut fresh = TNEFAttachment::new();
            fresh.render_data = read_render_data(payload);
            core::mem::swap(&mut self.last, &mut fresh);
            proof {
                lemma_attachments_push(self.earlier@, fresh);
            }
            self.earlier.push(fresh);
            Ok(())
        } else {
            let ghost before = self@.attachments;
            let r = self.last.fill(tag, payload);
            proof {
                if r is Ok {
                    assert(self@.attachments =~= before.update(before.len() - 1, self.last@));
                }
            }
            r
        }
    }

    fn apply(&mut self, level: u8, tag: u32, payload: &[u8]) -> (r: Result<(), TNEFError>)
        ensures
            match apply_block(old(self)@, level, tag, payload@) {
                Ok(doc) => r is Ok && final(self)@ == doc,
                Err(e) => r == Err::<(), TNEFError>(e),
            },
    {
        if level == LVL_MESSAGE {
            self.apply_message(tag, payload)
        } else if level == LVL_ATTACHMENT {
            self.apply_attachment(tag, payload)
        } else {
            Ok(())
        }
    }

    /// Decodes a document from a buffer in memory, which is left as it is.
    /// The result is the document that the bytes hold, or the first error
    /// that a reader of the bytes meets; there is no partial document.
    pub fn from_buffer(buffer: &mut [u8]) -> (r: TNEFResult<Self>)
        ensures
            is_decode_of(r, old(buffer)@),
            final(buffer)@ == old(buffer)@,
    {
        TNEFFile::decode(buffer)
    }

    /// Decodes a document from the bytes of a stream. The result is the
    /// document that the bytes hold, or the first error that a reader of
    /// the bytes meets; there is no partial document.
    pub fn decode(buffer: &[u8]) -> (r: TNEFResult<Self>)
        ensures
            is_decode_of(r, buffer@),
    {
        let len: usize = buffer.len();
        if len < 4 {
            return Err(TNEFError::ErrorReadingData);
        }
        if read_u32_le(buffer, 0) != SIGNATURE {
            return Err(TNEFError::NotTnefStream);
        }
        if len < 6 {
            return Err(TNEFError::NoKey);
        }
        let mut file = TNEFFile::blank();
        let mut pos: usize = 6;
        while pos < len
            invariant
                6 <= pos <= len,
                len == buffer@.len(),
                decode_spec(buffer@) == blocks_spec(buffer@, pos as int, file@),
            decreases len - pos,
        {
            if len - pos < 9 {
                return Err(TNEFError::ErrorReadingData);
            }
            let level: u8 = buffer[pos];
            let tag: u32 = read_u32_le(buffer, pos + 1);
            let length: u32 = read_u32_le(buffer, pos + 5);
            let avail: usize = len - pos - 9;
            if length == 0 || length as u64 + 2 > avail as u64 {
                return Err(TNEFError::ErrorReadingData);
            }
            let end: usize = pos + 9 + length as usize;
            let payload = slice_subrange(buffer, pos + 9, end);
            if compute_checksum(payload) != read_u16_le(buffer, end) {
                return Err(TNEFError::BadChecksum);
            }
            match file.apply(level, tag, payload) {
                Err(e) => {
                    return Err(e);
                },
                Ok(_) => {},
            }
            pos = end + 2;
        }
        Ok(file)
    }
}


impl TNEFFile {
    /// The version text of the stream.
    pub fn version(&self) -> (out: String)
        ensures
            is_fixed_text_of(out, self@.version),
    {
        make_safe_string(self.version.as_slice())
    }

    /// The sender.
    pub fn from(&self) -> (out: Option<String>)
        ensures
            is_text_of(out, self@.from),
    {
        string_from_varlen(&self.from)
    }

    /// The subject.
    pub fn subject(&self) -> (out: Option<String>)
        ensures
            is_text_of(out, self@.subject),
    {
        string_from_varlen(&self.subject)
    }

    /// The date record of sending, as the stream holds it.
    pub fn date_sent_dtr(&self) -> (out: Dtr)
        ensures
            out == self@.date_sent,
    {
        self.date_sent
    }

    /// The date record of receipt, as the stream holds it.
    pub fn date_received_dtr(&self) -> (out: Dtr)
        ensures
            out == self@.date_received,
    {
        self.date_received
    }

    /// The date record of the last change, as the stream holds it.
    pub fn date_modified_dtr(&self) -> (out: Dtr)
        ensures
            out == self@.date_modified,
    {
        self.date_modified
    }

    /// The date record of the start, as the stream holds it.
    pub fn date_start_dtr(&self) -> (out: Dtr)
        ensures
            out == self@.date_start,
    {
        self.date_start
    }

    /// The date record of the end, as the stream holds it.
    pub fn date_end_dtr(&self) -> (out: Dtr)
        ensures
            out == self@.date_end,
    {
        self.date_end
    }

    /// The date of sending.
    pub fn date_sent(&self) -> (out: NaiveDateTime)
        requires
            self@.date_sent.is_calendar(),
        ensures
            out == datetime_of(self@.date_sent),
    {
        datetime_from_dtr(self.date_sent)
    }

    /// The date of receipt.
    pub fn date_received(&self) -> (out: NaiveDateTime)
        requires
            self@.date_received.is_calendar(),
        ensures
            out == datetime_of(self@.date_received),
    {
        datetime_from_dtr(self.date_received)
    }

    /// The date of the last change.
    pub fn date_modified(&self) -> (out: NaiveDateTime)
        requires
            self@.date_modified.is_calendar(),
        ensures
            out == datetime_of(self@.date_modified),
    {
        datetime_from_dtr(self.date_modified)
    }

    /// The date of the start.
    pub fn date_start(&self) -> (out: NaiveDateTime)
        requires
            self@.date_start.is_calendar(),
        ensures
            out == datetime_of(self@.date_start),
    {
        datetime_from_dtr(self.date_start)
    }

    /// The date of the end.
    pub fn date_end(&self) -> (out: NaiveDateTime)
        requires
            self@.date_end.is_calendar(),
        ensures
            out == datetime_of(self@.date_end),
    {
        datetime_from_dtr(self.date_end)
    }

    /// The status of the message.
    pub fn message_status(&self) -> (out: String)
        ensures
            is_fixed_text_of(out, self@.message_status),
    {
        make_safe_string(self.message_status.as_slice())
    }

    /// The class of the message.
    pub fn message_class(&self) -> (out: String)
        ensures
            is_fixed_text_of(out, self@.message_class),
    {
        make_safe_string(self.message_class.as_slice())
    }

    /// The identifier of the message.
    pub fn message_id(&self) -> (out: String)
        ensures
            is_fixed_text_of(out, self@.message_id),
    {
        make_safe_string(self.message_id.as_slice())
    }

    /// The identifier of the message that this one answers.
    pub fn parent_id(&self) -> (out: String)
        ensures
            is_fixed_text_of(out, self@.parent_id),
    {
        make_safe_string(self.parent_id.as_slice())
    }

    /// The identifier of the conversation.
    pub fn conversation_id(&self) -> (out: String)
        ensures
            is_fixed_text_of(out, self@.conversation_id),
    {
        make_safe_string(self.conversation_id.as_slice())
    }

    /// The body of the message.
    pub fn body(&self) -> (out: Option<String>)
        ensures
            is_text_of(out, self@.body),
    {
        string_from_varlen(&self.body)
    }

    /// The priority of the message.
    pub fn priority(&self) -> (out: String)
        ensures
            is_fixed_text_of(out, self@.priority),
    {
        make_safe_string(self.priority.as_slice())
    }

    /// The attachments in the order of the stream, the starting attachment
    /// first. There is always at least that one.
    pub fn attachments(&self) -> (out: Vec<TNEFAttachment>)
        ensures
            attachments_view(out@) == self@.attachments,
            out@.len() >= 1,
    {
        let mut output: Vec<TNEFAttachment> = Vec::new();
        let mut i: usize = 0;
        while i < self.earlier.len()
            invariant
                i <= self.earlier@.len(),
                output@.len() == i,
                forall|k: int| 0 <= k < i ==> (#[trigger] output@[k])@ == self.earlier@[k]@,
            decreases self.earlier@.len() - i,
        {
            output.push(self.earlier[i].clone());
            i = i + 1;
        }
        output.push(self.last.clone());
        assert(attachments_view(output@) =~= self@.attachments);
        output
    }

    /// The MAPI properties of the message in the order of the stream.
    pub fn mapi_properties(&self) -> (out: Vec<MAPIProperty>)
        ensures
            properties_view(out@) == self@.mapi_properties,
    {
        let mut output: Vec<MAPIProperty> = Vec::new();
        let mut i: usize = 0;
        while i < self.mapi_properties.len()
            invariant
                i <= self.mapi_properties@.len(),
                output@.len() == i,
                forall|k: int| 0 <= k < i ==> (#[trigger] output@[k])@ == self.mapi_properties@[k]@,
            decreases self.mapi_properties@.len() - i,
        {
            output.push(self.mapi_properties[i].clone());
            i = i + 1;
        }
        assert(properties_view(output@) =~= self@.mapi_properties);
        output
    }

    /// The code page of the message, as the stream holds it.
    pub fn code_page(&self) -> (out: Option<Vec<u8>>)
        ensures
            is_bytes_of(out, self@.code_page),
    {
        vec_from_varlen(&self.code_page)
    }

    /// The class that the message had at first.
    pub fn original_message_class(&self) -> (out: Option<String>)
        ensures
            is_text_of(out, self@.original_message_class),
    {
        string_from_varlen(&self.original_message_class)
    }

    /// The owner of the message.
    pub fn owner(&self) -> (out: Option<String>)
        ensures
            is_text_of(out, self@.owner),
    {
        string_from_varlen(&self.owner)
    }

    /// For whom the message was sent.
    pub fn sent_for(&self) -> (out: Option<String>)
        ensures
            is_text_of(out, self@.sent_for),
    {
        string_from_varlen(&self.sent_for)
    }

    /// The delegate of the message.
    pub fn delegate(&self) -> (out: Option<String>)
        ensures
            is_text_of(out, self@.delegate),
    {
        string_from_varlen(&self.delegate)
    }

    /// The identifier of the owner's appointment.
    pub fn aid_owner(&self) -> (out: Option<String>)
        ensures
            is_text_of(out, self@.aid_owner),
    {
        string_from_varlen(&self.aid_owner)
    }
}

} // verus!
