use tnef::bytes::compute_checksum;
use tnef::source::BufferSource;
use tnef::utils::Dtr;
use tnef::{TNEFAttachmentRenderData, TNEFError, TNEFFile};

fn le16(v: u16) -> Vec<u8> {
    vec![(v & 0xff) as u8, (v >> 8) as u8]
}

fn le32(v: u32) -> Vec<u8> {
    vec![(v & 0xff) as u8, ((v >> 8) & 0xff) as u8, ((v >> 16) & 0xff) as u8, (v >> 24) as u8]
}

fn block(level: u8, tag: u32, payload: &[u8]) -> Vec<u8> {
    let mut out = vec![level];
    out.extend(le32(tag));
    out.extend(le32(payload.len() as u32));
    out.extend_from_slice(payload);
    let sum: u32 = payload.iter().map(|b| *b as u32).sum();
    out.extend(le16((sum % 65536) as u16));
    out
}

fn preamble() -> Vec<u8> {
    let mut out = le32(0x223E9F78);
    out.extend(le16(0x0001));
    out
}

fn dtr_bytes(y: u16, mo: u16, d: u16, h: u16, mi: u16, s: u16, dow: u16) -> Vec<u8> {
    let mut out = Vec::new();
    for v in [y, mo, d, h, mi, s, dow] {
        out.extend(le16(v));
    }
    out
}

fn rend_data(atyp: u16, position: u32, width: u16, height: u16, flags: u32) -> Vec<u8> {
    let mut out = le16(atyp);
    out.extend(le32(position));
    out.extend(le16(width));
    out.extend(le16(height));
    out.extend(le32(flags));
    out
}

/// A property list with three properties: a 32-bit integer, an 8-bit
/// string of five bytes and a named binary property.
fn mapi_payload() -> Vec<u8> {
    let mut p = le32(3);
    // PT_LONG (3), identifier 0x0017
    p.extend(le32(0x0017_0003));
    p.extend(le32(2));
    // PT_STRING8 (30), identifier 0x0037, one object of five bytes
    p.extend(le32(0x0037_001E));
    p.extend(le32(1));
    p.extend(le32(5));
    p.extend_from_slice(b"Hello");
    p.extend_from_slice(&[0, 0, 0]);
    // PT_BINARY (258), identifier 0x8001: named, one name of eight bytes
    p.extend(le32(0x8001_0102));
    p.extend_from_slice(&[7u8; 16]);
    p.extend(le32(1));
    p.extend(le32(8));
    p.extend_from_slice(&[b'K', 0, b'e', 0, b'y', 0, b's', 0]);
    p.extend(le32(1));
    p.extend(le32(2));
    p.extend_from_slice(&[0xAA, 0xBB, 0, 0]);
    p
}

/// A stream with a version, header fields, a property list and two
/// attachments behind the starting one.
fn winmail() -> Vec<u8> {
    let mut s = preamble();
    s.extend(block(1, 0x0008_9006, &[0, 0, 1, 0]));
    s.extend(block(1, 0x0006_9007, &[0xE4, 0x04, 0, 0, 0, 0, 0, 0]));
    s.extend(block(1, 0x0007_8008, b"IPM.Microsoft Mail.Note\0"));
    s.extend(block(1, 0x0001_8004, b"Quarterly report"));
    s.extend(block(1, 0x0000_8000, b"alice@example.com"));
    s.extend(block(1, 0x0002_800C, b"See the attached files."));
    s.extend(block(1, 0x0004_800D, &[3, 0]));
    s.extend(block(1, 0x0003_8005, &dtr_bytes(2003, 7, 14, 9, 30, 15, 1)));
    s.extend(block(1, 0x0006_9003, &mapi_payload()));
    s.extend(block(2, 0x0006_9002, &rend_data(1, 0xFFFF_FFFF, 32, 48, 0)));
    s.extend(block(2, 0x0001_8010, b"report.txt"));
    s.extend(block(2, 0x0006_800F, b"first file"));
    s.extend(block(2, 0x0003_8012, &dtr_bytes(2003, 7, 13, 8, 0, 0, 0)));
    s.extend(block(2, 0x0006_9002, &rend_data(2, 7, 1, 2, 3)));
    s.extend(block(2, 0x0001_8010, b"image.png"));
    s.extend(block(2, 0x0006_800F, &[0x89, 0x50, 0x4E, 0x47]));
    s.extend(block(2, 0x0006_8011, &[1, 2, 3]));
    s
}

#[test]
fn new_from_buffer() {
    let mut buffer: Vec<u8> = winmail();
    let _ = TNEFFile::from_buffer(&mut buffer).unwrap();
}

#[test]
fn from_buffer_leaves_the_buffer_as_it_is() {
    let mut buffer: Vec<u8> = winmail();
    let doc = TNEFFile::from_buffer(&mut buffer).unwrap();
    assert_eq!(buffer, winmail());
    assert_eq!(format!("{:?}", doc), format!("{:?}", TNEFFile::decode(&winmail()).unwrap()));
    let mut bad: Vec<u8> = vec![0x78, 0x9F, 0x3E, 0x23, 0, 0];
    assert_eq!(TNEFFile::from_buffer(&mut bad).err(), Some(TNEFError::NotTnefStream));
    assert_eq!(bad, vec![0x78, 0x9F, 0x3E, 0x23, 0, 0]);
}

#[test]
fn new_from_file() {
    let file = BufferSource::new(winmail());
    let _ = TNEFFile::new(file).unwrap();
}

#[test]
fn fixture_counts_and_version() {
    let doc = TNEFFile::decode(&winmail()).unwrap();
    assert_eq!(doc.attachments().len(), 3);
    assert_eq!(doc.mapi_properties().len(), 3);
    assert_eq!(doc.version(), "TNEF1.0");
}

#[test]
fn fixture_header_fields() {
    let doc = TNEFFile::decode(&winmail()).unwrap();
    assert_eq!(doc.message_class(), "IPM.Microsoft Mail.Note");
    assert_eq!(doc.subject(), Some("Quarterly report".to_string()));
    assert_eq!(doc.from(), Some("alice@example.com".to_string()));
    assert_eq!(doc.body(), Some("See the attached files.".to_string()));
    assert_eq!(doc.priority(), "high");
    assert_eq!(doc.code_page(), Some(vec![0xE4, 0x04, 0, 0, 0, 0, 0, 0]));
    assert_eq!(doc.message_id(), "");
    assert_eq!(doc.parent_id(), "");
    assert_eq!(doc.conversation_id(), "");
    assert_eq!(doc.message_status(), "");
    assert_eq!(doc.owner(), None);
    assert_eq!(doc.sent_for(), None);
    assert_eq!(doc.delegate(), None);
    assert_eq!(doc.aid_owner(), None);
    assert_eq!(doc.original_message_class(), None);
    assert_eq!(
        doc.date_sent_dtr(),
        Dtr { year: 2003, month: 7, day: 14, hour: 9, minute: 30, second: 15, day_of_week: 1 }
    );
    assert_eq!(doc.date_received_dtr(), Dtr::zero());
}

#[test]
fn fixture_dates_are_chrono_dates() {
    let doc = TNEFFile::decode(&winmail()).unwrap();
    assert!(doc.date_sent_dtr().is_valid());
    let expected = chrono::NaiveDate::from_ymd_opt(2003, 7, 14)
        .unwrap()
        .and_hms_opt(9, 30, 15)
        .unwrap();
    assert_eq!(doc.date_sent(), expected);
    let attachments = doc.attachments();
    assert!(attachments[1].create_date_dtr().is_valid());
    let created =
        chrono::NaiveDate::from_ymd_opt(2003, 7, 13).unwrap().and_hms_opt(8, 0, 0).unwrap();
    assert_eq!(attachments[1].create_date(), created);
    assert!(!doc.date_received_dtr().is_valid());
    assert!(!attachments[1].date_dtr().is_valid());
    assert!(!attachments[1].modify_date_dtr().is_valid());
}

#[test]
fn fixture_attachments_in_stream_order() {
    let doc = TNEFFile::decode(&winmail()).unwrap();
    let attachments = doc.attachments();
    assert_eq!(attachments[0].title(), None);
    assert_eq!(attachments[0].file_data(), None);
    assert_eq!(attachments[1].title(), Some("report.txt".to_string()));
    assert_eq!(attachments[1].file_data(), Some(b"first file".to_vec()));
    assert_eq!(attachments[1].icon_data(), None);
    assert_eq!(attachments[1].transport_filename(), None);
    assert_eq!(
        attachments[1].render_data(),
        TNEFAttachmentRenderData {
            attach_type: 1,
            position: 0xFFFF_FFFF,
            width: 32,
            height: 48,
            flags: 0
        }
    );
    assert_eq!(attachments[2].title(), Some("image.png".to_string()));
    assert_eq!(attachments[2].file_data(), Some(vec![0x89, 0x50, 0x4E, 0x47]));
    assert_eq!(attachments[2].icon_data(), Some(vec![1, 2, 3]));
    assert_eq!(
        attachments[2].render_data(),
        TNEFAttachmentRenderData { attach_type: 2, position: 7, width: 1, height: 2, flags: 3 }
    );
}

#[test]
fn starting_attachment_is_always_there() {
    let doc = TNEFFile::decode(&preamble()).unwrap();
    let attachments = doc.attachments();
    assert_eq!(attachments.len(), 1);
    assert_eq!(attachments[0].title(), None);
    assert_eq!(attachments[0].transport_filename(), None);
    assert_eq!(attachments[0].file_data(), None);
    assert_eq!(attachments[0].icon_data(), None);
    assert_eq!(attachments[0].date_dtr(), Dtr::zero());
    assert_eq!(attachments[0].create_date_dtr(), Dtr::zero());
    assert_eq!(attachments[0].modify_date_dtr(), Dtr::zero());
    assert_eq!(
        attachments[0].render_data(),
        TNEFAttachmentRenderData { attach_type: 0, position: 0, width: 0, height: 0, flags: 0 }
    );
    assert_eq!(doc.mapi_properties().len(), 0);
    assert_eq!(doc.version(), "");
}

#[test]
fn starting_attachment_takes_blocks_before_the_first_new_one() {
    let mut s = preamble();
    s.extend(block(2, 0x0001_8010, b"early.txt"));
    s.extend(block(2, 0x0006_9001, b"EARLY~1.TXT"));
    s.extend(block(2, 0x0003_8013, &dtr_bytes(1999, 12, 31, 23, 59, 59, 5)));
    s.extend(block(2, 0x0006_9002, &rend_data(1, 2, 3, 4, 5)));
    let doc = TNEFFile::decode(&s).unwrap();
    let attachments = doc.attachments();
    assert_eq!(attachments.len(), 2);
    assert_eq!(attachments[0].title(), Some("early.txt".to_string()));
    assert_eq!(attachments[0].transport_filename(), Some("EARLY~1.TXT".to_string()));
    assert_eq!(
        attachments[0].modify_date_dtr(),
        Dtr { year: 1999, month: 12, day: 31, hour: 23, minute: 59, second: 59, day_of_week: 5 }
    );
    assert_eq!(attachments[1].title(), None);
    assert_eq!(attachments[1].render_data().flags, 5);
}

#[test]
fn corrupted_signature_is_not_a_tnef_stream() {
    let mut s = winmail();
    s[0] ^= 0xff;
    assert_eq!(TNEFFile::decode(&s).err(), Some(TNEFError::NotTnefStream));
    assert_eq!(TNEFFile::decode(&[1, 2, 3, 4]).err(), Some(TNEFError::NotTnefStream));
}

#[test]
fn tampered_checksum_is_a_bad_checksum() {
    let mut s = preamble();
    s.extend(block(1, 0x0008_9006, &[0, 0, 1, 0]));
    let last = s.len() - 1;
    s[last] ^= 0x01;
    assert_eq!(TNEFFile::decode(&s).err(), Some(TNEFError::BadChecksum));
    let mut t = winmail();
    let last = t.len() - 2;
    t[last] = t[last].wrapping_add(1);
    assert_eq!(TNEFFile::decode(&t).err(), Some(TNEFError::BadChecksum));
}

#[test]
fn truncated_stream_is_an_error_reading_data() {
    let s = winmail();
    for cut in [7usize, 10, 14, 15, 16, 18, s.len() - 1, s.len() - 2, s.len() - 3] {
        assert_eq!(
            TNEFFile::decode(&s[..cut]).err(),
            Some(TNEFError::ErrorReadingData),
            "cut at {}",
            cut
        );
    }
    assert_eq!(TNEFFile::decode(&[]).err(), Some(TNEFError::ErrorReadingData));
    assert_eq!(TNEFFile::decode(&s[..3]).err(), Some(TNEFError::ErrorReadingData));
}

#[test]
fn a_cut_at_the_end_of_a_block_is_a_shorter_document() {
    let mut s = preamble();
    s.extend(block(1, 0x0008_9006, &[0, 0, 1, 0]));
    let cut = s.len();
    s.extend(block(1, 0x0001_8004, b"subject"));
    let doc = TNEFFile::decode(&s[..cut]).unwrap();
    assert_eq!(doc.version(), "TNEF1.0");
    assert_eq!(doc.subject(), None);
}

#[test]
fn missing_key_is_no_key() {
    let s = preamble();
    assert_eq!(TNEFFile::decode(&s[..4]).err(), Some(TNEFError::NoKey));
    assert_eq!(TNEFFile::decode(&s[..5]).err(), Some(TNEFError::NoKey));
}

#[test]
fn block_of_length_zero_is_an_error_reading_data() {
    let mut s = preamble();
    s.extend(block(1, 0x0001_8004, &[]));
    assert_eq!(TNEFFile::decode(&s).err(), Some(TNEFError::ErrorReadingData));
}

#[test]
fn impossibly_large_length_is_an_error_reading_data() {
    let mut s = preamble();
    s.push(1);
    s.extend(le32(0x0001_8004));
    s.extend(le32(0xFFFF_FFFF));
    s.extend_from_slice(b"short");
    assert_eq!(TNEFFile::decode(&s).err(), Some(TNEFError::ErrorReadingData));
}

#[test]
fn short_payload_of_a_known_tag_is_an_error_in_handler() {
    let mut s = preamble();
    s.extend(block(1, 0x0003_8005, &[1, 2, 3]));
    assert_eq!(TNEFFile::decode(&s).err(), Some(TNEFError::ErrorInHandler));
    let mut t = preamble();
    t.extend(block(1, 0x0008_9006, &[0, 0, 1]));
    assert_eq!(TNEFFile::decode(&t).err(), Some(TNEFError::ErrorInHandler));
    let mut u = preamble();
    u.extend(block(2, 0x0006_9002, &[0; 13]));
    assert_eq!(TNEFFile::decode(&u).err(), Some(TNEFError::ErrorInHandler));
    let mut v = preamble();
    v.extend(block(2, 0x0003_8012, &[0; 13]));
    assert_eq!(TNEFFile::decode(&v).err(), Some(TNEFError::ErrorInHandler));
}

#[test]
fn unknown_tags_and_levels_are_skipped() {
    let mut s = preamble();
    s.extend(block(1, 0x0006_9004, &[1, 0, 0, 0]));
    s.extend(block(1, 0x1234_5678, b"whatever"));
    s.extend(block(3, 0x0001_8004, b"not a subject"));
    s.extend(block(2, 0x0001_8004, b"not a subject either"));
    s.extend(block(1, 0x0001_8010, b"not a title"));
    s.extend(block(1, 0x0001_8004, b"the subject"));
    let doc = TNEFFile::decode(&s).unwrap();
    assert_eq!(doc.subject(), Some("the subject".to_string()));
    assert_eq!(doc.attachments().len(), 1);
    assert_eq!(doc.attachments()[0].title(), None);
}

#[test]
fn a_later_block_replaces_the_field() {
    let mut s = preamble();
    s.extend(block(1, 0x0007_8008, b"IPM.Note.Long"));
    s.extend(block(1, 0x0007_8008, b"IPM"));
    s.extend(block(1, 0x0001_8004, b"first"));
    s.extend(block(1, 0x0001_8004, b"second"));
    let doc = TNEFFile::decode(&s).unwrap();
    assert_eq!(doc.message_class(), "IPM");
    assert_eq!(doc.subject(), Some("second".to_string()));
}

#[test]
fn fixed_width_fields_are_clipped() {
    let long = [b'a'; 80];
    let mut s = preamble();
    s.extend(block(1, 0x0001_8009, &long));
    s.extend(block(1, 0x0001_800A, &long[..49]));
    s.extend(block(1, 0x0001_800B, &long[..50]));
    s.extend(block(1, 0x0006_8007, b"0123456789"));
    let doc = TNEFFile::decode(&s).unwrap();
    assert_eq!(doc.message_id(), "a".repeat(49));
    assert_eq!(doc.parent_id(), "a".repeat(49));
    assert_eq!(doc.conversation_id(), "a".repeat(49));
    assert_eq!(doc.message_status(), "012345678");
}

#[test]
fn fixed_width_text_is_lossy() {
    let mut s = preamble();
    s.extend(block(1, 0x0001_8009, &[b'a', 0xff, b'b', 0, b'c']));
    let doc = TNEFFile::decode(&s).unwrap();
    assert_eq!(doc.message_id(), "a\u{fffd}b");
}

#[test]
fn priority_texts() {
    for (payload, text) in [
        (vec![3u8, 0], "high"),
        (vec![2u8, 0], "normal"),
        (vec![1u8], "low"),
        (vec![0u8, 0], "N/A"),
        (vec![3u8, 1], "N/A"),
        (vec![1u8, 0, 0, 0, 9], "low"),
        (vec![1u8, 0, 0, 1], "N/A"),
    ] {
        let mut s = preamble();
        s.extend(block(1, 0x0004_800D, &payload));
        let doc = TNEFFile::decode(&s).unwrap();
        assert_eq!(doc.priority(), text);
    }
}

#[test]
fn version_texts() {
    for (payload, text) in [
        ([0u8, 0, 1, 0], "TNEF1.0"),
        ([0xffu8, 0xff, 0xff, 0xff], "TNEF65535.65535"),
        ([10u8, 0, 0, 0], "TNEF0.10"),
        ([0x39u8, 0x30, 0x2a, 0], "TNEF42.12345"),
    ] {
        let mut s = preamble();
        s.extend(block(1, 0x0008_9006, &payload));
        let doc = TNEFFile::decode(&s).unwrap();
        assert_eq!(doc.version(), text);
    }
}

#[test]
fn all_message_level_blobs() {
    let mut s = preamble();
    s.extend(block(1, 0x0007_0006, b"IPM.Original"));
    s.extend(block(1, 0x0006_0000, b"owner"));
    s.extend(block(1, 0x0006_0001, b"sent for"));
    s.extend(block(1, 0x0006_0002, b"delegate"));
    s.extend(block(1, 0x0005_0008, b"aid"));
    s.extend(block(1, 0x0003_8006, &dtr_bytes(1, 2, 3, 4, 5, 6, 7)));
    s.extend(block(1, 0x0003_8020, &dtr_bytes(8, 9, 10, 11, 12, 13, 14)));
    s.extend(block(1, 0x0003_0006, &dtr_bytes(15, 16, 17, 18, 19, 20, 21)));
    s.extend(block(1, 0x0003_0007, &dtr_bytes(22, 23, 24, 25, 26, 27, 28)));
    let doc = TNEFFile::decode(&s).unwrap();
    assert_eq!(doc.original_message_class(), Some("IPM.Original".to_string()));
    assert_eq!(doc.owner(), Some("owner".to_string()));
    assert_eq!(doc.sent_for(), Some("sent for".to_string()));
    assert_eq!(doc.delegate(), Some("delegate".to_string()));
    assert_eq!(doc.aid_owner(), Some("aid".to_string()));
    assert_eq!(doc.date_received_dtr().year, 1);
    assert_eq!(doc.date_received_dtr().day_of_week, 7);
    assert_eq!(doc.date_modified_dtr().month, 9);
    assert_eq!(doc.date_start_dtr().day, 17);
    assert_eq!(doc.date_end_dtr().hour, 25);
}

#[test]
fn invalid_utf8_text_field_is_absent_but_bytes_stay() {
    let mut s = preamble();
    s.extend(block(1, 0x0001_8004, &[0xff, 0xfe]));
    s.extend(block(1, 0x0006_9007, &[0xff, 0xfe]));
    let doc = TNEFFile::decode(&s).unwrap();
    assert_eq!(doc.subject(), None);
    assert_eq!(doc.code_page(), Some(vec![0xff, 0xfe]));
}

#[test]
fn decoding_twice_gives_equal_documents() {
    let s = winmail();
    let a = TNEFFile::decode(&s).unwrap();
    let b = TNEFFile::decode(&s).unwrap();
    assert_eq!(format!("{:?}", a), format!("{:?}", b));
    assert_eq!(a.version(), b.version());
    assert_eq!(a.subject(), b.subject());
    assert_eq!(a.attachments().len(), b.attachments().len());
    assert_eq!(a.mapi_properties().len(), b.mapi_properties().len());
}

#[test]
fn checksum_is_the_sum_of_the_bytes() {
    assert_eq!(compute_checksum(&[]), 0);
    assert_eq!(compute_checksum(&[1, 2, 3]), 6);
    assert_eq!(compute_checksum(&[0xff; 257]), (255u32 * 257 % 65536) as u16);
    assert_eq!(compute_checksum(&[0xff; 300]), (255u32 * 300 % 65536) as u16);
}
