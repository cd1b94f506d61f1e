use gmail_inbox::error::{GmailError, MissingParam};
use gmail_inbox::header::{
    create_email_header, headers_from_fetch, parse, parse_address, Address, Envelope, FetchRecord,
};
use gmail_inbox::inbox::extract_body;

fn addr(name: &[u8], mailbox: &[u8]) -> Address {
    Address {
        name: Some(name.to_vec()),
        mailbox: Some(mailbox.to_vec()),
    }
}

fn full_record(uid: u32) -> FetchRecord {
    FetchRecord {
        uid: Some(uid),
        internal_date: Some("2024-03-14 10:00:00 +00:00".to_string()),
        envelope: Some(Envelope {
            subject: Some(b"Hello".to_vec()),
            from: Some(vec![addr(b"Alice", b"alice@example.com")]),
        }),
        text: None,
    }
}

fn expect_missing(r: Result<gmail_inbox::header::EmailHeader, GmailError>, param: &str) {
    match r {
        Err(GmailError::UnspecifiedParameter(p)) => assert_eq!(p, param),
        other => panic!("expected missing {}, got {:?}", param, other),
    }
}

#[test]
fn complete_record_normalizes() {
    let h = create_email_header(&full_record(7)).unwrap();
    assert_eq!(h.uid, 7);
    assert_eq!(h.date, "2024-03-14 10:00:00 +00:00");
    assert_eq!(h.subject, "Hello");
    assert_eq!(h.from, "Alice <alice@example.com>");
}

#[test]
fn missing_internal_date_rejected() {
    let mut r = full_record(1);
    r.internal_date = None;
    expect_missing(create_email_header(&r), "INTERNALDATE");
}

#[test]
fn missing_envelope_rejected() {
    let mut r = full_record(1);
    r.envelope = None;
    expect_missing(create_email_header(&r), "ENVELOPE");
}

#[test]
fn missing_uid_rejected() {
    let mut r = full_record(1);
    r.uid = None;
    expect_missing(create_email_header(&r), "UID");
}

#[test]
fn missing_subject_rejected() {
    let mut r = full_record(1);
    r.envelope.as_mut().unwrap().subject = None;
    expect_missing(create_email_header(&r), "SUBJECT");
}

#[test]
fn missing_from_rejected() {
    let mut r = full_record(1);
    r.envelope.as_mut().unwrap().from = None;
    expect_missing(create_email_header(&r), "FROM");
}

#[test]
fn undecodable_subject_degrades_to_empty() {
    let mut r = full_record(1);
    r.envelope.as_mut().unwrap().subject = Some(vec![0xff, 0xfe]);
    let h = create_email_header(&r).unwrap();
    assert_eq!(h.subject, "");
}

#[test]
fn two_addresses_joined_with_semicolon() {
    let mut r = full_record(1);
    r.envelope.as_mut().unwrap().from = Some(vec![
        addr(b"Alice", b"alice@example.com"),
        addr(b"Bob", b"bob@example.com"),
    ]);
    let h = create_email_header(&r).unwrap();
    assert_eq!(h.from, "Alice <alice@example.com>;Bob <bob@example.com>");
}

#[test]
fn undecodable_address_dropped_not_fatal() {
    // An address entry with non-UTF-8 name bytes is omitted from the join,
    // but the header still builds.
    let mut r = full_record(1);
    r.envelope.as_mut().unwrap().from = Some(vec![
        addr(&[0xff, 0xfe], b"bad@example.com"),
        addr(b"Bob", b"bob@example.com"),
    ]);
    let h = create_email_header(&r).unwrap();
    assert_eq!(h.from, "Bob <bob@example.com>");
}

#[test]
fn all_addresses_undecodable_gives_empty_from() {
    let mut r = full_record(1);
    r.envelope.as_mut().unwrap().from = Some(vec![addr(&[0xff], b"bad@example.com")]);
    let h = create_email_header(&r).unwrap();
    assert_eq!(h.from, "");
}

#[test]
fn absent_name_reads_as_empty() {
    let a = Address {
        name: None,
        mailbox: Some(b"alice@example.com".to_vec()),
    };
    assert_eq!(parse_address(&a).unwrap(), " <alice@example.com>");
}

#[test]
fn undecodable_mailbox_drops_entry() {
    let a = Address {
        name: Some(b"Alice".to_vec()),
        mailbox: Some(vec![0xc0]),
    };
    assert!(parse_address(&a).is_none());
}

#[test]
fn headers_come_back_newest_first() {
    let records = vec![full_record(1), full_record(2), full_record(3)];
    let headers = headers_from_fetch(&records).unwrap();
    let uids: Vec<u32> = headers.iter().map(|h| h.uid).collect();
    assert_eq!(uids, vec![3, 2, 1]);
}

#[test]
fn one_bad_record_fails_whole_fetch() {
    let mut bad = full_record(2);
    bad.uid = None;
    let records = vec![full_record(1), bad, full_record(3)];
    match headers_from_fetch(&records) {
        Err(GmailError::UnspecifiedParameter(p)) => assert_eq!(p, "UID"),
        other => panic!("expected missing UID, got {:?}", other),
    }
}

#[test]
fn parse_decodes_utf8() {
    assert_eq!(parse(b"hello").unwrap(), "hello");
    assert_eq!(parse(b"").unwrap(), "");
    assert!(parse(&[0xff, 0xfe]).is_err());
}

#[test]
fn missing_param_reports_parameter() {
    assert_eq!(Some(5u32).missing_param("UID").unwrap(), 5);
    match None::<u32>.missing_param("UID") {
        Err(GmailError::UnspecifiedParameter(p)) => assert_eq!(p, "UID"),
        other => panic!("expected missing UID, got {:?}", other),
    }
}

#[test]
fn absent_identifier_is_not_found() {
    // A body fetch by an identifier absent from the inbox yields zero
    // records: that is NotFound, not a generic empty result.
    match extract_body(42, &Vec::new()) {
        Err(GmailError::NotUid(u)) => assert_eq!(u, 42),
        other => panic!("expected NotUid, got {:?}", other),
    }
}

#[test]
fn body_without_text_part_is_missing_field() {
    let records = vec![full_record(1)];
    match extract_body(1, &records) {
        Err(GmailError::UnspecifiedParameter(p)) => assert_eq!(p, "TEXT"),
        other => panic!("expected missing TEXT, got {:?}", other),
    }
}

#[test]
fn body_decodes_as_utf8() {
    let mut r = full_record(1);
    r.text = Some(b"the body".to_vec());
    assert_eq!(extract_body(1, &vec![r]).unwrap(), "the body");
}

#[test]
fn undecodable_body_is_a_parse_error() {
    let mut r = full_record(1);
    r.text = Some(vec![0xff, 0x00]);
    match extract_body(1, &vec![r]) {
        Err(GmailError::Parser(_)) => {}
        other => panic!("expected parse error, got {:?}", other),
    }
}
