use protonmail_client::flags::MessageFlag;
use protonmail_client::message::{body_parts, extract_header_fields, message_headers, synced_message};
use protonmail_client::schema::SyncEvent;

const RAW: &[u8] = b"From: Alice Example <alice@example.com>\r\n\
To: bob@example.com, Carol <carol@example.com>\r\n\
Subject: Quarterly numbers\r\n\
Date: Tue, 1 Jul 2003 10:52:37 +0200\r\n\
Message-ID: <1234@local.machine.example>\r\n\
Content-Type: text/plain; charset=utf-8\r\n\
\r\n\
Hello Bob,\r\nthe numbers are in.\r\n";

#[test]
fn header_fields_of_a_plain_message() {
    let h = message_headers(RAW);
    let (subject, name, address, recipients, date, attachments) = extract_header_fields(&h);
    assert_eq!(subject.as_deref(), Some("Quarterly numbers"));
    assert_eq!(name.as_deref(), Some("Alice Example"));
    assert_eq!(address.as_deref(), Some("alice@example.com"));
    assert_eq!(recipients, "[\"bob@example.com\",\"carol@example.com\"]");
    assert_eq!(date, 1057049557);
    assert_eq!(attachments, 0);
}

#[test]
fn header_fields_of_nothing() {
    assert_eq!(extract_header_fields(&None), (None, None, None, "[]".to_string(), 0, 0));
}

#[test]
fn multipart_mixed_counts_as_attachments() {
    let raw = b"From: a@b.c\r\nSubject: f\r\nContent-Type: multipart/mixed; boundary=\"XX\"\r\n\r\n--XX\r\nContent-Type: text/plain\r\n\r\nsee attached\r\n--XX\r\nContent-Type: application/octet-stream\r\n\r\nAAAA\r\n--XX--\r\n";
    let (_, _, _, recipients, date, attachments) = extract_header_fields(&message_headers(raw));
    assert_eq!(attachments, 1);
    assert_eq!(recipients, "[]");
    assert_eq!(date, 0);
    let (_, text) = body_parts(raw);
    assert_eq!(text.as_deref().map(|t| t.trim_end()), Some("see attached"));
}

#[test]
fn synced_record_of_a_message() {
    let m = synced_message(42, "acc:INBOX", &vec![MessageFlag::Seen], RAW);
    assert_eq!(m.email.uid, 42);
    assert_eq!(m.email.mailbox_id, "acc:INBOX");
    assert_eq!(m.email.flags.as_deref(), Some("[\"\\\\Seen\"]"));
    assert_eq!(m.email.message_id.as_deref(), Some("1234@local.machine.example"));
    assert_eq!(m.email.preview.as_deref(), Some("Hello Bob,\r\nthe numbers are in.\r\n"));
    assert_eq!(m.text_body, m.email.preview);
    assert!(m.email.classification.is_none());
    assert_eq!(
        m.event,
        SyncEvent::EmailSynced { uid: 42, sender: "alice@example.com".to_string(), subject: "Quarterly numbers".to_string() }
    );
}

#[test]
fn preview_keeps_the_first_200_characters() {
    let mut raw = b"From: a@b.c\r\nSubject: long\r\n\r\n".to_vec();
    raw.extend(std::iter::repeat(b'z').take(300));
    let m = synced_message(1, "m", &vec![], &raw);
    assert_eq!(m.email.preview.map(|p| p.chars().count()), Some(200));
    assert_eq!(m.email.flags.as_deref(), Some("[]"));
}

#[test]
fn a_message_synced_as_read_is_unread_after_mark_unread() {
    let m = synced_message(7, "acc:INBOX", &vec![MessageFlag::Answered, MessageFlag::Seen], RAW);
    let flags: Vec<String> = serde_json::from_str(m.email.flags.as_deref().unwrap()).unwrap();
    assert_eq!(flags, vec!["\\Answered".to_string(), "\\Seen".to_string()]);
    let unread = protonmail_client::flags::flags_after_change(&m.email.flags, None, Some("\\Seen"));
    assert_eq!(unread, "[\"\\\\Answered\"]");
}
