//! Reading raw RFC 5322 messages (through mail-parser) into stored email records.

use mail_parser::MimeHeaders;
use vstd::prelude::*;

use crate::flags::{flag_name_texts, flag_names, MessageFlag};
use crate::json::{encode_string_list, json_of_string_list, json_string_list, strings_view};
use crate::schema::{text_or_empty, Email, SyncEvent};
use crate::text::{first_chars, owned, str_equal, take_chars};

verus! {

/// The header fields of a parsed message that the client keeps, as plain values.
#[derive(Debug, PartialEq, Eq)]
pub struct MessageHeaders {
    pub subject: Option<String>,
    /// Display name of the first `From` address.
    pub sender_name: Option<String>,
    /// Address of the first `From` address.
    pub sender_email: Option<String>,
    /// The address of each `To` entry (an entry may have none), when there is a `To` field.
    pub to_addresses: Option<Vec<Option<String>>>,
    /// The `Date` field as seconds since the Unix epoch.
    pub date: Option<i64>,
    pub content_type: Option<String>,
    pub content_subtype: Option<String>,
    pub message_id: Option<String>,
}

/// The addressing fields of a parsed message, as plain values.
#[derive(Debug, PartialEq, Eq)]
pub struct MessageEnvelope {
    pub subject: Option<String>,
    pub sender_name: Option<String>,
    pub sender_email: Option<String>,
    pub to_addresses: Option<Vec<Option<String>>>,
    pub message_id: Option<String>,
}

/// The date, top-level content type and first bodies of a parsed message.
#[derive(Debug, PartialEq, Eq)]
pub struct MessageContent {
    pub date: Option<i64>,
    pub content_type: Option<String>,
    pub content_subtype: Option<String>,
    pub html_body: Option<String>,
    pub text_body: Option<String>,
}

/// Whether mail-parser's `MessageParser::parse` accepts the bytes as a message.
pub uninterp spec fn parses_as_message(raw: Seq<u8>) -> bool;

/// `Message::subject` of the parsed bytes.
pub uninterp spec fn message_subject(raw: Seq<u8>) -> Option<Seq<char>>;

/// `Addr::name` of the first address of `Message::from` of the parsed bytes.
pub uninterp spec fn message_sender_name(raw: Seq<u8>) -> Option<Seq<char>>;

/// `Addr::address` of the first address of `Message::from` of the parsed bytes.
pub uninterp spec fn message_sender_address(raw: Seq<u8>) -> Option<Seq<char>>;

/// `Addr::address` of each address of `Message::to` of the parsed bytes.
pub uninterp spec fn message_to_addresses(raw: Seq<u8>) -> Option<Seq<Option<Seq<char>>>>;

/// `DateTime::to_timestamp` of `Message::date` of the parsed bytes.
pub uninterp spec fn message_timestamp(raw: Seq<u8>) -> Option<i64>;

/// `ContentType::ctype` of the parsed bytes' top-level `Content-Type`.
pub uninterp spec fn message_content_type(raw: Seq<u8>) -> Option<Seq<char>>;

/// `ContentType::subtype` of the parsed bytes' top-level `Content-Type`.
pub uninterp spec fn message_content_subtype(raw: Seq<u8>) -> Option<Seq<char>>;

/// `Message::message_id` of the parsed bytes.
pub uninterp spec fn message_id_of(raw: Seq<u8>) -> Option<Seq<char>>;

/// `Message::body_html(0)` of the parsed bytes.
pub uninterp spec fn message_html_body(raw: Seq<u8>) -> Option<Seq<char>>;

/// `Message::body_text(0)` of the parsed bytes.
pub uninterp spec fn message_text_body(raw: Seq<u8>) -> Option<Seq<char>>;

pub open spec fn opt_view(o: Option<String>) -> Option<Seq<char>> {
    match o {
        Some(s) => Some(s@),
        None => None,
    }
}

pub open spec fn opt_list_view(o: Option<Vec<Option<String>>>) -> Option<Seq<Option<Seq<char>>>> {
    match o {
        Some(v) => Some(v@.map_values(|a: Option<String>| opt_view(a))),
        None => None,
    }
}

/// The header values agree with what mail-parser reads from `raw`.
pub open spec fn headers_of(h: MessageHeaders, raw: Seq<u8>) -> bool {
    &&& opt_view(h.subject) == message_subject(raw)
    &&& opt_view(h.sender_name) == message_sender_name(raw)
    &&& opt_view(h.sender_email) == message_sender_address(raw)
    &&& opt_list_view(h.to_addresses) == message_to_addresses(raw)
    &&& h.date == message_timestamp(raw)
    &&& opt_view(h.content_type) == message_content_type(raw)
    &&& opt_view(h.content_subtype) == message_content_subtype(raw)
    &&& opt_view(h.message_id) == message_id_of(raw)
}

/// Calls `MessageParser::default().parse` on the bytes and reads `subject`, the name
/// and address of the first `from` address, the address of each `to` address and
/// `message_id`. Claimed of it: a result exactly when the bytes parse, holding what
/// those accessors return (named above, each a function of the bytes alone).
#[verifier::external_body]
fn parse_envelope(raw: &[u8]) -> (r: Option<MessageEnvelope>)
    ensures
        r is Some <==> parses_as_message(raw@),
        r matches Some(e) ==> opt_view(e.subject) == message_subject(raw@),
        r matches Some(e) ==> opt_view(e.sender_name) == message_sender_name(raw@),
        r matches Some(e) ==> opt_view(e.sender_email) == message_sender_address(raw@),
        r matches Some(e) ==> opt_list_view(e.to_addresses) == message_to_addresses(raw@),
        r matches Some(e) ==> opt_view(e.message_id) == message_id_of(raw@),
{
    let m = mail_parser::MessageParser::default().parse(raw)?;
    let first = m.from().and_then(|a| a.first());
    Some(MessageEnvelope {
        subject: m.subject().map(String::from),
        sender_name: first.and_then(|a| a.name()).map(String::from),
        sender_email: first.and_then(|a| a.address()).map(String::from),
        to_addresses: m.to().map(|l| l.iter().map(|a| a.address().map(String::from)).collect()),
        message_id: m.message_id().map(String::from),
    })
}

/// Calls `MessageParser::default().parse` on the bytes and reads `date` (as
/// `to_timestamp`), the type and subtype of the top-level `content_type`,
/// `body_html(0)` and `body_text(0)`. Claimed of it: a result exactly when the bytes
/// parse, holding what those accessors return.
#[verifier::external_body]
fn parse_content(raw: &[u8]) -> (r: Option<MessageContent>)
    ensures
        r is Some <==> parses_as_message(raw@),
        r matches Some(c) ==> c.date == message_timestamp(raw@),
        r matches Some(c) ==> opt_view(c.content_type) == message_content_type(raw@),
        r matches Some(c) ==> opt_view(c.content_subtype) == message_content_subtype(raw@),
        r matches Some(c) ==> opt_view(c.html_body) == message_html_body(raw@),
        r matches Some(c) ==> opt_view(c.text_body) == message_text_body(raw@),
{
    let m = mail_parser::MessageParser::default().parse(raw)?;
    let ct = m.content_type();
    Some(MessageContent {
        date: m.date().map(|d| d.to_timestamp()),
        content_type: ct.map(|c| String::from(c.ctype())),
        content_subtype: ct.and_then(|c| c.subtype()).map(String::from),
        html_body: m.body_html(0).map(String::from),
        text_body: m.body_text(0).map(String::from),
    })
}

/// The header fields kept of a message read from its two parsed parts.
fn combine(e: MessageEnvelope, c: &MessageContent) -> (h: MessageHeaders)
    ensures
        h.subject == e.subject && h.sender_name == e.sender_name && h.sender_email == e.sender_email
            && h.to_addresses == e.to_addresses && h.message_id == e.message_id && h.date == c.date
            && h.content_type == c.content_type && h.content_subtype == c.content_subtype,
{
    MessageHeaders {
        subject: e.subject,
        sender_name: e.sender_name,
        sender_email: e.sender_email,
        to_addresses: e.to_addresses,
        date: c.date,
        content_type: c.content_type.clone(),
        content_subtype: c.content_subtype.clone(),
        message_id: e.message_id,
    }
}

/// The header fields of a raw message, `None` when it does not parse.
pub fn message_headers(raw: &[u8]) -> (r: Option<MessageHeaders>)
    ensures
        r is Some <==> parses_as_message(raw@),
        r matches Some(h) ==> headers_of(h, raw@),
{
    match (parse_envelope(raw), parse_content(raw)) {
        (Some(e), Some(c)) => Some(combine(e, &c)),
        _ => None,
    }
}

/// The first HTML body and the first text body of a raw message (both `None` when it
/// does not parse).
pub fn body_parts(raw: &[u8]) -> (r: (Option<String>, Option<String>))
    ensures
        parses_as_message(raw@) ==> opt_view(r.0) == message_html_body(raw@) && opt_view(r.1)
            == message_text_body(raw@),
        !parses_as_message(raw@) ==> r.0 is None && r.1 is None,
{
    match parse_content(raw) {
        Some(c) => (c.html_body, c.text_body),
        None => (None, None),
    }
}

/// The addresses present in a `To` list, in order.
pub open spec fn present_addresses(list: Seq<Option<Seq<char>>>) -> Seq<Seq<char>>
    decreases list.len(),
{
    if list.len() == 0 {
        Seq::empty()
    } else {
        let prev = present_addresses(list.drop_last());
        match list.last() {
            Some(a) => prev.push(a),
            None => prev,
        }
    }
}

/// The recipients field: the JSON array of the present `To` addresses, or `[]` when
/// there is no `To` field.
pub open spec fn recipients_text(to: Option<Seq<Option<Seq<char>>>>) -> Seq<char> {
    match to {
        None => "[]"@,
        Some(list) => json_of_string_list(present_addresses(list)),
    }
}

/// The attachment marker: 1 when the type is `multipart` and the subtype (empty when
/// absent) is `mixed`, else 0.
pub open spec fn attachment_marker(content_type: Option<Seq<char>>, subtype: Option<Seq<char>>) -> i64 {
    match content_type {
        Some(t) => if t == "multipart"@ && match subtype {
            Some(s) => s,
            None => Seq::<char>::empty(),
        } == "mixed"@ {
            1
        } else {
            0
        },
        None => 0,
    }
}

fn present_address_list(list: &Vec<Option<String>>) -> (v: Vec<String>)
    ensures
        strings_view(v@) == present_addresses(list@.map_values(|a: Option<String>| opt_view(a))),
{
    let ghost lv = list@.map_values(|a: Option<String>| opt_view(a));
    let mut v: Vec<String> = Vec::new();
    let mut i: usize = 0;
    while i < list.len()
        invariant
            i <= list@.len(),
            lv == list@.map_values(|a: Option<String>| opt_view(a)),
            strings_view(v@) == present_addresses(lv.take(i as int)),
        decreases list@.len() - i,
    {
        assert(lv.take(i + 1).drop_last() =~= lv.take(i as int));
        assert(lv.take(i + 1).last() == opt_view(list@[i as int]));
        if let Some(a) = &list[i] {
            let ghost before = v@;
            v.push(a.clone());
            assert(strings_view(v@) =~= strings_view(before).push(a@));
        }
        i = i + 1;
    }
    assert(lv.take(i as int) =~= lv);
    v
}

/// Subject, sender name, sender address, recipients JSON, date and attachment marker
/// of a message: absent values stay absent, the date defaults to 0, and a message
/// counts as having attachments (1, else 0) when its type is `multipart/mixed`. A
/// message that did not parse gives no subject or sender, `[]`, 0 and 0.
pub fn extract_header_fields(parsed: &Option<MessageHeaders>) -> (r: (
    Option<String>,
    Option<String>,
    Option<String>,
    String,
    i64,
    i64,
))
    ensures
        match *parsed {
            Some(h) => {
                &&& r.0 == h.subject
                &&& r.1 == h.sender_name
                &&& r.2 == h.sender_email
                &&& r.3@ == recipients_text(opt_list_view(h.to_addresses))
                &&& r.4 == match h.date {
                    Some(d) => d,
                    None => 0,
                }
                &&& r.5 == attachment_marker(opt_view(h.content_type), opt_view(h.content_subtype))
            },
            None => r.0 is None && r.1 is None && r.2 is None && r.3@ == "[]"@ && r.4 == 0 && r.5 == 0,
        },
{
    proof {
        reveal_strlit("");
    }
    match parsed {
        Some(h) => {
            let recipients = match &h.to_addresses {
                Some(list) => {
                    let addrs = present_address_list(list);
                    match encode_string_list(&addrs) {
                        Ok(s) => s,
                        Err(_) => owned("[]"),
                    }
                },
                None => owned("[]"),
            };
            let date = match h.date {
                Some(d) => d,
                None => 0,
            };
            let subtype: &str = match &h.content_subtype {
                Some(s) => s.as_str(),
                None => "",
            };
            assert(subtype@ == text_or_empty(h.content_subtype));
            let mixed = match &h.content_type {
                Some(t) => str_equal(t.as_str(), "multipart") && str_equal(subtype, "mixed"),
                None => false,
            };
            let subject = h.subject.clone();
            let sender_name = h.sender_name.clone();
            let sender_email = h.sender_email.clone();
            assert(subject == h.subject);
            assert(sender_name == h.sender_name);
            assert(sender_email == h.sender_email);
            assert(mixed == (attachment_marker(opt_view(h.content_type), opt_view(h.content_subtype)) == 1));
            (subject, sender_name, sender_email, recipients, date, if mixed {
                1
            } else {
                0
            })
        },
        None => (None, None, None, owned("[]"), 0, 0),
    }
}

/// A message read during synchronisation: the record to store, the progress event to
/// report, and its bodies.
#[derive(Debug, PartialEq, Eq)]
pub struct SyncedMessage {
    pub email: Email,
    pub event: SyncEvent,
    pub html_body: Option<String>,
    pub text_body: Option<String>,
}

/// The record for message `uid` of mailbox `mailbox_id` with IMAP flags `flags`
/// and raw content `raw`: the flags as the JSON array of their stored spellings, the
/// header fields as `extract_header_fields` gives them, the Message-ID, the first 200 characters of the text body as preview, no
/// classification; the event names the uid, sender address and subject (empty when
/// absent).
pub fn synced_message(uid: i64, mailbox_id: &str, flags: &Vec<MessageFlag>, raw: &[u8]) -> (m: SyncedMessage)
    ensures
        m.email.uid == uid,
        m.email.mailbox_id@ == mailbox_id@,
        m.email.flags is Some && m.email.flags->0@ == json_of_string_list(flag_name_texts(flags@)),
        json_string_list(m.email.flags->0@) == Some(flag_name_texts(flags@)),
        m.email.recipients is Some,
        parses_as_message(raw@) ==> {
            &&& opt_view(m.email.subject) == message_subject(raw@)
            &&& opt_view(m.email.sender_name) == message_sender_name(raw@)
            &&& opt_view(m.email.sender_email) == message_sender_address(raw@)
            &&& opt_view(m.email.message_id) == message_id_of(raw@)
            &&& m.email.date_utc == match message_timestamp(raw@) {
                Some(d) => d,
                None => 0,
            }
            &&& opt_view(m.email.preview) == match message_text_body(raw@) {
                Some(t) => Some(first_chars(t, 200)),
                None => None,
            }
            &&& m.email.recipients->0@ == recipients_text(message_to_addresses(raw@))
            &&& m.email.has_attachments == attachment_marker(message_content_type(raw@), message_content_subtype(raw@))
            &&& opt_view(m.html_body) == message_html_body(raw@)
            &&& opt_view(m.text_body) == message_text_body(raw@)
        },
        !parses_as_message(raw@) ==> {
            &&& m.email.subject is None && m.email.sender_name is None && m.email.sender_email is None
            &&& m.email.message_id is None && m.email.preview is None
            &&& m.email.recipients->0@ == "[]"@ && m.email.date_utc == 0 && m.email.has_attachments == 0
            &&& m.html_body is None && m.text_body is None
        },
        m.email.classification is None,
        m.email.classification_confidence_bits is None,
        m.event == (SyncEvent::EmailSynced {
            uid,
            sender: m.event->sender,
            subject: m.event->subject,
        }),
        m.event->sender@ == match m.email.sender_email {
            Some(s) => s@,
            None => Seq::empty(),
        },
        m.event->subject@ == match m.email.subject {
            Some(s) => s@,
            None => Seq::empty(),
        },
{
    let names = flag_names(flags);
    let flags = match encode_string_list(&names) {
        Ok(s) => s,
        Err(e) => e,
    };
    let content = parse_content(raw);
    let headers = match (parse_envelope(raw), &content) {
        (Some(e), Some(c)) => Some(combine(e, c)),
        _ => None,
    };
    let (subject, sender_name, sender_email, recipients, date_utc, has_attachments) = extract_header_fields(
        &headers,
    );
    let (html_body, text_body) = match content {
        Some(c) => (c.html_body, c.text_body),
        None => (None, None),
    };
    let preview = match &text_body {
        Some(t) => Some(take_chars(t.as_str(), 200)),
        None => None,
    };
    let message_id = match &headers {
        Some(h) => h.message_id.clone(),
        None => None,
    };
    let sender = match &sender_email {
        Some(s) => s.clone(),
        None => String::new(),
    };
    let subject_text = match &subject {
        Some(s) => s.clone(),
        None => String::new(),
    };
    let email = Email {
        uid,
        mailbox_id: owned(mailbox_id),
        message_id,
        subject,
        sender_name,
        sender_email,
        recipients: Some(recipients),
        date_utc,
        flags: Some(flags),
        has_attachments,
        preview,
        classification: None,
        classification_confidence_bits: None,
    };
    SyncedMessage {
        email,
        event: SyncEvent::EmailSynced { uid, sender, subject: subject_text },
        html_body,
        text_body,
    }
}


/// Only `multipart/mixed` counts as carrying attachments: the marker that
/// `extract_header_fields` records is 1 exactly when the top-level type is `multipart`
/// and its subtype is `mixed`, and 0 for every other message (`multipart/alternative`,
/// `multipart/related`, a missing subtype, a single-part message).
pub proof fn law_only_mixed_multipart_has_attachments(content_type: Option<Seq<char>>, subtype: Option<Seq<char>>)
    ensures
        attachment_marker(content_type, subtype) == 0 || attachment_marker(content_type, subtype) == 1,
        attachment_marker(content_type, subtype) == 1 <==> (content_type == Some("multipart"@) && subtype == Some(
            "mixed"@,
        )),
{
    reveal_strlit("mixed");
    assert("mixed"@.len() == 5);
}

} // verus!
