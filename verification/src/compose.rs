//! Outgoing messages: new messages, replies and forwards, checked before sending.

use vstd::prelude::*;

use crate::schema::{text_or_empty, EmailDetail};
use crate::text::{concat, owned};

verus! {

/// A message ready to be handed to the SMTP transport.
#[derive(Debug, PartialEq, Eq)]
pub struct OutgoingMessage {
    pub from: String,
    pub to: String,
    pub subject: String,
    pub in_reply_to: Option<String>,
    pub body: String,
    pub is_html: bool,
}

/// What parsing a text as a mailbox (`Name <user@domain>` or `user@domain`) with
/// lettre gives: `None` when it parses, else the parser's error message.
pub uninterp spec fn mailbox_parse_error(text: Seq<char>) -> Option<Seq<char>>;

/// Calls `str::parse::<lettre::message::Mailbox>` and, on failure, formats the
/// `AddressError` with `Display`. Claimed of it: the outcome is `mailbox_parse_error`
/// of the text, a function of the text alone.
#[verifier::external_body]
fn check_mailbox(text: &str) -> (problem: Option<String>)
    ensures
        match problem {
            Some(e) => mailbox_parse_error(text@) == Some(e@),
            None => mailbox_parse_error(text@) is None,
        },
{
    text.parse::<lettre::message::Mailbox>().err().map(|e| e.to_string())
}

/// The sender and recipient are checked in this order; the first that does not parse
/// decides the error.
pub open spec fn address_check(from: Seq<char>, to: Seq<char>) -> Option<Seq<char>> {
    match mailbox_parse_error(from) {
        Some(e) => Some(e),
        None => mailbox_parse_error(to),
    }
}

/// `r` is the error `e`.
pub open spec fn fails_with(r: Result<OutgoingMessage, String>, e: Seq<char>) -> bool {
    r matches Err(m) && m@ == e
}

/// `r` is a message with exactly these parts.
pub open spec fn message_is(
    r: Result<OutgoingMessage, String>,
    from: Seq<char>,
    to: Seq<char>,
    subject: Seq<char>,
    in_reply_to: Option<Seq<char>>,
    body: Seq<char>,
    is_html: bool,
) -> bool {
    r matches Ok(m) && m.from@ == from && m.to@ == to && m.subject@ == subject && match (m.in_reply_to, in_reply_to) {
        (Some(a), Some(b)) => a@ == b,
        (None, None) => true,
        _ => false,
    } && m.body@ == body && m.is_html == is_html
}

/// Checks both addresses, then assembles the message.
fn checked_message(
    from: &str,
    to: &str,
    subject: String,
    in_reply_to: Option<String>,
    body: String,
    is_html: bool,
) -> (r: Result<OutgoingMessage, String>)
    ensures
        match address_check(from@, to@) {
            Some(e) => fails_with(r, e),
            None => r matches Ok(m) && m.from@ == from@ && m.to@ == to@ && m.subject == subject && m.in_reply_to
                == in_reply_to && m.body == body && m.is_html == is_html,
        },
{
    if let Some(e) = check_mailbox(from) {
        return Err(e);
    }
    if let Some(e) = check_mailbox(to) {
        return Err(e);
    }
    Ok(OutgoingMessage { from: owned(from), to: owned(to), subject, in_reply_to, body, is_html })
}

/// A new message from `from` to `to`, plain text or HTML; fails when either address
/// does not parse (the sender is checked first).
pub fn send_email(from: &str, to: &str, subject: String, body: String, is_html: bool) -> (r: Result<OutgoingMessage, String>)
    ensures
        match address_check(from@, to@) {
            Some(e) => fails_with(r, e),
            None => message_is(r, from@, to@, subject@, None, body@, is_html),
        },
{
    checked_message(from, to, subject, None, body, is_html)
}

/// The subject of a reply: `Re: ` and the original subject (or `(no subject)`).
pub open spec fn reply_subject(detail: EmailDetail) -> Seq<char> {
    "Re: "@ + match detail.email.subject {
        Some(s) => s@,
        None => "(no subject)"@,
    }
}

/// The subject of a forward: `Fwd: ` and the original subject (or `(no subject)`).
pub open spec fn forward_subject(detail: EmailDetail) -> Seq<char> {
    "Fwd: "@ + match detail.email.subject {
        Some(s) => s@,
        None => "(no subject)"@,
    }
}

/// The body of a forward: a separator line, the original sender's name and address,
/// the original subject, and the original text body (else the HTML body, else nothing).
pub open spec fn forward_body(detail: EmailDetail) -> Seq<char> {
    "\n\n---------- Forwarded message ----------\nFrom: "@ + text_or_empty(detail.email.sender_name) + " <"@
        + text_or_empty(detail.email.sender_email) + ">\nSubject: "@ + match detail.email.subject {
        Some(s) => s@,
        None => "(no subject)"@,
    } + "\n\n"@ + match detail.text_body {
        Some(t) => t@,
        None => text_or_empty(detail.html_body),
    }
}

fn text_or_default<'a>(o: &'a Option<String>, default: &'a str) -> (r: &'a str)
    ensures
        r@ == match *o {
            Some(s) => s@,
            None => default@,
        },
{
    match o {
        Some(s) => s.as_str(),
        None => default,
    }
}

/// A plain-text reply from `from` to the sender of the message `detail` (which is
/// `None` when the message is not stored), referring to the original by its
/// Message-ID when it has one.
pub fn reply_email(from: &str, detail: Option<EmailDetail>, body: String) -> (r: Result<OutgoingMessage, String>)
    ensures
        match detail {
            None => fails_with(r, "Email not found"@),
            Some(d) => match d.email.sender_email {
                None => fails_with(r, "No sender email"@),
                Some(to) => match address_check(from@, to@) {
                    Some(e) => fails_with(r, e),
                    None => message_is(
                        r,
                        from@,
                        to@,
                        reply_subject(d),
                        match d.email.message_id {
                            Some(m) => Some(m@),
                            None => None,
                        },
                        body@,
                        false,
                    ),
                },
            },
        },
{
    let detail = match detail {
        Some(d) => d,
        None => return Err(owned("Email not found")),
    };
    let to: &str = match &detail.email.sender_email {
        Some(s) => s.as_str(),
        None => return Err(owned("No sender email")),
    };
    let subject = concat("Re: ", text_or_default(&detail.email.subject, "(no subject)"));
    let in_reply_to = detail.email.message_id.clone();
    checked_message(from, to, subject, in_reply_to, body, false)
}

/// A plain-text forward of the message `detail` (which is `None` when the message is
/// not stored) from `from` to `to`.
pub fn forward_email(from: &str, detail: Option<EmailDetail>, to: &str) -> (r: Result<OutgoingMessage, String>)
    ensures
        match detail {
            None => fails_with(r, "Email not found"@),
            Some(d) => match address_check(from@, to@) {
                Some(e) => fails_with(r, e),
                None => message_is(r, from@, to@, forward_subject(d), None, forward_body(d), false),
            },
        },
{
    let detail = match detail {
        Some(d) => d,
        None => return Err(owned("Email not found")),
    };
    let original_subject = text_or_default(&detail.email.subject, "(no subject)");
    let subject = concat("Fwd: ", original_subject);
    let original_body: &str = match &detail.text_body {
        Some(t) => t.as_str(),
        None => match &detail.html_body {
            Some(h) => h.as_str(),
            None => "",
        },
    };
    proof {
        reveal_strlit("");
    }
    let sender_name: &str = match &detail.email.sender_name {
        Some(s) => s.as_str(),
        None => "",
    };
    let sender_email: &str = match &detail.email.sender_email {
        Some(s) => s.as_str(),
        None => "",
    };
    let b1 = concat("\n\n---------- Forwarded message ----------\nFrom: ", sender_name);
    let b2 = concat(b1.as_str(), " <");
    let b3 = concat(b2.as_str(), sender_email);
    let b4 = concat(b3.as_str(), ">\nSubject: ");
    let b5 = concat(b4.as_str(), original_subject);
    let b6 = concat(b5.as_str(), "\n\n");
    let body = concat(b6.as_str(), original_body);
    checked_message(from, to, subject, None, body, false)
}


/// Replies and forwards keep the original subject: a reply's subject is `Re: ` and a
/// forward's is `Fwd: `, each followed by the same text, which is the original
/// subject when there is one; and a forward ends with the original text body when
/// there is one.
pub proof fn law_reply_and_forward_keep_the_original(detail: EmailDetail)
    ensures
        ({
            let rs = reply_subject(detail);
            let fs = forward_subject(detail);
            let fb = forward_body(detail);
            &&& rs.len() >= 4 && rs.subrange(0, 4) == "Re: "@
            &&& fs.len() >= 5 && fs.subrange(0, 5) == "Fwd: "@
            &&& rs.subrange(4, rs.len() as int) == fs.subrange(5, fs.len() as int)
            &&& detail.email.subject matches Some(s) ==> rs.subrange(4, rs.len() as int) == s@
            &&& detail.text_body matches Some(t) ==> (t@.len() <= fb.len() && fb.subrange(
                fb.len() - t@.len(),
                fb.len() as int,
            ) == t@)
        }),
{
    reveal_strlit("Re: ");
    reveal_strlit("Fwd: ");
    let rest = match detail.email.subject {
        Some(s) => s@,
        None => "(no subject)"@,
    };
    let rs = reply_subject(detail);
    let fs = forward_subject(detail);
    assert(rs.subrange(0, 4) =~= "Re: "@);
    assert(fs.subrange(0, 5) =~= "Fwd: "@);
    assert(rs.subrange(4, rs.len() as int) =~= rest);
    assert(fs.subrange(5, fs.len() as int) =~= rest);
    if let Some(t) = detail.text_body {
        let fb = forward_body(detail);
        let head = "\n\n---------- Forwarded message ----------\nFrom: "@ + text_or_empty(detail.email.sender_name)
            + " <"@ + text_or_empty(detail.email.sender_email) + ">\nSubject: "@ + rest + "\n\n"@;
        assert(fb == head + t@);
        assert(fb.subrange(fb.len() - t@.len(), fb.len() as int) =~= t@);
    }
}

} // verus!
