use protonmail_client::compose::{forward_email, reply_email, send_email, OutgoingMessage};
use protonmail_client::schema::{Email, EmailDetail};

fn detail(subject: Option<&str>, sender: Option<&str>, text: Option<&str>, html: Option<&str>) -> EmailDetail {
    EmailDetail {
        email: Email {
            uid: 3,
            mailbox_id: "acc:INBOX".to_string(),
            message_id: Some("<id-1@example.com>".to_string()),
            subject: subject.map(String::from),
            sender_name: Some("Bob".to_string()),
            sender_email: sender.map(String::from),
            recipients: None,
            date_utc: 0,
            flags: None,
            has_attachments: 0,
            preview: None,
            classification: None,
            classification_confidence_bits: None,
        },
        html_body: html.map(String::from),
        text_body: text.map(String::from),
    }
}

#[test]
fn send_checks_both_addresses() {
    let m = send_email("me@proton.me", "Bob <bob@example.com>", "Hi".to_string(), "<b>x</b>".to_string(), true).unwrap();
    assert_eq!(
        m,
        OutgoingMessage {
            from: "me@proton.me".to_string(),
            to: "Bob <bob@example.com>".to_string(),
            subject: "Hi".to_string(),
            in_reply_to: None,
            body: "<b>x</b>".to_string(),
            is_html: true,
        }
    );
    assert!(send_email("not an address", "bob@example.com", String::new(), String::new(), false).is_err());
    assert!(send_email("me@proton.me", "bob@", String::new(), String::new(), false).is_err());
}

#[test]
fn reply_goes_to_the_sender_with_re_subject() {
    let m = reply_email("me@proton.me", Some(detail(Some("Plans"), Some("bob@example.com"), None, None)), "ok".to_string()).unwrap();
    assert_eq!(m.to, "bob@example.com");
    assert_eq!(m.subject, "Re: Plans");
    assert_eq!(m.in_reply_to.as_deref(), Some("<id-1@example.com>"));
    assert!(!m.is_html);
    let m = reply_email("me@proton.me", Some(detail(None, Some("bob@example.com"), None, None)), String::new()).unwrap();
    assert_eq!(m.subject, "Re: (no subject)");
}

#[test]
fn reply_errors() {
    assert_eq!(reply_email("me@proton.me", None, String::new()), Err("Email not found".to_string()));
    assert_eq!(
        reply_email("me@proton.me", Some(detail(Some("x"), None, None, None)), String::new()),
        Err("No sender email".to_string())
    );
}

#[test]
fn forward_quotes_the_original() {
    let m = forward_email("me@proton.me", Some(detail(Some("Report"), Some("bob@example.com"), Some("body text"), Some("<p>h</p>"))), "carol@example.com").unwrap();
    assert_eq!(m.subject, "Fwd: Report");
    assert_eq!(m.to, "carol@example.com");
    assert_eq!(
        m.body,
        "\n\n---------- Forwarded message ----------\nFrom: Bob <bob@example.com>\nSubject: Report\n\nbody text"
    );
    let m = forward_email("me@proton.me", Some(detail(None, None, None, Some("<p>h</p>"))), "carol@example.com").unwrap();
    assert_eq!(m.subject, "Fwd: (no subject)");
    assert!(m.body.ends_with("Subject: (no subject)\n\n<p>h</p>"));
    assert_eq!(forward_email("me@proton.me", None, "carol@example.com"), Err("Email not found".to_string()));
}
