use protonmail_client::classify::{
    classification_from_response, classification_prompt, classify_heuristic, classify_local, classify_without_llm, llm_classification,
};
use protonmail_client::schema::{Email, EmailDetail};

fn detail(subject: Option<&str>, sender: Option<&str>, body: Option<&str>) -> EmailDetail {
    EmailDetail {
        email: Email {
            uid: 1,
            mailbox_id: "acc:INBOX".to_string(),
            message_id: None,
            subject: subject.map(String::from),
            sender_name: None,
            sender_email: sender.map(String::from),
            recipients: None,
            date_utc: 0,
            flags: None,
            has_attachments: 0,
            preview: None,
            classification: None,
            classification_confidence_bits: None,
        },
        html_body: None,
        text_body: body.map(String::from),
    }
}

fn label(d: &EmailDetail) -> Option<(String, u32)> {
    classify_heuristic(d).map(|c| {
        assert_eq!(c.tier, "heuristic");
        (c.label, c.confidence_percent)
    })
}

#[test]
fn newsletter_takes_precedence() {
    let d = detail(Some("Your receipt"), Some("NoReply@shop.com"), None);
    assert_eq!(label(&d), Some(("newsletter".to_string(), 85)));
    let d = detail(Some("hi"), Some("friend@x.com"), Some("Click to UNSUBSCRIBE"));
    assert_eq!(label(&d), Some(("newsletter".to_string(), 85)));
}

#[test]
fn each_category_is_recognised() {
    assert_eq!(label(&detail(Some("Order Confirmation #1"), Some("shop@x.com"), None)), Some(("transaction".to_string(), 80)));
    assert_eq!(label(&detail(Some("New follower"), Some("notify@GitHub.com"), None)), Some(("social".to_string(), 80)));
    assert_eq!(label(&detail(Some("50% OFF today"), Some("deals@x.com"), None)), Some(("promotion".to_string(), 75)));
    assert_eq!(label(&detail(Some("Meeting tomorrow"), Some("boss@x.com"), None)), Some(("calendar".to_string(), 80)));
    assert_eq!(label(&detail(Some("Lunch?"), Some("friend@x.com"), Some("see you"))), None);
    assert_eq!(label(&detail(None, None, None)), None);
}

#[test]
fn local_tier_never_decides_and_cascade_uses_heuristics() {
    let d = detail(Some("Lunch?"), None, None);
    assert!(classify_local(&d).is_none());
    assert!(classify_without_llm(&d).is_none());
    let d = detail(Some("Invoice"), None, None);
    assert_eq!(classify_without_llm(&d).map(|c| c.label), Some("transaction".to_string()));
}

#[test]
fn prompt_carries_sender_subject_and_preview() {
    let body = "x".repeat(600);
    let d = detail(None, Some("a@b.c"), Some(&body));
    let p = classification_prompt(&d);
    assert!(p.starts_with("Classify this email into exactly one category. Respond with ONLY the category name.\nCategories: personal, work, newsletter, transaction, social, promotion, calendar, spam, other\n\nFrom: a@b.c\nSubject: (no subject)\nBody preview: "));
    assert!(p.ends_with(&"x".repeat(500)));
    assert!(!p.ends_with(&"x".repeat(501)));
    let p = classification_prompt(&detail(Some("S"), None, None));
    assert!(p.ends_with("From: unknown\nSubject: S\nBody preview: "));
}

#[test]
fn llm_reply_is_trimmed_and_lowercased() {
    let c = llm_classification(Some("  Work\n"));
    assert_eq!((c.label.as_str(), c.confidence_percent, c.tier.as_str()), ("work", 90, "llm"));
    assert_eq!(llm_classification(None).label, "other");
}

#[test]
fn reply_body_is_read_at_content_text() {
    let c = classification_from_response("{\"content\":[{\"type\":\"text\",\"text\":\"  Work\\n\"}]}").unwrap();
    assert_eq!((c.label.as_str(), c.confidence_percent, c.tier.as_str()), ("work", 90, "llm"));
    let missing = classification_from_response("{\"content\":[]}").unwrap();
    assert_eq!(missing.label, "other");
    let refused = classification_from_response("not json").unwrap_err();
    assert!(refused.starts_with("Failed to parse Anthropic response: "));
}
