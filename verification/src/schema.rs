//! The records the client stores and exchanges: accounts, mailboxes, emails,
//! automation rules and classifications.

use vstd::prelude::*;

verus! {

/// A configured mail account.
#[derive(Debug, PartialEq, Eq)]
pub struct Account {
    pub id: String,
    pub email: String,
    pub display_name: Option<String>,
    pub bridge_host: Option<String>,
    pub bridge_imap_port: Option<i64>,
    pub bridge_smtp_port: Option<i64>,
}

/// A mailbox (IMAP folder) of an account.
#[derive(Debug, PartialEq, Eq)]
pub struct Mailbox {
    pub id: String,
    pub account_id: String,
    pub name: String,
    pub path: String,
    pub uid_validity: Option<i64>,
    pub last_synced_uid: Option<i64>,
    pub unread_count: Option<i64>,
}

/// The stored envelope of one message.
///
/// `classification_confidence_bits` holds the IEEE-754 bit pattern of the stored
/// confidence (a number between 0 and 1), so that the record carries it unchanged.
#[derive(Debug, PartialEq, Eq)]
pub struct Email {
    pub uid: i64,
    pub mailbox_id: String,
    pub message_id: Option<String>,
    pub subject: Option<String>,
    pub sender_name: Option<String>,
    pub sender_email: Option<String>,
    pub recipients: Option<String>,
    pub date_utc: i64,
    pub flags: Option<String>,
    pub has_attachments: i64,
    pub preview: Option<String>,
    pub classification: Option<String>,
    pub classification_confidence_bits: Option<u64>,
}

/// The cached bodies of one message.
#[derive(Debug, PartialEq, Eq)]
pub struct EmailBody {
    pub uid: i64,
    pub mailbox_id: String,
    pub html_body: Option<String>,
    pub text_body: Option<String>,
}

/// A message with whatever bodies are known of it.
#[derive(Debug, PartialEq, Eq)]
pub struct EmailDetail {
    pub email: Email,
    pub html_body: Option<String>,
    pub text_body: Option<String>,
}

/// A stored attachment of a message.
#[derive(Debug, PartialEq, Eq)]
pub struct Attachment {
    pub id: String,
    pub email_uid: i64,
    pub mailbox_id: String,
    pub filename: Option<String>,
    pub content_type: Option<String>,
    pub size_bytes: Option<i64>,
    pub stored_path: Option<String>,
}

/// An automation rule as stored: its conditions and actions are JSON arrays.
#[derive(Debug, PartialEq, Eq)]
pub struct AutomationRule {
    pub id: String,
    pub name: String,
    pub enabled: i64,
    pub priority: i64,
    pub conditions: String,
    pub actions: String,
    pub created_at: Option<i64>,
    pub updated_at: Option<i64>,
}

/// One test of a rule: `field` of the email, compared by `operator` with `value`.
#[derive(Debug, PartialEq, Eq)]
pub struct RuleCondition {
    pub field: String,
    pub operator: String,
    pub value: String,
}

/// One effect of a rule.
#[derive(Debug, PartialEq, Eq)]
pub struct RuleAction {
    pub action_type: String,
    pub value: String,
}

/// A category given to a message, with the confidence in percent and the tier that
/// produced it.
#[derive(Debug, PartialEq, Eq)]
pub struct Classification {
    pub label: String,
    pub confidence_percent: u32,
    pub tier: String,
}

/// Progress reported while mailboxes are synchronised.
#[derive(Debug, PartialEq, Eq)]
pub enum SyncEvent {
    MailboxFound { name: String },
    SyncStart { mailbox: String, new_count: usize, last_uid: i64 },
    EmailSynced { uid: i64, sender: String, subject: String },
    SyncComplete { mailbox: String, count: usize },
}

impl Clone for RuleAction {
    fn clone(&self) -> (r: Self)
        ensures
            r == *self,
    {
        RuleAction { action_type: self.action_type.clone(), value: self.value.clone() }
    }
}

impl Clone for RuleCondition {
    fn clone(&self) -> (r: Self)
        ensures
            r == *self,
    {
        RuleCondition {
            field: self.field.clone(),
            operator: self.operator.clone(),
            value: self.value.clone(),
        }
    }
}

impl Clone for Email {
    fn clone(&self) -> (r: Self)
        ensures
            r == *self,
    {
        Email {
            uid: self.uid,
            mailbox_id: self.mailbox_id.clone(),
            message_id: self.message_id.clone(),
            subject: self.subject.clone(),
            sender_name: self.sender_name.clone(),
            sender_email: self.sender_email.clone(),
            recipients: self.recipients.clone(),
            date_utc: self.date_utc,
            flags: self.flags.clone(),
            has_attachments: self.has_attachments,
            preview: self.preview.clone(),
            classification: self.classification.clone(),
            classification_confidence_bits: self.classification_confidence_bits,
        }
    }
}

impl Clone for AutomationRule {
    fn clone(&self) -> (r: Self)
        ensures
            r == *self,
    {
        AutomationRule {
            id: self.id.clone(),
            name: self.name.clone(),
            enabled: self.enabled,
            priority: self.priority,
            conditions: self.conditions.clone(),
            actions: self.actions.clone(),
            created_at: self.created_at,
            updated_at: self.updated_at,
        }
    }
}

/// The text of an optional field, the empty text when it is absent
/// (`as_deref().unwrap_or("")`).
pub open spec fn text_or_empty(o: Option<String>) -> Seq<char> {
    match o {
        Some(s) => s@,
        None => Seq::empty(),
    }
}

} // verus!
