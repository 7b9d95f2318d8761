//! Reading stored messages, creating folders and choosing the account record.

use vstd::prelude::*;

use crate::ids::{is_v4_uuid_text, new_uuid};
use crate::schema::{Account, AutomationRule, EmailDetail, Mailbox};
use crate::sync::{mailbox_name_from_id, mailbox_name_text};
use crate::text::{ascii_lower, chars_of, concat, contains_chars, eq_ignore_ascii_case, has_substring, owned};

verus! {

/// How to obtain a message's bodies.
#[derive(Debug, PartialEq, Eq)]
pub enum BodyPlan {
    /// A body is cached: the stored message is complete.
    Cached(EmailDetail),
    /// No body is cached: download it from the server mailbox of this name.
    Fetch { detail: EmailDetail, mailbox_name: String },
}

/// The body plan for the stored message `detail` (`None` when it is not stored) of
/// mailbox `mailbox_id`: cached when it has an HTML or a text body, else a download
/// from the mailbox named in the identifier.
pub fn body_plan(detail: Option<EmailDetail>, mailbox_id: &str) -> (r: Result<BodyPlan, String>)
    ensures
        match detail {
            None => r matches Err(e) && e@ == "Email not found"@,
            Some(d) => if d.html_body is Some || d.text_body is Some {
                r == Ok::<BodyPlan, String>(BodyPlan::Cached(d))
            } else {
                r matches Ok(BodyPlan::Fetch { detail: fd, mailbox_name }) && fd == d && mailbox_name@
                    == mailbox_name_text(mailbox_id@)
            },
        },
{
    let detail = match detail {
        Some(d) => d,
        None => return Err(owned("Email not found")),
    };
    if detail.html_body.is_some() || detail.text_body.is_some() {
        return Ok(BodyPlan::Cached(detail));
    }
    let mailbox_name = mailbox_name_from_id(mailbox_id);
    Ok(BodyPlan::Fetch { detail, mailbox_name })
}

/// The message with its downloaded bodies.
pub fn with_bodies(detail: EmailDetail, html_body: Option<String>, text_body: Option<String>) -> (r: EmailDetail)
    ensures
        r == (EmailDetail { email: detail.email, html_body, text_body }),
{
    EmailDetail { email: detail.email, html_body, text_body }
}

/// A folder record created locally: path equal to the name, never synchronised,
/// nothing unread.
pub fn new_folder(id: String, account_id: String, name: &str) -> (m: Mailbox)
    ensures
        m.id == id,
        m.account_id == account_id,
        m.name@ == name@,
        m.path@ == name@,
        m.uid_validity is None,
        m.last_synced_uid == Some(0i64),
        m.unread_count == Some(0i64),
{
    Mailbox {
        id,
        account_id,
        name: owned(name),
        path: owned(name),
        uid_validity: None,
        last_synced_uid: Some(0),
        unread_count: Some(0),
    }
}

/// A new folder of the configured account under a fresh random identifier; fails when
/// no account is configured.
pub fn create_folder(account: Option<Account>, name: &str) -> (r: Result<Mailbox, String>)
    ensures
        match account {
            None => r matches Err(e) && e@ == "No account configured"@,
            Some(a) => r matches Ok(m) && is_v4_uuid_text(m.id@) && m.account_id == a.id && m.name@ == name@
                && m.path@ == name@ && m.uid_validity is None && m.last_synced_uid == Some(0i64)
                && m.unread_count == Some(0i64),
        },
{
    let id = new_uuid();
    let account = match account {
        Some(a) => a,
        None => return Err(owned("No account configured")),
    };
    Ok(new_folder(id, account.id, name))
}

/// Which account record to use for an address.
#[derive(Debug, PartialEq, Eq)]
pub enum AccountChoice {
    /// An account with the address is stored: use its identifier.
    Existing { id: String },
    /// None is stored: create one under this fresh identifier.
    Create { id: String },
}

/// Reuses the stored account for an address when there is one, else picks a fresh
/// random identifier for a new account.
pub fn ensure_account(existing: Option<Account>) -> (c: AccountChoice)
    ensures
        match existing {
            Some(a) => c == (AccountChoice::Existing { id: a.id }),
            None => c matches AccountChoice::Create { id } && is_v4_uuid_text(id@),
        },
{
    match existing {
        Some(a) => AccountChoice::Existing { id: a.id },
        None => AccountChoice::Create { id: new_uuid() },
    }
}

/// Texts joined with a separator.
pub open spec fn joined(parts: Seq<Seq<char>>, sep: Seq<char>) -> Seq<char>
    decreases parts.len(),
{
    if parts.len() == 0 {
        Seq::empty()
    } else if parts.len() == 1 {
        parts[0]
    } else {
        joined(parts.drop_last(), sep) + sep + parts.last()
    }
}

pub open spec fn mailbox_names(mailboxes: Seq<Mailbox>) -> Seq<Seq<char>> {
    mailboxes.map_values(|m: Mailbox| m.name@)
}

fn join_names(mailboxes: &Vec<Mailbox>, sep: &str) -> (r: String)
    ensures
        r@ == joined(mailbox_names(mailboxes@), sep@),
{
    let mut out = String::new();
    let mut i: usize = 0;
    while i < mailboxes.len()
        invariant
            i <= mailboxes@.len(),
            out@ == joined(mailbox_names(mailboxes@.take(i as int)), sep@),
        decreases mailboxes@.len() - i,
    {
        let ghost names = mailbox_names(mailboxes@.take(i + 1));
        assert(names.drop_last() =~= mailbox_names(mailboxes@.take(i as int)));
        assert(names.last() == mailboxes@[i as int].name@);
        if i == 0 {
            out = concat(out.as_str(), mailboxes[i].name.as_str());
            assert(out@ =~= names[0]);
        } else {
            let with_sep = concat(out.as_str(), sep);
            out = concat(with_sep.as_str(), mailboxes[i].name.as_str());
        }
        i = i + 1;
    }
    assert(mailboxes@.take(i as int) =~= mailboxes@);
    out
}

/// The mailbox whose name equals `name` up to ASCII case (the first such); when there
/// is none, the error names it and lists the available mailboxes.
pub fn find_mailbox_named(mailboxes: &Vec<Mailbox>, name: &str) -> (r: Result<usize, String>)
    ensures
        match r {
            Ok(i) => i < mailboxes@.len() && ascii_lower(mailboxes@[i as int].name@) == ascii_lower(name@) && forall|j: int|
                0 <= j < i ==> ascii_lower(#[trigger] mailboxes@[j].name@) != ascii_lower(name@),
            Err(e) => (forall|j: int| 0 <= j < mailboxes@.len() ==> ascii_lower(#[trigger] mailboxes@[j].name@) != ascii_lower(name@))
                && e@ == "Mailbox '"@ + name@ + "' not found. Available: "@ + joined(mailbox_names(mailboxes@), ", "@),
        },
{
    let mut i: usize = 0;
    while i < mailboxes.len()
        invariant
            i <= mailboxes@.len(),
            forall|j: int| 0 <= j < i ==> ascii_lower(#[trigger] mailboxes@[j].name@) != ascii_lower(name@),
        decreases mailboxes@.len() - i,
    {
        if eq_ignore_ascii_case(mailboxes[i].name.as_str(), name) {
            return Ok(i);
        }
        i = i + 1;
    }
    let names = join_names(mailboxes, ", ");
    let e1 = concat("Mailbox '", name);
    let e2 = concat(e1.as_str(), "' not found. Available: ");
    Err(concat(e2.as_str(), names.as_str()))
}

/// The number of enabled rules (`enabled == 1`).
pub open spec fn enabled_count(rules: Seq<AutomationRule>) -> nat
    decreases rules.len(),
{
    if rules.len() == 0 {
        0
    } else {
        enabled_count(rules.drop_last()) + if rules.last().enabled == 1 {
            1nat
        } else {
            0nat
        }
    }
}

/// How many rules are enabled.
pub fn enabled_rule_count(rules: &Vec<AutomationRule>) -> (n: usize)
    ensures
        n == enabled_count(rules@),
{
    let mut n: usize = 0;
    let mut i: usize = 0;
    while i < rules.len()
        invariant
            i <= rules@.len(),
            n == enabled_count(rules@.take(i as int)),
            n <= i,
        decreases rules@.len() - i,
    {
        assert(rules@.take(i + 1).drop_last() =~= rules@.take(i as int));
        if rules[i].enabled == 1 {
            n = n + 1;
        }
        i = i + 1;
    }
    assert(rules@.take(i as int) =~= rules@);
    n
}

/// The unread marker of a listed message: blank when its stored flags mention `Seen`,
/// else `*`.
pub fn unread_marker(flags: &Option<String>) -> (m: &'static str)
    ensures
        m@ == if has_substring(
            match *flags {
                Some(f) => f@,
                None => "[]"@,
            },
            "Seen"@,
        ) {
            " "@
        } else {
            "*"@
        },
{
    let text: &str = match flags {
        Some(f) => f.as_str(),
        None => "[]",
    };
    let cs = chars_of(text);
    let needle = chars_of("Seen");
    if contains_chars(&cs, &needle) {
        " "
    } else {
        "*"
    }
}

} // verus!
