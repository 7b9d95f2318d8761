//! Message classification: keyword heuristics (tier 1), a local model slot (tier 2)
//! and the request and reply handling of the language-model tier (tier 3).

use vstd::prelude::*;

use crate::json::{json_reply_text, reply_text};
use crate::schema::{text_or_empty, Classification, EmailDetail};
use crate::text::{
    all_ascii, ascii_lower, chars_of, concat, contains_chars, first_chars, has_substring, lowercase,
    owned, take_chars, to_lowercase, trim, trimmed,
};

verus! {

/// Tier-1 verdict on the lower-cased subject, sender address and text body: the
/// category and the confidence in percent, or `None` when no keyword rule applies.
/// Rules are tried in this order: newsletter, transaction, social, promotion, calendar.
pub open spec fn heuristic_verdict(subject: Seq<char>, sender: Seq<char>, body: Seq<char>) -> Option<(Seq<char>, u32)> {
    if has_substring(sender, "newsletter"@) || has_substring(sender, "noreply"@) || has_substring(
        sender,
        "no-reply"@,
    ) || has_substring(subject, "unsubscribe"@) || has_substring(body, "unsubscribe"@) {
        Some(("newsletter"@, 85u32))
    } else if has_substring(subject, "receipt"@) || has_substring(subject, "order confirmation"@)
        || has_substring(subject, "invoice"@) || has_substring(subject, "payment"@) || has_substring(
        subject,
        "transaction"@,
    ) {
        Some(("transaction"@, 80u32))
    } else if has_substring(sender, "facebook"@) || has_substring(sender, "twitter"@) || has_substring(
        sender,
        "linkedin"@,
    ) || has_substring(sender, "instagram"@) || has_substring(sender, "github"@) {
        Some(("social"@, 80u32))
    } else if has_substring(subject, "sale"@) || has_substring(subject, "% off"@) || has_substring(
        subject,
        "discount"@,
    ) || has_substring(subject, "limited time"@) || has_substring(subject, "free shipping"@) {
        Some(("promotion"@, 75u32))
    } else if has_substring(subject, "invitation"@) || has_substring(subject, "meeting"@)
        || has_substring(subject, "calendar"@) || has_substring(subject, "rsvp"@) {
        Some(("calendar"@, 80u32))
    } else {
        None
    }
}

/// The tier-1 verdict on a message: its subject, sender address and text body, each
/// lower-cased (an absent field counts as empty text).
pub open spec fn heuristic_verdict_of(detail: EmailDetail) -> Option<(Seq<char>, u32)> {
    heuristic_verdict(
        lowercase(text_or_empty(detail.email.subject)),
        lowercase(text_or_empty(detail.email.sender_email)),
        lowercase(text_or_empty(detail.text_body)),
    )
}

/// The subject, sender address and text body of a message are ASCII text.
pub open spec fn ascii_fields(detail: EmailDetail) -> bool {
    &&& all_ascii(text_or_empty(detail.email.subject))
    &&& all_ascii(text_or_empty(detail.email.sender_email))
    &&& all_ascii(text_or_empty(detail.text_body))
}

/// The tier-1 verdict computed on ASCII case-folded fields.
pub open spec fn heuristic_verdict_ascii(detail: EmailDetail) -> Option<(Seq<char>, u32)> {
    heuristic_verdict(
        ascii_lower(text_or_empty(detail.email.subject)),
        ascii_lower(text_or_empty(detail.email.sender_email)),
        ascii_lower(text_or_empty(detail.text_body)),
    )
}

/// A classification agrees with a verdict and names `tier`.
pub open spec fn classification_is(c: Classification, verdict: (Seq<char>, u32), tier: Seq<char>) -> bool {
    &&& c.label@ == verdict.0
    &&& c.confidence_percent == verdict.1
    &&& c.tier@ == tier
}

/// Whether `lit` occurs in `hay`.
fn mentions(hay: &Vec<char>, lit: &str) -> (r: bool)
    ensures
        r == has_substring(hay@, lit@),
{
    let needle = chars_of(lit);
    contains_chars(hay, &needle)
}

/// The characters of the lower-cased optional text (empty when absent).
fn lowered_field(o: &Option<String>) -> (v: Vec<char>)
    ensures
        v@ == lowercase(text_or_empty(*o)),
        all_ascii(text_or_empty(*o)) ==> lowercase(text_or_empty(*o)) == ascii_lower(text_or_empty(*o)),
{
    let s: &str = match o {
        Some(s) => s.as_str(),
        None => "",
    };
    proof {
        reveal_strlit("");
    }
    assert(s@ == text_or_empty(*o));
    let l = to_lowercase(s);
    chars_of(l.as_str())
}

fn heuristic(label: &str, confidence_percent: u32) -> (c: Classification)
    ensures
        classification_is(c, (label@, confidence_percent), "heuristic"@),
{
    Classification { label: owned(label), confidence_percent, tier: owned("heuristic") }
}

/// Tier 1: keyword heuristics on the sender address, subject and text body. On ASCII
/// text the keywords match regardless of letter case.
pub fn classify_heuristic(detail: &EmailDetail) -> (r: Option<Classification>)
    ensures
        match heuristic_verdict_of(*detail) {
            Some(v) => r is Some && classification_is(r->0, v, "heuristic"@),
            None => r is None,
        },
        ascii_fields(*detail) ==> heuristic_verdict_of(*detail) == heuristic_verdict_ascii(*detail),
{
    let subject = lowered_field(&detail.email.subject);
    let sender = lowered_field(&detail.email.sender_email);
    let body = lowered_field(&detail.text_body);

    if mentions(&sender, "newsletter") || mentions(&sender, "noreply") || mentions(&sender, "no-reply")
        || mentions(&subject, "unsubscribe") || mentions(&body, "unsubscribe") {
        return Some(heuristic("newsletter", 85));
    }
    if mentions(&subject, "receipt") || mentions(&subject, "order confirmation") || mentions(
        &subject,
        "invoice",
    ) || mentions(&subject, "payment") || mentions(&subject, "transaction") {
        return Some(heuristic("transaction", 80));
    }
    if mentions(&sender, "facebook") || mentions(&sender, "twitter") || mentions(&sender, "linkedin")
        || mentions(&sender, "instagram") || mentions(&sender, "github") {
        return Some(heuristic("social", 80));
    }
    if mentions(&subject, "sale") || mentions(&subject, "% off") || mentions(&subject, "discount")
        || mentions(&subject, "limited time") || mentions(&subject, "free shipping") {
        return Some(heuristic("promotion", 75));
    }
    if mentions(&subject, "invitation") || mentions(&subject, "meeting") || mentions(
        &subject,
        "calendar",
    ) || mentions(&subject, "rsvp") {
        return Some(heuristic("calendar", 80));
    }
    None
}

/// Tier 2: the slot for a local model. No model is bundled, so this tier never
/// decides and classification falls through to the next tier.
pub fn classify_local(detail: &EmailDetail) -> (r: Option<Classification>)
    ensures
        r is None,
{
    None
}

/// The offline part of the classification cascade: tier 1, then tier 2. `None` means
/// that the language-model tier has to decide.
pub fn classify_without_llm(detail: &EmailDetail) -> (r: Option<Classification>)
    ensures
        match heuristic_verdict_of(*detail) {
            Some(v) => r is Some && classification_is(r->0, v, "heuristic"@),
            None => r is None,
        },
{
    match classify_heuristic(detail) {
        Some(c) => Some(c),
        None => classify_local(detail),
    }
}

/// The fixed head of the tier-3 prompt, up to the sender address.
pub open spec fn prompt_head() -> Seq<char> {
    "Classify this email into exactly one category. Respond with ONLY the category name.\nCategories: personal, work, newsletter, transaction, social, promotion, calendar, spam, other\n\nFrom: "@
}

/// The text of an optional field, or `default` when it is absent.
pub open spec fn text_or(o: Option<String>, default: Seq<char>) -> Seq<char> {
    match o {
        Some(s) => s@,
        None => default,
    }
}

/// The tier-3 prompt for a message: sender address (or `unknown`), subject (or
/// `(no subject)`) and the first 500 characters of the text body.
pub open spec fn prompt_for(detail: EmailDetail) -> Seq<char> {
    prompt_head() + text_or(detail.email.sender_email, "unknown"@) + "\nSubject: "@ + text_or(
        detail.email.subject,
        "(no subject)"@,
    ) + "\nBody preview: "@ + first_chars(text_or_empty(detail.text_body), 500)
}

fn text_or_default<'a>(o: &'a Option<String>, default: &'a str) -> (r: &'a str)
    ensures
        r@ == text_or(*o, default@),
{
    match o {
        Some(s) => s.as_str(),
        None => default,
    }
}

/// The prompt that asks the language model for one category of the message.
pub fn classification_prompt(detail: &EmailDetail) -> (prompt: String)
    ensures
        prompt@ == prompt_for(*detail),
{
    let subject = text_or_default(&detail.email.subject, "(no subject)");
    let sender = text_or_default(&detail.email.sender_email, "unknown");
    let body = text_or_default(&detail.text_body, "");
    proof {
        reveal_strlit("");
    }
    let preview = take_chars(body, 500);
    let head = "Classify this email into exactly one category. Respond with ONLY the category name.\nCategories: personal, work, newsletter, transaction, social, promotion, calendar, spam, other\n\nFrom: ";
    let p1 = concat(head, sender);
    let p2 = concat(p1.as_str(), "\nSubject: ");
    let p3 = concat(p2.as_str(), subject);
    let p4 = concat(p3.as_str(), "\nBody preview: ");
    let p5 = concat(p4.as_str(), preview.as_str());
    p5
}

/// The category that the model's reply names: the reply text (or `other` when the
/// reply holds none), trimmed and lower-cased.
pub open spec fn llm_label(reply: Option<Seq<char>>) -> Seq<char> {
    lowercase(trimmed(
        match reply {
            Some(t) => t,
            None => "other"@,
        },
    ))
}

/// Tier 3: the classification read from the model's reply text, at 90 percent
/// confidence.
pub fn llm_classification(reply: Option<&str>) -> (c: Classification)
    ensures
        c.label@ == llm_label(
            match reply {
                Some(t) => Some(t@),
                None => None,
            },
        ),
        c.confidence_percent == 90,
        c.tier@ == "llm"@,
{
    let text: &str = match reply {
        Some(t) => t,
        None => "other",
    };
    let t = trim(text);
    let label = to_lowercase(t.as_str());
    Classification { label, confidence_percent: 90, tier: owned("llm") }
}


/// Tier 3 on a whole reply body: the classification of the text at
/// `content[0].text` (see `llm_classification`); a body that is not JSON is refused
/// with a message that starts `Failed to parse Anthropic response: `.
pub fn classification_from_response(body: &str) -> (r: Result<Classification, String>)
    ensures
        r is Ok <==> json_reply_text(body@) is Some,
        r matches Ok(c) ==> c.label@ == llm_label(json_reply_text(body@)->0) && c.confidence_percent == 90
            && c.tier@ == "llm"@,
        r matches Err(e) ==> "Failed to parse Anthropic response: "@.is_prefix_of(e@),
{
    match reply_text(body) {
        Ok(t) => {
            let reply: Option<&str> = match &t {
                Some(s) => Some(s.as_str()),
                None => None,
            };
            Ok(llm_classification(reply))
        },
        Err(e) => {
            let m = concat("Failed to parse Anthropic response: ", e.as_str());
            assert("Failed to parse Anthropic response: "@.is_prefix_of(m@)) by {
                assert(m@.subrange(0, "Failed to parse Anthropic response: "@.len() as int)
                    =~= "Failed to parse Anthropic response: "@);
            }
            Err(m)
        },
    }
}


/// Every keyword is heard: when a category's keyword occurs in the field it is looked
/// for in (lower-cased), the heuristics give a verdict, and it is that category or
/// one that is tried before it (newsletter, transaction, social, promotion, calendar),
/// each at its fixed confidence.
pub proof fn law_keywords_give_a_verdict(detail: EmailDetail)
    ensures
        ({
            let subject = lowercase(text_or_empty(detail.email.subject));
            let sender = lowercase(text_or_empty(detail.email.sender_email));
            let body = lowercase(text_or_empty(detail.text_body));
            let verdict = heuristic_verdict_of(detail);
            let newsletter = ("newsletter"@, 85u32);
            let transaction = ("transaction"@, 80u32);
            let social = ("social"@, 80u32);
            let promotion = ("promotion"@, 75u32);
            let calendar = ("calendar"@, 80u32);
            &&& (has_substring(sender, "newsletter"@) || has_substring(sender, "noreply"@)
                || has_substring(sender, "no-reply"@) || has_substring(subject, "unsubscribe"@)
                || has_substring(body, "unsubscribe"@)) ==> verdict == Some(newsletter)
            &&& (has_substring(subject, "receipt"@) || has_substring(subject, "order confirmation"@)
                || has_substring(subject, "invoice"@) || has_substring(subject, "payment"@)
                || has_substring(subject, "transaction"@)) ==> (verdict == Some(newsletter)
                || verdict == Some(transaction))
            &&& (has_substring(sender, "facebook"@) || has_substring(sender, "twitter"@)
                || has_substring(sender, "linkedin"@) || has_substring(sender, "instagram"@)
                || has_substring(sender, "github"@)) ==> (verdict == Some(newsletter)
                || verdict == Some(transaction) || verdict == Some(social))
            &&& (has_substring(subject, "sale"@) || has_substring(subject, "% off"@)
                || has_substring(subject, "discount"@) || has_substring(subject, "limited time"@)
                || has_substring(subject, "free shipping"@)) ==> (verdict == Some(newsletter)
                || verdict == Some(transaction) || verdict == Some(social) || verdict == Some(promotion))
            &&& (has_substring(subject, "invitation"@) || has_substring(subject, "meeting"@)
                || has_substring(subject, "calendar"@) || has_substring(subject, "rsvp"@)) ==> verdict is Some
        }),
{
}

/// No verdict without a reason: the heuristics name a category only when one of that
/// category's keywords occurs in the field it is looked for in, and give nothing when
/// no keyword occurs at all.
pub proof fn law_verdicts_have_a_keyword(detail: EmailDetail)
    ensures
        ({
            let subject = lowercase(text_or_empty(detail.email.subject));
            let sender = lowercase(text_or_empty(detail.email.sender_email));
            let body = lowercase(text_or_empty(detail.text_body));
            let verdict = heuristic_verdict_of(detail);
            &&& verdict == Some(("newsletter"@, 85u32)) ==> (has_substring(sender, "newsletter"@)
                || has_substring(sender, "noreply"@) || has_substring(sender, "no-reply"@)
                || has_substring(subject, "unsubscribe"@) || has_substring(body, "unsubscribe"@))
            &&& verdict == Some(("transaction"@, 80u32)) ==> (has_substring(subject, "receipt"@)
                || has_substring(subject, "order confirmation"@) || has_substring(subject, "invoice"@)
                || has_substring(subject, "payment"@) || has_substring(subject, "transaction"@))
            &&& verdict == Some(("social"@, 80u32)) ==> (has_substring(sender, "facebook"@)
                || has_substring(sender, "twitter"@) || has_substring(sender, "linkedin"@)
                || has_substring(sender, "instagram"@) || has_substring(sender, "github"@))
            &&& verdict == Some(("promotion"@, 75u32)) ==> (has_substring(subject, "sale"@)
                || has_substring(subject, "% off"@) || has_substring(subject, "discount"@)
                || has_substring(subject, "limited time"@) || has_substring(subject, "free shipping"@))
            &&& verdict == Some(("calendar"@, 80u32)) ==> (has_substring(subject, "invitation"@)
                || has_substring(subject, "meeting"@) || has_substring(subject, "calendar"@)
                || has_substring(subject, "rsvp"@))
            &&& verdict matches Some(v) ==> (v == ("newsletter"@, 85u32) || v == ("transaction"@, 80u32) || v
                == ("social"@, 80u32) || v == ("promotion"@, 75u32) || v == ("calendar"@, 80u32))
        }),
{
    reveal_strlit("newsletter");
    reveal_strlit("transaction");
    reveal_strlit("social");
    reveal_strlit("promotion");
    reveal_strlit("calendar");
    assert("newsletter"@.len() == 10 && "transaction"@.len() == 11 && "social"@.len() == 6);
    assert("promotion"@.len() == 9 && "calendar"@.len() == 8);
}

} // verus!
