use protonmail_client::automation::{match_rules, plan_action, plan_actions, PlannedAction};
use protonmail_client::engine::{condition_matches, conditions_match, evaluate_rules, DecodedRule};
use protonmail_client::schema::{AutomationRule, Email, RuleAction, RuleCondition};

fn email(subject: &str, sender: &str) -> Email {
    Email {
        uid: 7,
        mailbox_id: "acc:INBOX".to_string(),
        message_id: None,
        subject: Some(subject.to_string()),
        sender_name: Some("Ada Lovelace".to_string()),
        sender_email: Some(sender.to_string()),
        recipients: Some("[\"me@proton.me\"]".to_string()),
        date_utc: 0,
        flags: None,
        has_attachments: 0,
        preview: None,
        classification: None,
        classification_confidence_bits: None,
    }
}

fn cond(field: &str, op: &str, value: &str) -> RuleCondition {
    RuleCondition { field: field.to_string(), operator: op.to_string(), value: value.to_string() }
}

fn act(kind: &str, value: &str) -> RuleAction {
    RuleAction { action_type: kind.to_string(), value: value.to_string() }
}

fn rule(id: &str, enabled: i64, priority: i64, conditions: Vec<RuleCondition>, actions: Vec<RuleAction>) -> DecodedRule {
    DecodedRule {
        rule: AutomationRule {
            id: id.to_string(),
            name: id.to_string(),
            enabled,
            priority,
            conditions: String::new(),
            actions: String::new(),
            created_at: None,
            updated_at: None,
        },
        conditions,
        actions,
    }
}

#[test]
fn operators_ignore_case() {
    let e = email("Your Invoice #42", "Billing@Shop.COM");
    assert!(condition_matches(&e, &cond("subject", "contains", "invoice")));
    assert!(condition_matches(&e, &cond("subject", "starts_with", "YOUR")));
    assert!(condition_matches(&e, &cond("subject", "ends_with", "#42")));
    assert!(condition_matches(&e, &cond("sender_email", "equals", "billing@shop.com")));
    assert!(!condition_matches(&e, &cond("sender_email", "equals", "billing@shop.co")));
    assert!(condition_matches(&e, &cond("sender_name", "contains", "lovelace")));
    assert!(condition_matches(&e, &cond("recipients", "contains", "me@proton.me")));
}

#[test]
fn not_contains_is_the_negation_of_contains() {
    let e = email("Weekly digest", "news@example.org");
    for value in ["digest", "DIGEST", "receipt", ""] {
        let c = condition_matches(&e, &cond("subject", "contains", value));
        let n = condition_matches(&e, &cond("subject", "not_contains", value));
        assert_eq!(c, !n);
    }
}

#[test]
fn unknown_field_or_operator_never_matches() {
    let e = email("Hello", "a@b.c");
    assert!(!condition_matches(&e, &cond("body", "contains", "")));
    assert!(!condition_matches(&e, &cond("subject", "matches", "Hello")));
}

#[test]
fn missing_field_reads_as_empty_text() {
    let mut e = email("x", "a@b.c");
    e.subject = None;
    assert!(condition_matches(&e, &cond("subject", "equals", "")));
    assert!(!condition_matches(&e, &cond("subject", "contains", "x")));
}

#[test]
fn empty_condition_list_matches_every_email() {
    let e = email("anything", "anyone@example.com");
    assert!(conditions_match(&e, &vec![]));
    assert!(!conditions_match(&e, &vec![cond("subject", "contains", "anything"), cond("subject", "contains", "nothing")]));
}

#[test]
fn rules_run_by_priority_and_skip_disabled() {
    let e = email("Invoice", "billing@shop.com");
    let rules = vec![
        rule("low", 1, 1, vec![], vec![act("label", "low")]),
        rule("off", 0, 99, vec![], vec![act("label", "disabled")]),
        rule("high", 1, 10, vec![cond("subject", "contains", "invoice")], vec![act("star", ""), act("move", "Receipts")]),
        rule("low2", 1, 1, vec![], vec![act("label", "low2")]),
        rule("miss", 1, 50, vec![cond("sender_email", "equals", "nobody@x")], vec![act("delete", "")]),
    ];
    let actions = evaluate_rules(&e, &rules);
    let got: Vec<(String, String)> = actions.iter().map(|a| (a.action_type.clone(), a.value.clone())).collect();
    assert_eq!(
        got,
        vec![
            ("star".to_string(), "".to_string()),
            ("move".to_string(), "Receipts".to_string()),
            ("label".to_string(), "low".to_string()),
            ("label".to_string(), "low2".to_string()),
        ]
    );
}

#[test]
fn rule_run_reports_only_matched_emails() {
    let a = email("Invoice 1", "a@x.com");
    let mut b = email("Hello", "b@x.com");
    b.uid = 8;
    let rules = vec![rule("r", 1, 0, vec![cond("subject", "contains", "invoice")], vec![act("label", "bills")])];
    let results = match_rules(&vec![a, b], &rules);
    assert_eq!(results.len(), 1);
    assert_eq!(results[0].0, 7);
    assert_eq!(results[0].1[0].value, "bills");
}

#[test]
fn actions_plan_store_operations() {
    let mut e = email("s", "a@b.c");
    e.flags = Some("[\"\\\\Flagged\"]".to_string());
    assert_eq!(plan_action(&e, &act("move", "Archive")), PlannedAction::MoveTo { mailbox_name: "Archive".to_string() });
    assert_eq!(
        plan_action(&e, &act("classify", "work")),
        PlannedAction::Classify { label: "work".to_string(), confidence_percent: 100 }
    );
    assert_eq!(
        plan_action(&e, &act("mark_read", "")),
        PlannedAction::SetFlags { flags_json: "[\"\\\\Flagged\",\"\\\\Seen\"]".to_string() }
    );
    assert_eq!(
        plan_action(&e, &act("star", "")),
        PlannedAction::SetFlags { flags_json: "[\"\\\\Flagged\"]".to_string() }
    );
    assert_eq!(plan_action(&e, &act("delete", "")), PlannedAction::Delete);
    assert_eq!(plan_action(&e, &act("forward", "x")), PlannedAction::Ignore);
}

#[test]
fn later_actions_see_earlier_flag_changes() {
    let mut e = email("s", "a@b.c");
    e.flags = Some("[]".to_string());
    let plans = plan_actions(&e, &vec![act("mark_read", ""), act("move", "Archive"), act("star", "")]);
    assert_eq!(
        plans,
        vec![
            PlannedAction::SetFlags { flags_json: "[\"\\\\Seen\"]".to_string() },
            PlannedAction::MoveTo { mailbox_name: "Archive".to_string() },
            PlannedAction::SetFlags { flags_json: "[\"\\\\Seen\",\"\\\\Flagged\"]".to_string() },
        ]
    );
    assert!(plan_actions(&e, &vec![]).is_empty());
}
