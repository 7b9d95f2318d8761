//! Automation rules: creating and updating stored rules, turning matched actions into
//! store operations, and matching a batch of emails.

use vstd::prelude::*;

use crate::engine::{evaluate_rules, rule_actions, DecodedRule};
use crate::flags::{changed_flags, flag_name, flag_name_text, flags_after_change, stored_flags, MessageFlag};
use crate::ids::{is_v4_uuid_text, new_uuid, unix_now};
use crate::json::{json_of_string_list, json_string_list};
use crate::schema::{AutomationRule, Email, RuleAction};
use crate::text::str_equal;

verus! {

/// A new enabled rule with identifier `id`, created and last updated at `now`.
pub open spec fn rule_created(id: String, now: i64, name: String, conditions: String, actions: String, priority: i64) -> AutomationRule {
    AutomationRule {
        id,
        name,
        enabled: 1,
        priority,
        conditions,
        actions,
        created_at: Some(now),
        updated_at: Some(now),
    }
}

/// `existing` with every given field replaced (an `enabled` flag stored as 1 or 0) and
/// the update time set to `now`; identifier and creation time are kept.
pub open spec fn rule_updated(
    existing: AutomationRule,
    name: Option<String>,
    enabled: Option<bool>,
    conditions: Option<String>,
    actions: Option<String>,
    priority: Option<i64>,
    now: i64,
) -> AutomationRule {
    AutomationRule {
        id: existing.id,
        name: match name {
            Some(n) => n,
            None => existing.name,
        },
        enabled: match enabled {
            Some(b) => if b {
                1
            } else {
                0
            },
            None => existing.enabled,
        },
        priority: match priority {
            Some(p) => p,
            None => existing.priority,
        },
        conditions: match conditions {
            Some(c) => c,
            None => existing.conditions,
        },
        actions: match actions {
            Some(a) => a,
            None => existing.actions,
        },
        created_at: existing.created_at,
        updated_at: Some(now),
    }
}

/// A new enabled rule with the given identifier and creation time.
pub fn new_rule(id: String, now: i64, name: String, conditions: String, actions: String, priority: i64) -> (rule: AutomationRule)
    ensures
        rule == rule_created(id, now, name, conditions, actions, priority),
{
    AutomationRule {
        id,
        name,
        enabled: 1,
        priority,
        conditions,
        actions,
        created_at: Some(now),
        updated_at: Some(now),
    }
}

/// A new enabled rule under a fresh random identifier, created now.
pub fn build_rule(name: String, conditions: String, actions: String, priority: i64) -> (rule: AutomationRule)
    ensures
        is_v4_uuid_text(rule.id@),
        rule.created_at is Some,
        rule == rule_created(rule.id, rule.created_at->0, name, conditions, actions, priority),
{
    let now = unix_now();
    let id = new_uuid();
    new_rule(id, now, name, conditions, actions, priority)
}

/// `existing` updated with the given fields at time `now`.
pub fn updated_rule(
    existing: AutomationRule,
    name: Option<String>,
    enabled: Option<bool>,
    conditions: Option<String>,
    actions: Option<String>,
    priority: Option<i64>,
    now: i64,
) -> (rule: AutomationRule)
    ensures
        rule == rule_updated(existing, name, enabled, conditions, actions, priority, now),
{
    AutomationRule {
        id: existing.id,
        name: match name {
            Some(n) => n,
            None => existing.name,
        },
        enabled: match enabled {
            Some(b) => if b {
                1
            } else {
                0
            },
            None => existing.enabled,
        },
        priority: match priority {
            Some(p) => p,
            None => existing.priority,
        },
        conditions: match conditions {
            Some(c) => c,
            None => existing.conditions,
        },
        actions: match actions {
            Some(a) => a,
            None => existing.actions,
        },
        created_at: existing.created_at,
        updated_at: Some(now),
    }
}

/// `existing` updated with the given fields, stamped with the current time.
pub fn apply_updates(
    existing: AutomationRule,
    name: Option<String>,
    enabled: Option<bool>,
    conditions: Option<String>,
    actions: Option<String>,
    priority: Option<i64>,
) -> (rule: AutomationRule)
    ensures
        rule.updated_at is Some,
        rule == rule_updated(existing, name, enabled, conditions, actions, priority, rule.updated_at->0),
{
    let now = unix_now();
    updated_rule(existing, name, enabled, conditions, actions, priority, now)
}

/// An update keeps the rule's identifier and creation time; an update that gives no
/// field changes nothing but the update time.
pub proof fn law_update_keeps_identity(
    existing: AutomationRule,
    name: Option<String>,
    enabled: Option<bool>,
    conditions: Option<String>,
    actions: Option<String>,
    priority: Option<i64>,
    now: i64,
)
    ensures
        rule_updated(existing, name, enabled, conditions, actions, priority, now).id == existing.id,
        rule_updated(existing, name, enabled, conditions, actions, priority, now).created_at == existing.created_at,
        rule_updated(existing, None, None, None, None, None, now) == (AutomationRule { updated_at: Some(now), ..existing }),
{
}

/// A store operation that one matched action asks for.
#[derive(Debug, PartialEq, Eq)]
pub enum PlannedAction {
    /// Move the email to the mailbox of this name.
    MoveTo { mailbox_name: String },
    /// Record this classification label with the given confidence in percent.
    Classify { label: String, confidence_percent: u32 },
    /// Store this flags field.
    SetFlags { flags_json: String },
    /// Delete the email and its bodies.
    Delete,
    /// Unknown action type: nothing to do.
    Ignore,
}

/// The planned operation stores the email's flags with `flag` added.
pub open spec fn flags_set_with(email: Email, flag: Seq<char>, p: PlannedAction) -> bool {
    p matches PlannedAction::SetFlags { flags_json } && flags_json@ == json_of_string_list(
        changed_flags(stored_flags(email.flags), Some(flag), None),
    ) && json_string_list(flags_json@) == Some(changed_flags(stored_flags(email.flags), Some(flag), None))
}

/// What an action does to an email: `move` moves it to the mailbox named by the value,
/// `label` and `classify` record the value as its classification at full confidence,
/// `mark_read` and `star` add the stored spellings of `Seen` and `Flagged` to the
/// email's flags, `delete` deletes it, and any other action type does nothing.
pub open spec fn planned_for(email: Email, action: RuleAction, p: PlannedAction) -> bool {
    let kind = action.action_type@;
    if kind == "move"@ {
        p matches PlannedAction::MoveTo { mailbox_name } && mailbox_name@ == action.value@
    } else if kind == "label"@ || kind == "classify"@ {
        p matches PlannedAction::Classify { label, confidence_percent } && label@ == action.value@
            && confidence_percent == 100
    } else if kind == "mark_read"@ {
        flags_set_with(email, flag_name_text(MessageFlag::Seen), p)
    } else if kind == "star"@ {
        flags_set_with(email, flag_name_text(MessageFlag::Flagged), p)
    } else if kind == "delete"@ {
        p == PlannedAction::Delete
    } else {
        p == PlannedAction::Ignore
    }
}

/// The store operation for one action on an email.
pub fn plan_action(email: &Email, action: &RuleAction) -> (r: PlannedAction)
    ensures
        planned_for(*email, *action, r),
{
    let kind: &str = action.action_type.as_str();
    if str_equal(kind, "move") {
        PlannedAction::MoveTo { mailbox_name: action.value.clone() }
    } else if str_equal(kind, "label") || str_equal(kind, "classify") {
        PlannedAction::Classify { label: action.value.clone(), confidence_percent: 100 }
    } else if str_equal(kind, "mark_read") {
        let seen = flag_name(&MessageFlag::Seen);
        PlannedAction::SetFlags { flags_json: flags_after_change(&email.flags, Some(seen.as_str()), None) }
    } else if str_equal(kind, "star") {
        let flagged = flag_name(&MessageFlag::Flagged);
        PlannedAction::SetFlags { flags_json: flags_after_change(&email.flags, Some(flagged.as_str()), None) }
    } else if str_equal(kind, "delete") {
        PlannedAction::Delete
    } else {
        PlannedAction::Ignore
    }
}

/// The email as a planned operation leaves it for the next action: a flags update
/// replaces its flags field; other operations leave the record as it was.
pub open spec fn email_after(email: Email, p: PlannedAction) -> Email {
    match p {
        PlannedAction::SetFlags { flags_json } => Email { flags: Some(flags_json), ..email },
        _ => email,
    }
}

/// The email as the first `i` planned operations leave it.
pub open spec fn email_before(email: Email, plans: Seq<PlannedAction>, i: int) -> Email
    decreases i,
{
    if i <= 0 {
        email
    } else {
        email_after(email_before(email, plans, i - 1), plans[i - 1])
    }
}

/// The store operations for a matched email's actions, in order: each action is
/// planned against the email as the earlier actions leave it, so flag changes add up
/// (marking read and then starring stores both flags).
pub fn plan_actions(email: &Email, actions: &Vec<RuleAction>) -> (r: Vec<PlannedAction>)
    ensures
        r@.len() == actions@.len(),
        forall|i: int| 0 <= i < r@.len() ==> planned_for(#[trigger] email_before(*email, r@, i), actions@[i], r@[i]),
{
    let mut current = email.clone();
    let mut r: Vec<PlannedAction> = Vec::new();
    let mut i: usize = 0;
    while i < actions.len()
        invariant
            i <= actions@.len(),
            r@.len() == i,
            current == email_before(*email, r@, i as int),
            forall|k: int| 0 <= k < i ==> planned_for(#[trigger] email_before(*email, r@, k), actions@[k], r@[k]),
        decreases actions@.len() - i,
    {
        let p = plan_action(&current, &actions[i]);
        let ghost before = r@;
        let ghost cur = current;
        if let PlannedAction::SetFlags { flags_json } = &p {
            current.flags = Some(flags_json.clone());
        }
        r.push(p);
        proof {
            assert forall|k: int| 0 <= k < i + 1 implies planned_for(
                #[trigger] email_before(*email, r@, k),
                actions@[k],
                r@[k],
            ) by {
                lemma_email_before_prefix(*email, before, r@, k);
                if k < i {
                    assert(r@[k] == before[k]);
                }
            }
            lemma_email_before_prefix(*email, before, r@, i as int);
            assert(current == email_after(cur, r@[i as int]));
        }
        i = i + 1;
    }
    r
}

proof fn lemma_email_before_prefix(email: Email, a: Seq<PlannedAction>, b: Seq<PlannedAction>, k: int)
    requires
        0 <= k <= a.len() <= b.len(),
        forall|j: int| 0 <= j < a.len() ==> a[j] == b[j],
    ensures
        email_before(email, b, k) == email_before(email, a, k),
    decreases k,
{
    if k > 0 {
        lemma_email_before_prefix(email, a, b, k - 1);
    }
}

/// For each email in order, its uid and the actions that the rules give it, leaving out
/// emails that no action applies to.
pub open spec fn rule_run(emails: Seq<Email>, rules: Seq<DecodedRule>) -> Seq<(i64, Seq<RuleAction>)>
    decreases emails.len(),
{
    if emails.len() == 0 {
        Seq::empty()
    } else {
        let prev = rule_run(emails.drop_last(), rules);
        let acts = rule_actions(emails.last(), rules);
        if acts.len() == 0 {
            prev
        } else {
            prev.push((emails.last().uid, acts))
        }
    }
}

pub open spec fn matches_view(r: Seq<(i64, Vec<RuleAction>)>) -> Seq<(i64, Seq<RuleAction>)> {
    r.map_values(|p: (i64, Vec<RuleAction>)| (p.0, p.1@))
}

/// The matching part of a rule run over a batch of emails: each email with at least one
/// applicable action, with those actions in evaluation order.
pub fn match_rules(emails: &Vec<Email>, rules: &Vec<DecodedRule>) -> (results: Vec<(i64, Vec<RuleAction>)>)
    ensures
        matches_view(results@) == rule_run(emails@, rules@),
{
    let mut results: Vec<(i64, Vec<RuleAction>)> = Vec::new();
    let mut i: usize = 0;
    while i < emails.len()
        invariant
            i <= emails@.len(),
            matches_view(results@) == rule_run(emails@.take(i as int), rules@),
        decreases emails@.len() - i,
    {
        assert(emails@.take(i + 1).drop_last() =~= emails@.take(i as int));
        assert(emails@.take(i + 1).last() == emails@[i as int]);
        let matched = evaluate_rules(&emails[i], rules);
        if matched.len() != 0 {
            let ghost before = results@;
            results.push((emails[i].uid, matched));
            assert(matches_view(results@) =~= matches_view(before).push((emails@[i as int].uid, matched@)));
        }
        i = i + 1;
    }
    assert(emails@.take(i as int) =~= emails@);
    results
}


/// An update sets exactly the fields it gives: each given field takes the given value
/// (an `enabled` flag as 1 or 0), each field not given keeps its old value, and the
/// update time becomes `now`.
pub proof fn law_update_sets_given_fields(
    existing: AutomationRule,
    name: Option<String>,
    enabled: Option<bool>,
    conditions: Option<String>,
    actions: Option<String>,
    priority: Option<i64>,
    now: i64,
)
    ensures
        ({
            let r = rule_updated(existing, name, enabled, conditions, actions, priority, now);
            &&& r.name == (if name is Some { name->0 } else { existing.name })
            &&& r.enabled == (if enabled is Some { if enabled->0 { 1i64 } else { 0i64 } } else { existing.enabled })
            &&& r.conditions == (if conditions is Some { conditions->0 } else { existing.conditions })
            &&& r.actions == (if actions is Some { actions->0 } else { existing.actions })
            &&& r.priority == (if priority is Some { priority->0 } else { existing.priority })
            &&& r.updated_at == Some(now)
        }),
{
}

/// `label` is another name for `classify`: an action of either type with the same
/// value plans the same operation, recording the value as the classification at full
/// confidence.
pub proof fn law_label_is_classify(email: Email, label: RuleAction, classify: RuleAction, p: PlannedAction, q: PlannedAction)
    requires
        label.action_type@ == "label"@,
        classify.action_type@ == "classify"@,
        label.value == classify.value,
        planned_for(email, label, p),
        planned_for(email, classify, q),
    ensures
        p matches PlannedAction::Classify { label: l, confidence_percent } && l@ == label.value@ && confidence_percent == 100,
        q matches PlannedAction::Classify { label: l, confidence_percent } && l@ == label.value@ && confidence_percent == 100,
{
    reveal_strlit("move");
    reveal_strlit("label");
    reveal_strlit("classify");
    assert("move"@.len() == 4 && "label"@.len() == 5 && "classify"@.len() == 8);
}

/// Marking read and starring add their flag and keep every other one: the planned
/// flags field decodes to the old flags in order, with the stored spelling of `Seen`
/// (for `mark_read`) or `Flagged` (for `star`) at the end unless it was already there.
pub proof fn law_flag_actions_add_their_flag(email: Email, action: RuleAction, p: PlannedAction)
    requires
        action.action_type@ == "mark_read"@ || action.action_type@ == "star"@,
        planned_for(email, action, p),
    ensures
        ({
            let old_flags = stored_flags(email.flags);
            let f: Seq<char> = if action.action_type@ == "mark_read"@ { "\\Seen"@ } else { "\\Flagged"@ };
            p matches PlannedAction::SetFlags { flags_json } && json_string_list(flags_json@) == Some(
                if old_flags.contains(f) { old_flags } else { old_flags.push(f) },
            )
        }),
{
    reveal_strlit("move");
    reveal_strlit("label");
    reveal_strlit("classify");
    reveal_strlit("mark_read");
    reveal_strlit("star");
    assert("move"@.len() == 4 && "star"@.len() == 4 && "label"@.len() == 5);
    assert("classify"@.len() == 8 && "mark_read"@.len() == 9);
    assert("move"@[0] != "star"@[0]);
}


/// What the other action types plan: `move` moves the email to the mailbox named by
/// the action's value, `delete` deletes it, and an action type the engine does not
/// know plans nothing.
pub proof fn law_move_delete_and_unknown_actions(email: Email, action: RuleAction, p: PlannedAction)
    requires
        planned_for(email, action, p),
    ensures
        action.action_type@ == "move"@ ==> (p matches PlannedAction::MoveTo { mailbox_name } && mailbox_name@
            == action.value@),
        action.action_type@ == "delete"@ ==> p == PlannedAction::Delete,
        !(action.action_type@ == "move"@ || action.action_type@ == "label"@ || action.action_type@ == "classify"@
            || action.action_type@ == "mark_read"@ || action.action_type@ == "star"@ || action.action_type@
            == "delete"@) ==> p == PlannedAction::Ignore,
{
    reveal_strlit("move");
    reveal_strlit("label");
    reveal_strlit("classify");
    reveal_strlit("mark_read");
    reveal_strlit("star");
    reveal_strlit("delete");
    assert("move"@.len() == 4 && "star"@.len() == 4 && "label"@.len() == 5 && "delete"@.len() == 6);
    assert("classify"@.len() == 8 && "mark_read"@.len() == 9);
}

} // verus!
