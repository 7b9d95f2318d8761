//! The automation-rule engine: which actions apply to an email.

use vstd::prelude::*;

use crate::schema::{text_or_empty, AutomationRule, Email, RuleAction, RuleCondition};
use crate::text::{
    ascii_lower, chars_of, contains_chars, ends_with_chars, eq_ignore_ascii_case, has_prefix,
    has_substring, has_suffix, lowercase, occurs_at, starts_with_chars, str_equal, to_lowercase,
};

verus! {

/// An automation rule together with its decoded condition and action lists.
///
/// A stored rule keeps both lists as JSON text; a list that does not decode counts
/// as empty.
pub struct DecodedRule {
    pub rule: AutomationRule,
    pub conditions: Vec<RuleCondition>,
    pub actions: Vec<RuleAction>,
}

/// The text of the email field that a condition names, or `None` for an unknown field.
pub open spec fn field_text(email: Email, field: Seq<char>) -> Option<Seq<char>> {
    if field == "subject"@ {
        Some(text_or_empty(email.subject))
    } else if field == "sender_email"@ {
        Some(text_or_empty(email.sender_email))
    } else if field == "sender_name"@ {
        Some(text_or_empty(email.sender_name))
    } else if field == "recipients"@ {
        Some(text_or_empty(email.recipients))
    } else {
        None
    }
}

/// Whether `operator` relates the field text to the condition value. Comparisons
/// ignore case: `equals` by ASCII case folding, the others on the Unicode
/// lower-cased texts. Unknown operators never hold.
pub open spec fn operator_holds(operator: Seq<char>, field: Seq<char>, value: Seq<char>) -> bool {
    if operator == "contains"@ {
        has_substring(lowercase(field), lowercase(value))
    } else if operator == "equals"@ {
        ascii_lower(field) == ascii_lower(value)
    } else if operator == "starts_with"@ {
        has_prefix(lowercase(field), lowercase(value))
    } else if operator == "ends_with"@ {
        has_suffix(lowercase(field), lowercase(value))
    } else if operator == "not_contains"@ {
        !has_substring(lowercase(field), lowercase(value))
    } else {
        false
    }
}

/// Whether one condition holds of an email.
pub open spec fn condition_holds(email: Email, c: RuleCondition) -> bool {
    match field_text(email, c.field@) {
        Some(f) => operator_holds(c.operator@, f, c.value@),
        None => false,
    }
}

/// Whether every condition of a list holds of an email.
pub open spec fn all_conditions_hold(email: Email, cs: Seq<RuleCondition>) -> bool {
    forall|i: int| 0 <= i < cs.len() ==> condition_holds(email, #[trigger] cs[i])
}

/// Where a rule of priority `p` enters an ordered list of rule positions: after every
/// rule whose priority is at least `p`.
pub open spec fn insertion_point(rules: Seq<DecodedRule>, order: Seq<usize>, p: i64) -> int
    decreases order.len(),
{
    if order.len() == 0 {
        0
    } else if rules[order[0] as int].rule.priority < p {
        0
    } else {
        1 + insertion_point(rules, order.drop_first(), p)
    }
}

/// The positions of the enabled rules among the first `n`, by priority, highest
/// first; rules of equal priority keep their order.
pub open spec fn evaluation_order(rules: Seq<DecodedRule>, n: int) -> Seq<usize>
    decreases n,
{
    if n <= 0 {
        Seq::empty()
    } else {
        let o = evaluation_order(rules, n - 1);
        let r = rules[n - 1];
        if r.rule.enabled == 1 {
            o.insert(insertion_point(rules, o, r.rule.priority), (n - 1) as usize)
        } else {
            o
        }
    }
}

/// The actions, in order, of the rules at positions `order` whose conditions all hold.
pub open spec fn actions_of_matching(email: Email, rules: Seq<DecodedRule>, order: Seq<usize>) -> Seq<RuleAction>
    decreases order.len(),
{
    if order.len() == 0 {
        Seq::empty()
    } else {
        let r = rules[order.last() as int];
        actions_of_matching(email, rules, order.drop_last()) + if all_conditions_hold(
            email,
            r.conditions@,
        ) {
            r.actions@
        } else {
            Seq::empty()
        }
    }
}

/// The actions that a rule list gives an email.
pub open spec fn rule_actions(email: Email, rules: Seq<DecodedRule>) -> Seq<RuleAction> {
    actions_of_matching(email, rules, evaluation_order(rules, rules.len() as int))
}

proof fn lemma_insertion_point_bounds(rules: Seq<DecodedRule>, order: Seq<usize>, p: i64)
    ensures
        0 <= insertion_point(rules, order, p) <= order.len(),
    decreases order.len(),
{
    if order.len() > 0 {
        lemma_insertion_point_bounds(rules, order.drop_first(), p);
    }
}

proof fn lemma_insertion_point_skip(rules: Seq<DecodedRule>, order: Seq<usize>, p: i64, k: int)
    requires
        0 <= k <= order.len(),
        forall|j: int| 0 <= j < k ==> rules[#[trigger] order[j] as int].rule.priority >= p,
    ensures
        insertion_point(rules, order, p) == k + insertion_point(rules, order.subrange(k, order.len() as int), p),
    decreases k,
{
    if k > 0 {
        let rest = order.drop_first();
        assert forall|j: int| 0 <= j < k - 1 implies rules[#[trigger] rest[j] as int].rule.priority >= p by {
            assert(rest[j] == order[j + 1]);
        }
        lemma_insertion_point_skip(rules, rest, p, k - 1);
        assert(rest.subrange(k - 1, rest.len() as int) =~= order.subrange(k, order.len() as int));
    } else {
        assert(order.subrange(0, order.len() as int) =~= order);
    }
}

/// Position in `order` at which a rule of priority `p` is inserted.
fn find_insertion_point(rules: &Vec<DecodedRule>, order: &Vec<usize>, p: i64) -> (k: usize)
    requires
        forall|j: int| 0 <= j < order@.len() ==> (#[trigger] order@[j] as int) < rules@.len(),
    ensures
        k == insertion_point(rules@, order@, p),
{
    let mut k: usize = 0;
    while k < order.len()
        invariant
            k <= order@.len(),
            forall|j: int| 0 <= j < order@.len() ==> (#[trigger] order@[j] as int) < rules@.len(),
            forall|j: int| 0 <= j < k ==> rules@[#[trigger] order@[j] as int].rule.priority >= p,
        decreases order@.len() - k,
    {
        if rules[order[k]].rule.priority < p {
            proof {
                lemma_insertion_point_skip(rules@, order@, p, k as int);
            }
            return k;
        }
        k = k + 1;
    }
    proof {
        lemma_insertion_point_skip(rules@, order@, p, k as int);
    }
    k
}

proof fn lemma_order_in_bounds(rules: Seq<DecodedRule>, n: int)
    requires
        n <= rules.len(),
    ensures
        evaluation_order(rules, n).len() <= if n < 0 { 0 } else { n },
        forall|j: int| 0 <= j < evaluation_order(rules, n).len() ==> 0 <= (#[trigger] evaluation_order(rules, n)[j] as int) < n,
    decreases n,
{
    if n > 0 {
        lemma_order_in_bounds(rules, n - 1);
        let o = evaluation_order(rules, n - 1);
        let r = rules[n - 1];
        if r.rule.enabled == 1 {
            let k = insertion_point(rules, o, r.rule.priority);
            lemma_insertion_point_bounds(rules, o, r.rule.priority);
            o.insert_ensures(k, (n - 1) as usize);
            let o2 = o.insert(k, (n - 1) as usize);
            assert forall|j: int| 0 <= j < o2.len() implies 0 <= (#[trigger] o2[j] as int) < n by {
                if j < k {
                } else if j == k {
                } else {
                    assert(o2[j] == o[j - 1]);
                }
            }
        }
    }
}

/// Positions of the enabled rules, ordered by priority (highest first, stable).
fn rule_order(rules: &Vec<DecodedRule>) -> (order: Vec<usize>)
    ensures
        order@ == evaluation_order(rules@, rules@.len() as int),
        forall|j: int| 0 <= j < order@.len() ==> (#[trigger] order@[j] as int) < rules@.len(),
{
    let mut order: Vec<usize> = Vec::new();
    let mut i: usize = 0;
    while i < rules.len()
        invariant
            i <= rules@.len(),
            order@ == evaluation_order(rules@, i as int),
        decreases rules@.len() - i,
    {
        proof {
            lemma_order_in_bounds(rules@, i as int);
        }
        if rules[i].rule.enabled == 1 {
            let k = find_insertion_point(rules, &order, rules[i].rule.priority);
            proof {
                lemma_insertion_point_bounds(rules@, order@, rules@[i as int].rule.priority);
            }
            order.insert(k, i);
        }
        i = i + 1;
    }
    proof {
        lemma_order_in_bounds(rules@, rules@.len() as int);
    }
    order
}

/// Whether one condition holds of an email.
pub fn condition_matches(email: &Email, condition: &RuleCondition) -> (r: bool)
    ensures
        r == condition_holds(*email, *condition),
{
    let field: &str = condition.field.as_str();
    let field_value: &str = if str_equal(field, "subject") {
        match &email.subject {
            Some(s) => s.as_str(),
            None => "",
        }
    } else if str_equal(field, "sender_email") {
        match &email.sender_email {
            Some(s) => s.as_str(),
            None => "",
        }
    } else if str_equal(field, "sender_name") {
        match &email.sender_name {
            Some(s) => s.as_str(),
            None => "",
        }
    } else if str_equal(field, "recipients") {
        match &email.recipients {
            Some(s) => s.as_str(),
            None => "",
        }
    } else {
        return false;
    };
    proof {
        reveal_strlit("");
    }
    assert(field_text(*email, condition.field@) == Some(field_value@));
    let op: &str = condition.operator.as_str();
    let value: &str = condition.value.as_str();
    if str_equal(op, "contains") {
        contains_chars(&lowered_chars(field_value), &lowered_chars(value))
    } else if str_equal(op, "equals") {
        eq_ignore_ascii_case(field_value, value)
    } else if str_equal(op, "starts_with") {
        starts_with_chars(&lowered_chars(field_value), &lowered_chars(value))
    } else if str_equal(op, "ends_with") {
        ends_with_chars(&lowered_chars(field_value), &lowered_chars(value))
    } else if str_equal(op, "not_contains") {
        !contains_chars(&lowered_chars(field_value), &lowered_chars(value))
    } else {
        false
    }
}

/// The characters of the lower-cased text.
fn lowered_chars(s: &str) -> (v: Vec<char>)
    ensures
        v@ == lowercase(s@),
{
    let l = to_lowercase(s);
    chars_of(l.as_str())
}

/// Whether every condition of a list holds of an email (an empty list always holds).
pub fn conditions_match(email: &Email, conditions: &Vec<RuleCondition>) -> (r: bool)
    ensures
        r == all_conditions_hold(*email, conditions@),
{
    let mut i: usize = 0;
    while i < conditions.len()
        invariant
            i <= conditions@.len(),
            forall|j: int| 0 <= j < i ==> condition_holds(*email, #[trigger] conditions@[j]),
        decreases conditions@.len() - i,
    {
        if !condition_matches(email, &conditions[i]) {
            return false;
        }
        i = i + 1;
    }
    true
}

/// The actions that the enabled rules whose conditions all hold give `email`: rules
/// are taken by priority, highest first, rules of equal priority in list order, and
/// each matching rule contributes its whole action list.
pub fn evaluate_rules(email: &Email, rules: &Vec<DecodedRule>) -> (matched: Vec<RuleAction>)
    ensures
        matched@ == rule_actions(*email, rules@),
{
    let order = rule_order(rules);
    let mut matched: Vec<RuleAction> = Vec::new();
    let mut i: usize = 0;
    while i < order.len()
        invariant
            i <= order@.len(),
            order@ == evaluation_order(rules@, rules@.len() as int),
            forall|j: int| 0 <= j < order@.len() ==> (#[trigger] order@[j] as int) < rules@.len(),
            matched@ == actions_of_matching(*email, rules@, order@.take(i as int)),
        decreases order@.len() - i,
    {
        let r = &rules[order[i]];
        assert(order@.take(i + 1).drop_last() =~= order@.take(i as int));
        if conditions_match(email, &r.conditions) {
            let ghost before = matched@;
            let mut k: usize = 0;
            while k < r.actions.len()
                invariant
                    k <= r.actions@.len(),
                    matched@ == before + r.actions@.take(k as int),
                decreases r.actions@.len() - k,
            {
                matched.push(r.actions[k].clone());
                k = k + 1;
                assert(matched@ =~= before + r.actions@.take(k as int));
            }
            assert(r.actions@.take(k as int) =~= r.actions@);
        } else {
            assert(matched@ =~= matched@ + Seq::<RuleAction>::empty());
        }
        i = i + 1;
    }
    assert(order@.take(i as int) =~= order@);
    matched
}

} // verus!

verus! {

proof fn lemma_insertion_point_splits(rules: Seq<DecodedRule>, order: Seq<usize>, p: i64)
    ensures
        0 <= insertion_point(rules, order, p) <= order.len(),
        forall|a: int| 0 <= a < insertion_point(rules, order, p) ==> rules[#[trigger] order[a] as int].rule.priority >= p,
        insertion_point(rules, order, p) < order.len() ==> rules[order[insertion_point(rules, order, p)] as int].rule.priority < p,
    decreases order.len(),
{
    if order.len() > 0 {
        let rest = order.drop_first();
        lemma_insertion_point_splits(rules, rest, p);
        if rules[order[0] as int].rule.priority >= p {
            assert forall|a: int| 0 <= a < insertion_point(rules, order, p) implies rules[#[trigger] order[a] as int].rule.priority >= p by {
                if a > 0 {
                    assert(order[a] == rest[a - 1]);
                }
            }
            if insertion_point(rules, order, p) < order.len() {
                assert(order[insertion_point(rules, order, p)] == rest[insertion_point(rules, rest, p)]);
            }
        }
    }
}

/// The evaluation order is the list of enabled rule positions, each once, sorted by
/// priority from highest to lowest, with rules of equal priority in list order.
#[verifier::rlimit(80)]
#[verifier::spinoff_prover]
proof fn lemma_evaluation_order(rules: Seq<DecodedRule>, n: int)
    requires
        0 <= n <= rules.len(),
        rules.len() <= usize::MAX,
    ensures
        forall|j: usize| #[trigger] evaluation_order(rules, n).contains(j) <==> (j < n && rules[j as int].rule.enabled == 1),
        evaluation_order(rules, n).no_duplicates(),
        forall|a: int, b: int|
            0 <= a < b < evaluation_order(rules, n).len() ==> rules[evaluation_order(rules, n)[a] as int].rule.priority
                >= rules[evaluation_order(rules, n)[b] as int].rule.priority,
        forall|a: int, b: int|
            0 <= a < b < evaluation_order(rules, n).len() && rules[evaluation_order(rules, n)[a] as int].rule.priority
                == rules[evaluation_order(rules, n)[b] as int].rule.priority ==> evaluation_order(rules, n)[a]
                < evaluation_order(rules, n)[b],
    decreases n,
{
    if n > 0 {
        lemma_evaluation_order(rules, n - 1);
        lemma_order_in_bounds(rules, n - 1);
        let o = evaluation_order(rules, n - 1);
        let r = rules[n - 1];
        if r.rule.enabled == 1 {
            let p = r.rule.priority;
            let k = insertion_point(rules, o, p);
            let x = (n - 1) as usize;
            assert(x as int == n - 1);
            lemma_insertion_point_splits(rules, o, p);
            o.insert_ensures(k, x);
            let o2 = o.insert(k, x);
            assert(o2 == evaluation_order(rules, n));
            // positions after the insertion point hold lower priorities
            assert forall|a: int| k <= a < o.len() implies rules[#[trigger] o[a] as int].rule.priority < p by {
                if a > k {
                    assert(rules[o[k] as int].rule.priority >= rules[o[a] as int].rule.priority);
                }
            }
            assert forall|a: int| 0 <= a < o2.len() implies (#[trigger] o2[a] == x) <==> a == k by {
                if a < k {
                    assert(o2[a] == o[a]);
                    assert((o[a] as int) < n - 1);
                } else if a > k {
                    assert(o2[a] == o[a - 1]);
                    assert((o[a - 1] as int) < n - 1);
                }
            }
            assert forall|j: usize| #[trigger] o2.contains(j) <==> (j < n && rules[j as int].rule.enabled == 1) by {
                if o2.contains(j) {
                    let a = choose|a: int| 0 <= a < o2.len() && o2[a] == j;
                    if a < k {
                        assert(o2[a] == o[a]);
                        assert(o.contains(j));
                    } else if a > k {
                        assert(o2[a] == o[a - 1]);
                        assert(o.contains(j));
                    } else {
                        assert(j == x);
                    }
                }
                if j < n && rules[j as int].rule.enabled == 1 {
                    if j == x {
                        assert(o2[k] == x);
                    } else {
                        assert(o.contains(j));
                        let a = choose|a: int| 0 <= a < o.len() && o[a] == j;
                        if a < k {
                            assert(o2[a] == j);
                        } else {
                            assert(o2[a + 1] == j);
                        }
                    }
                }
            }
            assert forall|a: int, b: int| 0 <= a < b < o2.len() implies o2[a] != o2[b] by {
                if b < k {
                } else if a < k && b == k {
                    assert(o.contains(o[a]));
                } else if a < k && b > k {
                    assert(o2[b] == o[b - 1]);
                } else if a == k {
                    assert(o2[b] == o[b - 1]);
                    assert(o.contains(o[b - 1]));
                } else {
                    assert(o2[a] == o[a - 1]);
                    assert(o2[b] == o[b - 1]);
                }
            }
            assert forall|a: int, b: int|
                0 <= a < b < o2.len() implies rules[o2[a] as int].rule.priority >= rules[o2[b] as int].rule.priority
                && (rules[o2[a] as int].rule.priority == rules[o2[b] as int].rule.priority ==> o2[a] < o2[b]) by {
                if b < k {
                } else if a < k && b == k {
                    assert(o.contains(o[a]));
                } else if a < k && b > k {
                    assert(o2[b] == o[b - 1]);
                } else if a == k {
                    assert(o2[b] == o[b - 1]);
                } else {
                    assert(o2[a] == o[a - 1]);
                    assert(o2[b] == o[b - 1]);
                }
            }
        }
    }
}

/// Disabled rules never contribute: a rule position enters the evaluation exactly when
/// the rule is enabled (`enabled == 1`), and then exactly once.
pub proof fn law_only_enabled_rules_are_evaluated(rules: Seq<DecodedRule>, j: usize)
    requires
        rules.len() <= usize::MAX,
    ensures
        evaluation_order(rules, rules.len() as int).contains(j) <==> (j < rules.len()
            && rules[j as int].rule.enabled == 1),
        evaluation_order(rules, rules.len() as int).no_duplicates(),
{
    lemma_evaluation_order(rules, rules.len() as int);
}

/// Rules are evaluated from the highest priority to the lowest; rules of equal
/// priority are evaluated in the order in which they are listed.
pub proof fn law_rules_evaluated_by_priority(rules: Seq<DecodedRule>, a: int, b: int)
    requires
        rules.len() <= usize::MAX,
        0 <= a < b < evaluation_order(rules, rules.len() as int).len(),
    ensures
        ({
            let o = evaluation_order(rules, rules.len() as int);
            &&& rules[o[a] as int].rule.priority >= rules[o[b] as int].rule.priority
            &&& rules[o[a] as int].rule.priority == rules[o[b] as int].rule.priority ==> o[a] < o[b]
        }),
{
    lemma_evaluation_order(rules, rules.len() as int);
}

/// `not_contains` holds exactly when `contains` does not, for every known field: two
/// conditions on the same field and value, one with each operator, never agree.
pub proof fn law_not_contains_is_negated_contains(email: Email, negated: RuleCondition, plain: RuleCondition)
    requires
        negated.field == plain.field,
        negated.value == plain.value,
        negated.operator@ == "not_contains"@,
        plain.operator@ == "contains"@,
        field_text(email, plain.field@) is Some,
    ensures
        condition_holds(email, negated) == !condition_holds(email, plain),
{
    reveal_strlit("not_contains");
    reveal_strlit("contains");
    reveal_strlit("equals");
    reveal_strlit("starts_with");
    reveal_strlit("ends_with");
    assert("not_contains"@.len() == 12);
    assert("contains"@.len() == 8);
    assert("equals"@.len() == 6);
    assert("starts_with"@.len() == 11);
    assert("ends_with"@.len() == 9);
}

/// A condition on a field the engine does not know never holds, whatever its operator.
pub proof fn law_unknown_field_never_matches(email: Email, c: RuleCondition)
    requires
        field_text(email, c.field@) is None,
    ensures
        !condition_holds(email, c),
{
}

/// A rule without conditions applies to every email.
pub proof fn law_rule_without_conditions_applies(email: Email, cs: Seq<RuleCondition>)
    requires
        cs.len() == 0,
    ensures
        all_conditions_hold(email, cs),
{
}


/// Prefix and suffix tests are anchored: for a known field, `starts_with` holds
/// exactly when the lower-cased value fills the first positions of the lower-cased
/// field text, and `ends_with` exactly when it fills the last ones. A value that
/// occurs only elsewhere in the text (after a `Re: ` prefix, say) does not match.
pub proof fn law_prefix_and_suffix_are_anchored(email: Email, c: RuleCondition)
    requires
        field_text(email, c.field@) is Some,
    ensures
        ({
            let f = lowercase(field_text(email, c.field@)->0);
            let v = lowercase(c.value@);
            &&& c.operator@ == "starts_with"@ ==> (condition_holds(email, c) <==> (v.len() <= f.len()
                && forall|i: int| 0 <= i < v.len() ==> #[trigger] f[i] == v[i]))
            &&& c.operator@ == "ends_with"@ ==> (condition_holds(email, c) <==> (v.len() <= f.len()
                && forall|i: int| 0 <= i < v.len() ==> #[trigger] f[f.len() - v.len() + i] == v[i]))
        }),
{
    reveal_strlit("not_contains");
    reveal_strlit("contains");
    reveal_strlit("equals");
    reveal_strlit("starts_with");
    reveal_strlit("ends_with");
    assert("not_contains"@.len() == 12);
    assert("contains"@.len() == 8);
    assert("equals"@.len() == 6);
    assert("starts_with"@.len() == 11);
    assert("ends_with"@.len() == 9);
    let f = lowercase(field_text(email, c.field@)->0);
    let v = lowercase(c.value@);
    if v.len() <= f.len() {
        let pre = f.subrange(0, v.len() as int);
        let suf = f.subrange(f.len() - v.len(), f.len() as int);
        if forall|i: int| 0 <= i < v.len() ==> #[trigger] f[i] == v[i] {
            assert(pre =~= v);
        }
        if pre == v {
            assert forall|i: int| 0 <= i < v.len() implies #[trigger] f[i] == v[i] by {
                assert(pre[i] == f[i]);
            }
        }
        if forall|i: int| 0 <= i < v.len() ==> #[trigger] f[f.len() - v.len() + i] == v[i] {
            assert forall|i: int| 0 <= i < v.len() implies suf[i] == v[i] by {
                assert(f[f.len() - v.len() + i] == v[i]);
            }
            assert(suf =~= v);
        }
        if suf == v {
            assert forall|i: int| 0 <= i < v.len() implies #[trigger] f[f.len() - v.len() + i] == v[i] by {
                assert(suf[i] == f[f.len() - v.len() + i]);
            }
        }
    }
}


/// The other operators: for a known field, `contains` holds exactly when the
/// lower-cased value occurs somewhere in the lower-cased field text, `not_contains`
/// exactly when it does not, `equals` exactly when both texts agree after ASCII case
/// folding, and any other operator never holds.
pub proof fn law_other_operators(email: Email, c: RuleCondition)
    requires
        field_text(email, c.field@) is Some,
    ensures
        ({
            let raw = field_text(email, c.field@)->0;
            let f = lowercase(raw);
            let v = lowercase(c.value@);
            let occurs = exists|k: int| 0 <= k && k + v.len() <= f.len() && #[trigger] f.subrange(k, k + v.len()) == v;
            &&& c.operator@ == "contains"@ ==> (condition_holds(email, c) <==> occurs)
            &&& c.operator@ == "not_contains"@ ==> (condition_holds(email, c) <==> !occurs)
            &&& c.operator@ == "equals"@ ==> (condition_holds(email, c) <==> ascii_lower(raw) == ascii_lower(c.value@))
            &&& !(c.operator@ == "contains"@ || c.operator@ == "not_contains"@ || c.operator@ == "equals"@
                || c.operator@ == "starts_with"@ || c.operator@ == "ends_with"@) ==> !condition_holds(email, c)
        }),
{
    reveal_strlit("not_contains");
    reveal_strlit("contains");
    reveal_strlit("equals");
    reveal_strlit("starts_with");
    reveal_strlit("ends_with");
    assert("not_contains"@.len() == 12);
    assert("contains"@.len() == 8);
    assert("equals"@.len() == 6);
    assert("starts_with"@.len() == 11);
    assert("ends_with"@.len() == 9);
    let f = lowercase(field_text(email, c.field@)->0);
    let v = lowercase(c.value@);
    if has_substring(f, v) {
        let k = choose|k: int| occurs_at(f, v, k);
        assert(f.subrange(k, k + v.len()) == v);
    }
    if exists|k: int| 0 <= k && k + v.len() <= f.len() && #[trigger] f.subrange(k, k + v.len()) == v {
        let k = choose|k: int| 0 <= k && k + v.len() <= f.len() && #[trigger] f.subrange(k, k + v.len()) == v;
        assert(occurs_at(f, v, k));
    }
}

} // verus!
