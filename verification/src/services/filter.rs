//! Sensitive-content rules: regular expressions that block a clip.

use vstd::prelude::*;

use crate::models::FilterRule;
use crate::text::chars_of;
use crate::text::eq_str;

verus! {

/// The result of checking content against the rules.
#[derive(Debug, Clone)]
pub struct FilterResult {
    pub blocked: bool,
    pub matched_rule: Option<String>,
}

/// What `regex::Regex::new(pattern)` and then `is_match(content)` give:
/// `None` where the pattern does not compile.
pub uninterp spec fn spec_regex_match(pattern: Seq<char>, content: Seq<char>) -> Option<bool>;

/// Compiles `pattern` with `regex::Regex::new` and tests `content` with
/// `Regex::is_match`; `None` where the pattern does not compile.  The result
/// is named, not stated.
#[verifier::external_body]
fn regex_match(pattern: &str, content: &str) -> (r: Option<bool>)
    ensures
        r == spec_regex_match(pattern@, content@),
{
    regex::Regex::new(pattern).ok().map(|re| re.is_match(content))
}

/// The first `regex` rule whose pattern compiles and matches decides: the
/// content is blocked when that rule's action is `block` or `ask`, and the
/// rule's pattern is reported.  Without such a rule nothing is blocked.
pub open spec fn spec_evaluate(content: Seq<char>, rules: Seq<FilterRule>) -> (bool, Option<Seq<char>>)
    decreases rules.len(),
{
    if rules.len() == 0 {
        (false, None)
    } else {
        let rule = rules[0];
        if rule.rule_type@ == "regex"@ && spec_regex_match(rule.pattern@, content) == Some(true) {
            (rule.action@ == "block"@ || rule.action@ == "ask"@, Some(rule.pattern@))
        } else {
            spec_evaluate(content, rules.drop_first())
        }
    }
}

pub open spec fn filter_result_is(r: FilterResult, spec: (bool, Option<Seq<char>>)) -> bool {
    &&& r.blocked == spec.0
    &&& match (r.matched_rule, spec.1) {
        (Some(a), Some(b)) => a@ == b,
        (None, None) => true,
        _ => false,
    }
}

/// Checks `content` against `rules` in order.
pub fn evaluate(content: &str, rules: &Vec<FilterRule>) -> (r: FilterResult)
    ensures
        filter_result_is(r, spec_evaluate(content@, rules@)),
{
    let mut i: usize = 0;
    assert(rules@.skip(0) =~= rules@);
    while i < rules.len()
        invariant
            i <= rules.len(),
            spec_evaluate(content@, rules@) == spec_evaluate(content@, rules@.skip(i as int)),
        decreases rules.len() - i,
    {
        let ghost rest = rules@.skip(i as int);
        assert(rest[0] == rules@[i as int]);
        assert(rest.drop_first() =~= rules@.skip(i + 1));
        let rule = &rules[i];
        if eq_str(&chars_of(rule.rule_type.as_str()), "regex") {
            match regex_match(rule.pattern.as_str(), content) {
                Some(true) => {
                    let action = chars_of(rule.action.as_str());
                    return FilterResult {
                        blocked: eq_str(&action, "block") || eq_str(&action, "ask"),
                        matched_rule: Some(rule.pattern.clone()),
                    };
                },
                _ => {},
            }
        }
        i += 1;
    }
    assert(rules@.skip(i as int) =~= seq![]);
    FilterResult { blocked: false, matched_rule: None }
}

/// Content is blocked only by a matching rule, and the result names it.
pub proof fn lemma_blocked_names_its_rule(content: Seq<char>, rules: Seq<FilterRule>)
    ensures
        spec_evaluate(content, rules).0 ==> spec_evaluate(content, rules).1 is Some,
        spec_evaluate(content, rules).1 matches Some(p) ==> exists|i: int|
            0 <= i < rules.len() && (#[trigger] rules[i]).pattern@ == p && rules[i].rule_type@
                == "regex"@ && spec_regex_match(p, content) == Some(true),
    decreases rules.len(),
{
    if rules.len() > 0 {
        lemma_blocked_names_its_rule(content, rules.drop_first());
        if spec_evaluate(content, rules.drop_first()).1 is Some && spec_evaluate(content, rules)
            == spec_evaluate(content, rules.drop_first()) {
            let p = spec_evaluate(content, rules.drop_first()).1->0;
            let i = choose|i: int|
                0 <= i < rules.drop_first().len() && (#[trigger] rules.drop_first()[i]).pattern@ == p
                    && rules.drop_first()[i].rule_type@ == "regex"@ && spec_regex_match(p, content)
                    == Some(true);
            assert(rules[i + 1] == rules.drop_first()[i]);
        }
    }
}

} // verus!
