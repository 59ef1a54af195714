//! The hook tag-rule evaluator.  A rule string is split on spaces; the
//! tokens "and" and "or" are ignored (the evaluator implements no real
//! boolean composition); the rule applies only if every remaining token
//! is among the scenario's tags.  A scenario without a tag set always
//! applies.

use vstd::prelude::*;

use crate::feature::Scenario;
use crate::textops::seq_has_text;
use crate::textops::split_on;
use crate::textops::split_spaces;
use crate::textops::vec_contains_string;

verus! {

/// Whether one rule token is satisfied: it is one of the ignored
/// connective words, or it is among the tags.
pub open spec fn rule_token_ok(tags: Seq<String>, tok: Seq<char>) -> bool {
    tok == "and"@ || tok == "or"@ || seq_has_text(tags, tok)
}

/// Decide whether a before/after hook gated by `rule` fires for
/// `scenario`.
pub fn tag_rule_applies(scenario: &Scenario, rule: &str) -> (r: bool)
    ensures
        scenario.tags is None ==> r == true,
        scenario.tags matches Some(tags) ==> r == (forall|k: int|
            0 <= k < split_on(rule@, ' ').len() ==> rule_token_ok(
                tags@,
                #[trigger] split_on(rule@, ' ')[k],
            )),
{
    match &scenario.tags {
        None => true,
        Some(tags) => {
            let toks = split_spaces(rule);
            let and_word = String::from_str("and");
            let or_word = String::from_str("or");
            let mut k: usize = 0;
            while k < toks.len()
                invariant
                    scenario.tags matches Some(stags) && stags == *tags,
                    k <= toks@.len(),
                    toks.deep_view() == split_on(rule@, ' '),
                    and_word@ == "and"@,
                    or_word@ == "or"@,
                    forall|j: int|
                        0 <= j < k ==> rule_token_ok(tags@, #[trigger] split_on(rule@, ' ')[j]),
                decreases toks.len() - k,
            {
                let tok = &toks[k];
                proof {
                    assert(toks.deep_view()[k as int] == toks@[k as int]@);
                }
                if !tok.eq(&and_word) && !tok.eq(&or_word) {
                    if !vec_contains_string(tags, tok) {
                        proof {
                            assert(split_on(rule@, ' ')[k as int] == toks@[k as int]@);
                            assert(!rule_token_ok(tags@, split_on(rule@, ' ')[k as int]));
                        }
                        return false;
                    }
                }
                k += 1;
            }
            true
        },
    }
}

} // verus!
