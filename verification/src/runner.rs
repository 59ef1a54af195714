//! Run-level aggregation.  The orchestrator walks files, features, rules,
//! scenarios and example rows in order; every scenario result and every
//! parse failure is folded into one success flag, and nothing that
//! happens later can make a failed run succeed.

use vstd::prelude::*;

use crate::feature::Scenario;
use crate::pattern::CompiledPattern;
use crate::pattern::regex_found;
use crate::textops::seq_has_text;
use crate::textops::vec_contains_string;

verus! {

/// The one externally observed result of a run: its success flag.
pub struct RunSummary {
    pub success: bool,
}

impl RunSummary {
    pub fn new() -> (r: RunSummary)
        ensures
            r.success,
    {
        RunSummary { success: true }
    }

    /// A feature file that failed to parse marks the run failed; the run
    /// itself goes on with the next file.
    pub fn record_parse_error(&mut self)
        ensures
            !final(self).success,
    {
        self.success = false;
    }

    /// Fold one scenario execution's result in: the run succeeds only if
    /// everything recorded so far succeeded.  A failed run stays failed.
    pub fn record_scenario(&mut self, ok: bool)
        ensures
            final(self).success == (old(self).success && ok),
    {
        self.success = self.success && ok;
    }

    pub fn is_success(&self) -> (r: bool)
        ensures
            r == self.success,
    {
        self.success
    }
}

/// The overall result of an examples-driven scenario: the conjunction of
/// its per-row results.
pub fn and_all(results: &Vec<bool>) -> (r: bool)
    ensures
        r == (forall|i: int| 0 <= i < results@.len() ==> results@[i]),
{
    let mut i: usize = 0;
    while i < results.len()
        invariant
            i <= results@.len(),
            forall|j: int| 0 <= j < i ==> results@[j],
        decreases results.len() - i,
    {
        if !results[i] {
            return false;
        }
        i += 1;
    }
    true
}

/// Whether the orchestrator includes a scenario in the run.  A requested
/// tag excludes every scenario whose tag set does not hold it (a scenario
/// without a tag set is never excluded by tag); a requested name pattern
/// excludes every scenario whose name it does not match.  An excluded
/// scenario is simply omitted, not reported as skipped.
pub fn scenario_passes_filters(
    scenario: &Scenario,
    tag: Option<&String>,
    name_filter: Option<&CompiledPattern>,
) -> (r: bool)
    ensures
        r == ((match (scenario.tags, tag) {
            (Some(tags), Some(t)) => seq_has_text(tags@, t@),
            _ => true,
        }) && (match name_filter {
            Some(p) => regex_found(p.source_view(), scenario.name@),
            None => true,
        })),
{
    let tag_ok = match (&scenario.tags, tag) {
        (Some(tags), Some(t)) => vec_contains_string(tags, t),
        _ => true,
    };
    if !tag_ok {
        return false;
    }
    match name_filter {
        Some(p) => p.is_match(scenario.name.as_str()),
        None => true,
    }
}

} // verus!
