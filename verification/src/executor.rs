//! The scenario executor: one execution per scenario (or per example
//! row), stepping through the feature's background steps and the
//! scenario's own steps in order, with the skip cascade.
//!
//! Handlers are opaque values and may fail abruptly, so the executor does
//! not call them itself: polling hands the driver the resolved handler
//! and the step, the driver runs it inside its isolation boundary, and
//! `complete` takes the trapped result back.  Once a step has come out
//! Failed, Skipped or Unimplemented, polling reports every later step as
//! Skipped and never hands out a handler again.

use vstd::prelude::*;

use crate::feature::Feature;
use crate::feature::Scenario;
use crate::feature::Step;
use crate::feature::copy_step;
use crate::feature::step_views_equal;
use crate::interpolate::interpolate_outline_variables;
use crate::interpolate::step_interpolated;
use crate::outcome::OutcomeKind;
use crate::outcome::TestResult;
use crate::outcome::TrapOutcome;
use crate::outcome::classified;
use crate::outcome::classify_trap;
use crate::outcome::kind_of;
use crate::pattern::is_part_of;
use crate::pattern::regex_captures;
use crate::registry::Steps;
use crate::registry::TestCaseType;
use crate::registry::first_match;
use crate::registry::lookup;

verus! {

/// A scenario's mutable fixture: a user-defined, default-constructible
/// value, owned by one scenario execution and never shared across
/// scenarios.
pub trait World: Default {

}

/// What the driver must do next for one step.
pub enum StepAction<N, R> {
    /// Every step has been reported; the execution is over.
    Finished,
    /// The step was reported without running any handler: Skipped inside
    /// the cascade, or Unimplemented when nothing resolved.
    Reported(OutcomeKind),
    /// Run this exact handler on this step inside the isolation boundary,
    /// then call `complete` with what came back.
    Invoke(N, Step),
    /// As `Invoke`, for a pattern handler, with the captured strings of
    /// the match in group order.
    InvokeRegex(R, Vec<String>, Step),
}

/// One scenario execution (or one example row of one): the step sequence,
/// a cursor, the skip-cascade flag and the per-step outcomes so far.
pub struct ScenarioExecution {
    pub steps: Vec<Step>,
    pub cursor: usize,
    pub pending: bool,
    pub skipping: bool,
    pub success: bool,
    pub kinds: Vec<OutcomeKind>,
}

/// Pushing one more outcome changes what the list holds only by that
/// outcome.
proof fn lemma_push_contains(s: Seq<OutcomeKind>, x: OutcomeKind, y: OutcomeKind)
    requires
        x != y,
    ensures
        s.push(x).contains(y) == s.contains(y),
{
    if s.contains(y) {
        let i = choose|i: int| 0 <= i < s.len() && s[i] == y;
        assert(s.push(x)[i] == y);
    }
    if s.push(x).contains(y) {
        let i = choose|i: int| 0 <= i < s.push(x).len() && s.push(x)[i] == y;
        assert(0 <= i < s.len());
        assert(s[i] == y);
    }
}

impl ScenarioExecution {
    /// Well-formedness: the cursor is within the steps, one outcome has
    /// been recorded per passed step, an invocation can be outstanding
    /// only before a step that was neither finished nor skipped, and the
    /// success flag holds exactly when no step has failed.
    pub open spec fn wf(self) -> bool {
        &&& self.cursor <= self.steps@.len()
        &&& self.kinds@.len() == self.cursor
        &&& (self.pending ==> self.cursor < self.steps@.len() && !self.skipping)
        &&& (self.success <==> !self.kinds@.contains(OutcomeKind::Fail))
    }

    /// Begin an execution over an already-prepared step sequence.
    pub fn new(steps: Vec<Step>) -> (r: ScenarioExecution)
        ensures
            r.wf(),
            r.steps == steps,
            r.cursor == 0,
            !r.pending,
            !r.skipping,
            r.success,
            r.kinds@ == Seq::<OutcomeKind>::empty(),
    {
        let r = ScenarioExecution {
            steps,
            cursor: 0,
            pending: false,
            skipping: false,
            success: true,
            kinds: Vec::new(),
        };
        proof {
            assert(!r.kinds@.contains(OutcomeKind::Fail));
        }
        r
    }

    /// Report or hand out the next step.  While the skip cascade is on,
    /// every remaining step is reported Skipped and no handler is ever
    /// resolved or handed out (the cascade law).  Otherwise the step is
    /// resolved: an exact entry's handler wins over every pattern; the
    /// first matching pattern, in insertion order, is handed out with its
    /// captured strings, group 0 being the overall match; a step that
    /// resolves to nothing is reported Unimplemented and starts the
    /// cascade without marking the execution failed.
    pub fn poll<N: Copy, R: Copy>(&mut self, registry: &Steps<N, R>) -> (a: StepAction<N, R>)
        requires
            old(self).wf(),
            !old(self).pending,
        ensures
            final(self).wf(),
            final(self).steps == old(self).steps,
            final(self).success == old(self).success,
            old(self).cursor == old(self).steps@.len() ==> a is Finished && *final(self) == *old(
                self,
            ),
            old(self).cursor < old(self).steps@.len() && old(self).skipping ==> ({
                &&& a == StepAction::<N, R>::Reported(OutcomeKind::Skipped)
                &&& final(self).kinds@ == old(self).kinds@.push(OutcomeKind::Skipped)
                &&& final(self).cursor == old(self).cursor + 1
                &&& final(self).skipping
                &&& !final(self).pending
            }),
            old(self).cursor < old(self).steps@.len() && !old(self).skipping ==> ({
                let step = old(self).steps@[old(self).cursor as int];
                let exact = registry.exact_bag(step.ty);
                let pats = registry.pattern_bag(step.ty);
                match lookup(exact, step.value@) {
                    Some(h) => {
                        &&& a matches StepAction::Invoke(h2, s) && h2 == h && step_views_equal(
                            s,
                            step,
                        )
                        &&& final(self).pending
                        &&& final(self).cursor == old(self).cursor
                        &&& final(self).kinds == old(self).kinds
                        &&& !final(self).skipping
                    },
                    None => match first_match(pats, step.value@) {
                        Some(p) => {
                            &&& a matches StepAction::InvokeRegex(h, caps, s)
                            &&& h == p.1
                            &&& caps.deep_view() == regex_captures(p.0, step.value@)
                            &&& caps@.len() >= 1
                            &&& is_part_of(caps@[0]@, step.value@)
                            &&& step_views_equal(s, step)
                            &&& final(self).pending
                            &&& final(self).cursor == old(self).cursor
                            &&& final(self).kinds == old(self).kinds
                            &&& !final(self).skipping
                        },
                        None => {
                            &&& a == StepAction::<N, R>::Reported(OutcomeKind::Unimplemented)
                            &&& final(self).kinds@ == old(self).kinds@.push(
                                OutcomeKind::Unimplemented,
                            )
                            &&& final(self).cursor == old(self).cursor + 1
                            &&& final(self).skipping
                            &&& !final(self).pending
                        },
                    },
                }
            }),
    {
        if self.cursor == self.steps.len() {
            return StepAction::Finished;
        }
        if self.skipping {
            self.kinds.push(OutcomeKind::Skipped);
            self.cursor += 1;
            proof {
                lemma_push_contains(
                    old(self).kinds@,
                    OutcomeKind::Skipped,
                    OutcomeKind::Fail,
                );
            }
            return StepAction::Reported(OutcomeKind::Skipped);
        }
        let resolved = registry.test_type(&self.steps[self.cursor]);
        match resolved {
            Some(TestCaseType::Normal(h)) => {
                self.pending = true;
                let s = copy_step(&self.steps[self.cursor]);
                StepAction::Invoke(h, s)
            },
            Some(TestCaseType::Regex(h, caps)) => {
                self.pending = true;
                let s = copy_step(&self.steps[self.cursor]);
                StepAction::InvokeRegex(h, caps, s)
            },
            None => {
                self.kinds.push(OutcomeKind::Unimplemented);
                self.cursor += 1;
                self.skipping = true;
                proof {
                    lemma_push_contains(
                        old(self).kinds@,
                        OutcomeKind::Unimplemented,
                        OutcomeKind::Fail,
                    );
                }
                StepAction::Reported(OutcomeKind::Unimplemented)
            },
        }
    }

    /// Take back what the isolation boundary returned for the handed-out
    /// handler and record the step's outcome: success is Pass; a failure
    /// carrying the reserved skip message is Skipped and starts the
    /// cascade; any other failure is Fail, keeps the failure's details
    /// and both console buffers, starts the cascade, and marks the
    /// execution failed.
    pub fn complete(&mut self, trap: TrapOutcome) -> (r: TestResult)
        requires
            old(self).wf(),
            old(self).pending,
        ensures
            final(self).wf(),
            classified(trap, r),
            final(self).steps == old(self).steps,
            final(self).cursor == old(self).cursor + 1,
            !final(self).pending,
            final(self).kinds@ == old(self).kinds@.push(kind_of(r)),
            final(self).skipping == !(r is Pass),
            final(self).success == (old(self).success && !(r is Fail)),
    {
        proof {
            broadcast use vstd::std_specs::vec::axiom_spec_len;

            assert(self.steps.len() == self.steps@.len());
        }
        let r = classify_trap(trap);
        let failed = matches!(r, TestResult::Fail(..));
        let passed = matches!(r, TestResult::Pass);
        let k = match &r {
            TestResult::MutexPoisoned => OutcomeKind::MutexPoisoned,
            TestResult::Skipped => OutcomeKind::Skipped,
            TestResult::Unimplemented => OutcomeKind::Unimplemented,
            TestResult::Pass => OutcomeKind::Pass,
            TestResult::Fail(..) => OutcomeKind::Fail,
        };
        self.kinds.push(k);
        self.cursor += 1;
        self.pending = false;
        if failed {
            self.success = false;
            proof {
                assert(self.kinds@[self.kinds@.len() - 1] == OutcomeKind::Fail);
                assert(self.kinds@.contains(OutcomeKind::Fail));
            }
        } else {
            proof {
                lemma_push_contains(old(self).kinds@, k, OutcomeKind::Fail);
            }
        }
        if !passed {
            self.skipping = true;
        }
        r
    }
}

/// The step sequence of one scenario: the feature's background steps, in
/// order, then the scenario's own steps.
pub open spec fn combined_steps(feature: Feature, scenario: Scenario) -> Seq<Step> {
    (match feature.background {
        Some(bg) => bg@,
        None => Seq::<Step>::empty(),
    }) + scenario.steps@
}

/// Build the steps one execution of `scenario` inside `feature` runs:
/// background steps first, then the scenario's own, each passed through
/// the interpolator when an example row drives the execution.
pub fn steps_for_scenario(feature: &Feature, scenario: &Scenario, example: Option<&Vec<String>>)
    -> (r: Vec<Step>)
    requires
        example matches Some(row) ==> scenario.examples matches Some(ex) && ex.header@.len()
            == row@.len(),
    ensures
        r@.len() == combined_steps(*feature, *scenario).len(),
        example is None ==> forall|i: int|
            0 <= i < r@.len() ==> step_views_equal(
                #[trigger] r@[i],
                combined_steps(*feature, *scenario)[i],
            ),
        example matches Some(row) ==> scenario.examples matches Some(ex) && (forall|i: int|
            0 <= i < r@.len() ==> step_interpolated(
                combined_steps(*feature, *scenario)[i],
                #[trigger] r@[i],
                ex.header.deep_view(),
                row.deep_view(),
            )),
{
    let ghost all = combined_steps(*feature, *scenario);
    let pairs: Option<(&Vec<String>, &Vec<String>)> = match (example, &scenario.examples) {
        (Some(row), Some(ex)) => Some((&ex.header, row)),
        (Some(_), None) => None,
        (None, _) => None,
    };
    let mut out: Vec<Step> = Vec::new();
    match &feature.background {
        Some(bg) => {
            let mut i: usize = 0;
            while i < bg.len()
                invariant
                    i <= bg@.len(),
                    all == combined_steps(*feature, *scenario),
                    feature.background matches Some(b) && b == bg,
                    out@.len() == i,
                    example is None ==> pairs is None,
                    example matches Some(row) ==> (scenario.examples matches Some(ex)
                        && pairs matches Some(p) && p.0 == &ex.header && p.1 == row
                        && p.0@.len() == p.1@.len()),
                    forall|ii: int| 0 <= ii < i ==> carried(all[ii], #[trigger] out@[ii], pairs),
                decreases bg@.len() - i,
            {
                proof {
                    assert(all[i as int] == bg@[i as int]);
                }
                out.push(carry_step(&bg[i], pairs));
                i += 1;
            }
        },
        None => {},
    }
    let ghost base = out@.len() as int;
    let mut j: usize = 0;
    while j < scenario.steps.len()
        invariant
            j <= scenario.steps@.len(),
            all == combined_steps(*feature, *scenario),
            out@.len() == base + j,
            base + scenario.steps@.len() == all.len(),
            example is None ==> pairs is None,
            example matches Some(row) ==> (scenario.examples matches Some(ex)
                && pairs matches Some(p) && p.0 == &ex.header && p.1 == row
                && p.0@.len() == p.1@.len()),
            forall|ii: int| 0 <= ii < base ==> all[ii] == combined_steps(
                *feature,
                *scenario,
            )[ii] && carried(all[ii], #[trigger] out@[ii], pairs),
            forall|ii: int|
                base <= ii < out@.len() ==> carried(all[ii], #[trigger] out@[ii], pairs),
        decreases scenario.steps@.len() - j,
    {
        proof {
            assert(all[base + j] == scenario.steps@[j as int]);
        }
        out.push(carry_step(&scenario.steps[j], pairs));
        j += 1;
    }
    proof {
        assert(out@.len() == all.len());
    }
    out
}

/// How one prepared step relates to the original: textually equal when no
/// example row drives the run, interpolated against the row otherwise.
pub open spec fn carried(orig: Step, r: Step, pairs: Option<(&Vec<String>, &Vec<String>)>) -> bool {
    match pairs {
        None => step_views_equal(r, orig),
        Some(p) => step_interpolated(orig, r, p.0.deep_view(), p.1.deep_view()),
    }
}

fn carry_step(s: &Step, pairs: Option<(&Vec<String>, &Vec<String>)>) -> (r: Step)
    requires
        pairs matches Some(p) ==> p.0@.len() == p.1@.len(),
    ensures
        carried(*s, r, pairs),
{
    match pairs {
        None => copy_step(s),
        Some((header, row)) => interpolate_outline_variables(s, header, row),
    }
}

/// How many independent executions a scenario takes: one per example row
/// when it carries an examples table, one otherwise.  Each execution gets
/// a freshly constructed fixture of its own.
pub fn run_count(scenario: &Scenario) -> (r: usize)
    ensures
        scenario.examples matches Some(ex) ==> r == ex.rows@.len(),
        scenario.examples is None ==> r == 1,
{
    match &scenario.examples {
        Some(ex) => ex.rows.len(),
        None => 1,
    }
}

} // verus!
