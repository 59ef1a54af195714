//! Step outcomes, and the classification of a trapped handler failure.
//!
//! A handler runs inside an isolation boundary owned by the driver; what
//! comes back is a `TrapOutcome`: either success, or the failure's message
//! and source location, together with whatever the handler wrote to the
//! console streams.  Classification of that value into a `TestResult` is
//! the core's job and is verified here.

use vstd::prelude::*;

verus! {

/// The message and originating source location of a trapped abrupt
/// failure.
pub struct PanicDetails {
    pub payload: String,
    pub location: String,
}

/// What the isolation boundary hands back after running one unit of work:
/// success or the failure's details, plus the bytes the work wrote to
/// stdout and stderr while the streams were redirected.
pub struct TrapOutcome {
    pub result: Result<(), PanicDetails>,
    pub stdout: Vec<u8>,
    pub stderr: Vec<u8>,
}

/// The reported outcome of one step.
pub enum TestResult {
    MutexPoisoned,
    Skipped,
    Unimplemented,
    Pass,
    Fail(PanicDetails, Vec<u8>, Vec<u8>),
}

/// The outcome of one step, without its payloads; what the skip cascade
/// and the success flag are decided by.
#[derive(Clone, Copy, PartialEq, Eq, Structural, Debug)]
pub enum OutcomeKind {
    MutexPoisoned,
    Skipped,
    Unimplemented,
    Pass,
    Fail,
}

pub open spec fn kind_of(r: TestResult) -> OutcomeKind {
    match r {
        TestResult::MutexPoisoned => OutcomeKind::MutexPoisoned,
        TestResult::Skipped => OutcomeKind::Skipped,
        TestResult::Unimplemented => OutcomeKind::Unimplemented,
        TestResult::Pass => OutcomeKind::Pass,
        TestResult::Fail(..) => OutcomeKind::Fail,
    }
}

/// The reserved message by which a handler asks for the rest of its
/// scenario to be skipped.
pub open spec fn skip_sentinel() -> Seq<char> {
    "cucumber test skipped"@
}

/// How a trapped result is reported: success is Pass; a failure whose
/// message equals the reserved skip sentinel is Skipped; any other failure
/// is Fail, carrying the failure's details and both captured console
/// buffers, byte for byte.
pub open spec fn classified(t: TrapOutcome, r: TestResult) -> bool {
    match t.result {
        Ok(_) => r == TestResult::Pass,
        Err(d) => if d.payload@ == skip_sentinel() {
            r == TestResult::Skipped
        } else {
            r == TestResult::Fail(d, t.stdout, t.stderr)
        },
    }
}

/// Turn what the isolation boundary returned into the reported outcome of
/// the step whose handler ran inside it.
pub fn classify_trap(t: TrapOutcome) -> (r: TestResult)
    ensures
        classified(t, r),
{
    match t.result {
        Ok(()) => TestResult::Pass,
        Err(d) => {
            let sentinel = String::from_str("cucumber test skipped");
            if d.payload.eq(&sentinel) {
                TestResult::Skipped
            } else {
                TestResult::Fail(d, t.stdout, t.stderr)
            }
        },
    }
}

} // verus!
