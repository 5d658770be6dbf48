//! The command loop: after each run of a command, whether to stop, to give up,
//! or to wait for the next period.

use vstd::prelude::*;

verus! {

/// Failures in a row after which a periodic run gives up.
pub const MAX_CONSECUTIVE_ERRORS: u32 = 3;

/// What the command loop does after a run of its command.
#[derive(Debug, PartialEq, Eq, Structural)]
pub enum RoundDecision {
    /// Done: the command ran once and succeeded.
    Finish,
    /// Sleep `sleep_secs` seconds, then run the command again.
    Again { consecutive_errors: u32, sleep_secs: u64 },
    /// Give up with the error of this run, after `consecutive_errors` failures in a row.
    Abort { consecutive_errors: u32 },
}

/// The decision after a run: `failure` is `None` on success and `Some(fatal)`
/// on failure; `period` is 0 for a single run.
pub open spec fn round(consecutive_errors: u32, failure: Option<bool>, period: u64) -> RoundDecision {
    let n: u32 = if failure is None { 0 } else { (consecutive_errors + 1) as u32 };
    match failure {
        Some(fatal) if fatal || period == 0 || n >= MAX_CONSECUTIVE_ERRORS => RoundDecision::Abort {
            consecutive_errors: n,
        },
        _ => if period == 0 {
            RoundDecision::Finish
        } else {
            RoundDecision::Again { consecutive_errors: n, sleep_secs: period }
        },
    }
}

/// Decides what follows a run of the command. A success resets the failure
/// count; a failure stops the loop if it is fatal, if the command runs once,
/// or if it is the third (or a later one) in a row.
pub fn next_round(consecutive_errors: u32, failure: Option<bool>, period: u64) -> (d: RoundDecision)
    requires
        consecutive_errors < u32::MAX,
    ensures
        d == round(consecutive_errors, failure, period),
        d matches RoundDecision::Again { consecutive_errors: n, .. } ==> n < MAX_CONSECUTIVE_ERRORS,
{
    let n: u32 = match failure {
        None => 0,
        Some(_) => consecutive_errors + 1,
    };
    match failure {
        Some(fatal) => {
            if fatal || period == 0 || n >= MAX_CONSECUTIVE_ERRORS {
                return RoundDecision::Abort { consecutive_errors: n };
            }
        },
        None => {},
    }
    if period == 0 {
        RoundDecision::Finish
    } else {
        RoundDecision::Again { consecutive_errors: n, sleep_secs: period }
    }
}

/// A single run (period 0) never runs the command a second time.
pub proof fn lemma_single_run_runs_once(consecutive_errors: u32, failure: Option<bool>)
    ensures
        !(round(consecutive_errors, failure, 0) is Again),
{
}

/// A periodic run that fails three times in a row, without a fatal error,
/// gives up on the third failure, whatever came before.
pub proof fn lemma_three_failures_abort(start: u32, period: u64)
    requires
        start < MAX_CONSECUTIVE_ERRORS,
        period > 0,
    ensures
        ({
            let d1 = round(start, Some(false), period);
            d1 is Abort || {
                let n1 = d1->Again_consecutive_errors;
                let d2 = round(n1, Some(false), period);
                d2 is Abort || round(d2->Again_consecutive_errors, Some(false), period) is Abort
            }
        }),
{
}

/// A success always clears the count of failures in a row.
pub proof fn lemma_success_resets(consecutive_errors: u32, period: u64)
    requires
        period > 0,
    ensures
        round(consecutive_errors, None, period) == (RoundDecision::Again { consecutive_errors: 0, sleep_secs: period }),
{
}

/// How many runs at the end of `outcomes` failed in a row (a success is `None`).
pub open spec fn trailing_failures(outcomes: Seq<Option<bool>>) -> nat
    decreases outcomes.len(),
{
    if outcomes.len() == 0 || outcomes.last() is None {
        0
    } else {
        trailing_failures(outcomes.drop_last()) + 1
    }
}

/// Where the command loop stands after the command ran with each of `outcomes`
/// in turn, starting with no failures: `Again` while it goes on (and before the
/// first run), and, once a decision has stopped it, that decision: the outcomes
/// after it are never run.
pub open spec fn loop_state(outcomes: Seq<Option<bool>>, period: u64) -> RoundDecision
    decreases outcomes.len(),
{
    if outcomes.len() == 0 {
        RoundDecision::Again { consecutive_errors: 0, sleep_secs: period }
    } else {
        match loop_state(outcomes.drop_last(), period) {
            RoundDecision::Again { consecutive_errors, .. } => round(consecutive_errors, outcomes.last(), period),
            stopped => stopped,
        }
    }
}

/// While the loop goes on, its count is the number of failures in a row so far
/// and stays below the limit; past the first run it goes on only when periodic.
proof fn lemma_loop_state_count(outcomes: Seq<Option<bool>>, period: u64)
    ensures
        loop_state(outcomes, period) matches RoundDecision::Again { consecutive_errors: n, sleep_secs: t }
            ==> n == trailing_failures(outcomes) && n < MAX_CONSECUTIVE_ERRORS && t == period
            && (outcomes.len() > 0 ==> period > 0),
    decreases outcomes.len(),
{
    if outcomes.len() > 0 {
        lemma_loop_state_count(outcomes.drop_last(), period);
    }
}

/// The command loop over all its runs. While it goes on, its count is the number
/// of failures in a row so far, below three. A single run (period 0) runs the
/// command once, finishes exactly when that run succeeds and otherwise gives up
/// with its error. A periodic run never finishes: it gives up exactly at the
/// first failure that is fatal or is the third in a row, a success clearing the
/// count.
pub proof fn lemma_run_loop(outcomes: Seq<Option<bool>>, period: u64)
    requires
        outcomes.len() > 0,
        loop_state(outcomes.drop_last(), period) is Again,
    ensures
        period == 0 ==> outcomes.len() == 1,
        period == 0 ==> loop_state(outcomes, period) == (if outcomes[0] is None {
            RoundDecision::Finish
        } else {
            RoundDecision::Abort { consecutive_errors: 1 }
        }),
        period > 0 ==> !(loop_state(outcomes, period) is Finish),
        period > 0 ==> (loop_state(outcomes, period) is Abort <==> (outcomes.last() == Some(true)
            || (outcomes.last() is Some && trailing_failures(outcomes) >= MAX_CONSECUTIVE_ERRORS))),
        loop_state(outcomes, period) matches RoundDecision::Again { consecutive_errors: n, sleep_secs: t }
            ==> n == trailing_failures(outcomes) && n < MAX_CONSECUTIVE_ERRORS && t == period,
        loop_state(outcomes, period) matches RoundDecision::Abort { consecutive_errors: n } ==> n
            == trailing_failures(outcomes),
{
    lemma_loop_state_count(outcomes.drop_last(), period);
    lemma_loop_state_count(outcomes, period);
}

} // verus!
