//! Copying to a clipboard that other programs lock now and then.

use vstd::prelude::*;
use vstd::string::*;

verus! {

/// How many times a copy is tried.
pub const MAX_ATTEMPTS: u32 = 6;

/// The pause after the first attempt, in milliseconds. Each further one is twice
/// as long as the one before.
pub const BASE_DELAY_MS: u64 = 8;

/// What to do after an attempt.
#[derive(Debug)]
pub enum CopyStep {
    /// The image is on the clipboard, after this many attempts.
    Copied(u32),
    /// Try again after this many milliseconds.
    Retry(u64),
    /// Give up, for this reason.
    Failed(String),
}

/// What a [`CopyStep`] holds.
pub enum CopyStepView {
    Copied(u32),
    Retry(u64),
    Failed(Seq<char>),
}

impl View for CopyStep {
    type V = CopyStepView;

    open spec fn view(&self) -> CopyStepView {
        match self {
            CopyStep::Copied(n) => CopyStepView::Copied(*n),
            CopyStep::Retry(ms) => CopyStepView::Retry(*ms),
            CopyStep::Failed(why) => CopyStepView::Failed(why@),
        }
    }
}

/// The pause after an attempt.
pub open spec fn delay_after(attempt: u32) -> int {
    BASE_DELAY_MS * vstd::arithmetic::power2::pow2((attempt - 1) as nat)
}

/// What to do after an attempt, counted from one.
pub open spec fn step_after(attempt: u32, outcome: Result<(), String>) -> CopyStepView {
    match outcome {
        Ok(_) => CopyStepView::Copied(attempt),
        Err(why) => if attempt < MAX_ATTEMPTS {
            CopyStepView::Retry(delay_after(attempt) as u64)
        } else {
            CopyStepView::Failed("clipboard unavailable after 6 attempts: "@ + why@)
        },
    }
}

/// Decides what to do after an attempt, counted from one.
pub fn after_attempt(attempt: u32, outcome: Result<(), String>) -> (r: CopyStep)
    requires
        1 <= attempt <= MAX_ATTEMPTS,
    ensures
        r@ == step_after(attempt, outcome),
        outcome is Ok ==> r == CopyStep::Copied(attempt),
        outcome is Err && attempt < 6 ==> r is Retry,
        outcome is Err && attempt == 6 ==> r is Failed && r->Failed_0@
            == "clipboard unavailable after 6 attempts: "@ + outcome->Err_0@,
        outcome is Err && attempt == 1 ==> r == CopyStep::Retry(8),
        outcome is Err && attempt == 2 ==> r == CopyStep::Retry(16),
        outcome is Err && attempt == 3 ==> r == CopyStep::Retry(32),
        outcome is Err && attempt == 4 ==> r == CopyStep::Retry(64),
        outcome is Err && attempt == 5 ==> r == CopyStep::Retry(128),
{
    match outcome {
        Ok(_) => CopyStep::Copied(attempt),
        Err(why) => {
            if attempt < MAX_ATTEMPTS {
                let mut delay: u64 = BASE_DELAY_MS;
                let mut i: u32 = 1;
                proof {
                    vstd::arithmetic::power2::lemma2_to64();
                }
                while i < attempt
                    invariant
                        1 <= i <= attempt < MAX_ATTEMPTS,
                        delay == delay_after(i),
                        delay <= BASE_DELAY_MS * 16,
                        i == 1 ==> delay == BASE_DELAY_MS,
                        i == 2 ==> delay == BASE_DELAY_MS * 2,
                        i == 3 ==> delay == BASE_DELAY_MS * 4,
                        i == 4 ==> delay == BASE_DELAY_MS * 8,
                    decreases attempt - i,
                {
                    proof {
                        vstd::arithmetic::power2::lemma2_to64();
                    }
                    delay = delay * 2;
                    i += 1;
                }
                CopyStep::Retry(delay)
            } else {
                let mut message: String = "clipboard unavailable after 6 attempts: ".to_owned();
                message.append(why.as_str());
                CopyStep::Failed(message)
            }
        },
    }
}

// ---------------------------------------------------------------------------
// Laws
// ---------------------------------------------------------------------------

/// What a whole copy comes to, given what each attempt comes to.
pub open spec fn copy_result(outcomes: spec_fn(u32) -> Result<(), String>, attempt: u32) ->
    CopyStepView
    decreases MAX_ATTEMPTS - attempt,
{
    let step = step_after(attempt, outcomes(attempt));
    if step is Retry && attempt < MAX_ATTEMPTS {
        copy_result(outcomes, (attempt + 1) as u32)
    } else {
        step
    }
}

/// A copy succeeds if and only if one of the attempts does, at the first that
/// does. It fails with the reason of the last.
pub proof fn a_copy_fails_only_if_every_attempt_does(
    outcomes: spec_fn(u32) -> Result<(), String>,
    attempt: u32,
)
    requires
        1 <= attempt <= MAX_ATTEMPTS,
    ensures
        match copy_result(outcomes, attempt) {
            CopyStepView::Copied(n) => {
                &&& attempt <= n <= MAX_ATTEMPTS
                &&& outcomes(n) is Ok
                &&& forall|k: u32| attempt <= k < n ==> #[trigger] outcomes(k) is Err
            },
            CopyStepView::Retry(_) => false,
            CopyStepView::Failed(why) => {
                &&& forall|k: u32| attempt <= k <= MAX_ATTEMPTS ==> #[trigger] outcomes(k) is Err
                &&& outcomes(MAX_ATTEMPTS) matches Err(last)
                &&& why == "clipboard unavailable after 6 attempts: "@ + last@
            },
        },
    decreases MAX_ATTEMPTS - attempt,
{
    if outcomes(attempt) is Err && attempt < MAX_ATTEMPTS {
        a_copy_fails_only_if_every_attempt_does(outcomes, (attempt + 1) as u32);
    }
}

/// The pauses of a copy that fails are 8, 16, 32, 64 and 128 milliseconds: about
/// a quarter of a second in all.
pub proof fn pauses_stay_short()
    ensures
        delay_after(1) == 8,
        delay_after(2) == 16,
        delay_after(3) == 32,
        delay_after(4) == 64,
        delay_after(5) == 128,
{
    vstd::arithmetic::power2::lemma2_to64();
}

/// What follows an attempt: the number of attempts where it succeeded, else a pause,
/// and after six attempts the reason of the last. Each pause is twice the one before.
pub proof fn six_attempts_are_made(attempt: u32, outcome: Result<(), String>)
    requires
        1 <= attempt,
    ensures
        outcome is Ok ==> step_after(attempt, outcome) == CopyStepView::Copied(attempt),
        outcome is Err && attempt < 6 ==> step_after(attempt, outcome) is Retry && step_after(
            attempt,
            outcome,
        )->Retry_0 == delay_after(attempt),
        outcome is Err && attempt >= 6 ==> step_after(attempt, outcome) is Failed && step_after(
            attempt,
            outcome,
        )->Failed_0 == "clipboard unavailable after 6 attempts: "@ + outcome->Err_0@,
        delay_after(1) == 8,
        attempt < u32::MAX ==> delay_after((attempt + 1) as u32) == 2 * delay_after(attempt),
{
    vstd::arithmetic::power2::lemma2_to64();
    vstd::arithmetic::power2::lemma_pow2_unfold(attempt as nat);
}

/// What is shown of a step is what it holds.
pub proof fn steps_are_shown_as_they_are(step: CopyStep)
    ensures
        step is Copied ==> step@ == CopyStepView::Copied(step->Copied_0),
        step is Retry ==> step@ == CopyStepView::Retry(step->Retry_0),
        step is Failed ==> step@ == CopyStepView::Failed(step->Failed_0@),
{
}

} // verus!
