//! The probing state machine: one attempt per fee series and selector, driven
//! to a terminal outcome, and the run over all selectors and series.

use crate::builder::{build, built_spec_ok, FeeProfile, TransactionSpec, SELECTOR_COUNT};
use crate::codec::Address;
use vstd::prelude::*;

verus! {

/// The terminal outcome of one probing attempt.
#[derive(Clone, Debug, PartialEq, Eq)]
pub enum Outcome {
    /// Mined with a status flag of one.
    Success,
    /// Mined with any other status flag.
    Failed,
    /// Mined, but the receipt carries no status flag.
    Unknown,
    /// Submitted and not yet mined when the wait ended.
    Pending,
    /// The wait for confirmation itself failed, with its message.
    AwaitError(String),
    /// The node or transport rejected the submission, with its message.
    SubmitError(String),
    /// The builder refused the selector.
    Unsupported,
}

/// What the node reported of a mined transaction.
#[derive(Clone, Copy, Debug, PartialEq, Eq)]
pub struct ReceiptInfo {
    /// Execution status flag, one for success, when the node reports one.
    pub status: Option<u64>,
    /// Block that included the transaction, when known.
    pub block_number: Option<u64>,
}

/// Opaque handle to an in-flight transaction: its hash bytes.
#[derive(Debug)]
pub struct SubmissionHandle {
    pub hash: Vec<u8>,
}

/// What the submission client returned for one transaction.
#[derive(Debug)]
pub enum SubmitOutcome {
    /// Signed and entered into the node's pending pool, with a handle.
    Accepted(SubmissionHandle),
    /// Rejected, with the underlying message.
    Rejected(String),
}

/// What the confirmation wait returned for one submitted transaction.
#[derive(Debug)]
pub enum AwaitOutcome {
    /// A receipt: the transaction was mined.
    Mined(ReceiptInfo),
    /// No receipt yet: still pending when the wait ended.
    NoReceipt,
    /// The wait itself failed, with the underlying message.
    Failed(String),
}

/// The per-attempt state machine; `Resolved` is terminal.
#[derive(Debug)]
pub enum AttemptState {
    NotAttempted,
    Built(TransactionSpec),
    Submitted(SubmissionHandle),
    Resolved(Outcome),
}

/// How the client and tracker collaborators behave for one attempt.
#[derive(Debug)]
pub enum AttemptBehavior {
    /// Submission is rejected with this message.
    RejectSubmission(String),
    /// Submission is accepted under this handle, and the wait then returns
    /// this outcome.
    AcceptSubmission(SubmissionHandle, AwaitOutcome),
}

/// The outcome a mined receipt classifies to.
pub open spec fn receipt_outcome(r: ReceiptInfo) -> Outcome {
    match r.status {
        Some(st) => if st == 1 {
            Outcome::Success
        } else {
            Outcome::Failed
        },
        None => Outcome::Unknown,
    }
}

/// The outcome a confirmation wait resolves to.
pub open spec fn await_outcome_of(w: AwaitOutcome) -> Outcome {
    match w {
        AwaitOutcome::Mined(r) => receipt_outcome(r),
        AwaitOutcome::NoReceipt => Outcome::Pending,
        AwaitOutcome::Failed(m) => Outcome::AwaitError(m),
    }
}

/// The terminal outcome of an attempt at `selector` when the collaborators
/// behave as `b`; the builder's verdict short-circuits every selector outside
/// the supported three.
pub open spec fn attempt_outcome(selector: u8, b: AttemptBehavior) -> Outcome {
    if selector >= 3 {
        Outcome::Unsupported
    } else {
        match b {
            AttemptBehavior::RejectSubmission(m) => Outcome::SubmitError(m),
            AttemptBehavior::AcceptSubmission(_, w) => await_outcome_of(w),
        }
    }
}

/// Classifies a mined receipt: status one is success, any other status is
/// failure, a missing status flag is unknown.
pub fn classify_receipt(r: &ReceiptInfo) -> (o: Outcome)
    ensures
        o == receipt_outcome(*r),
{
    match r.status {
        Some(st) => if st == 1 {
            Outcome::Success
        } else {
            Outcome::Failed
        },
        None => Outcome::Unknown,
    }
}

/// Starts an attempt: builds the transaction for `selector`, reaching `Built`
/// for the supported selectors and short-circuiting to
/// `Resolved(Unsupported)` where the builder refuses.
pub fn begin_attempt(
    selector: u8,
    sender: &Address,
    recipient: &Address,
    value: u128,
    profile: &FeeProfile,
) -> (s: AttemptState)
    ensures
        selector <= 2 ==> (s matches AttemptState::Built(tx) && built_spec_ok(
            tx,
            selector,
            sender@,
            recipient@,
            value,
            *profile,
        )),
        selector >= 3 ==> s == AttemptState::Resolved(Outcome::Unsupported),
{
    match build(selector, sender, recipient, value, profile) {
        Ok(tx) => AttemptState::Built(tx),
        Err(_) => AttemptState::Resolved(Outcome::Unsupported),
    }
}

/// Applies the submission result: acceptance moves to `Submitted` under the
/// returned handle, rejection resolves to `SubmitError` with the message.
pub fn on_submit_result(s: AttemptState, r: SubmitOutcome) -> (s2: AttemptState)
    requires
        s is Built,
    ensures
        (r matches SubmitOutcome::Accepted(h) ==> s2 == AttemptState::Submitted(h)),
        (r matches SubmitOutcome::Rejected(m) ==> s2 == AttemptState::Resolved(
            Outcome::SubmitError(m),
        )),
{
    match s {
        AttemptState::Built(_tx) => match r {
            SubmitOutcome::Accepted(h) => AttemptState::Submitted(h),
            SubmitOutcome::Rejected(m) => AttemptState::Resolved(Outcome::SubmitError(m)),
        },
        _ => unreached(),
    }
}

/// Applies the confirmation result: the attempt resolves to the receipt's
/// classification, to `Pending` without a receipt, or to `AwaitError`.
pub fn on_await_result(s: AttemptState, r: AwaitOutcome) -> (s2: AttemptState)
    requires
        s is Submitted,
    ensures
        s2 == AttemptState::Resolved(await_outcome_of(r)),
{
    match s {
        AttemptState::Submitted(_h) => match r {
            AwaitOutcome::Mined(rc) => AttemptState::Resolved(classify_receipt(&rc)),
            AwaitOutcome::NoReceipt => AttemptState::Resolved(Outcome::Pending),
            AwaitOutcome::Failed(m) => AttemptState::Resolved(Outcome::AwaitError(m)),
        },
        _ => unreached(),
    }
}

/// Runs one fee series: every selector in ascending order, each attempt driven
/// to `Resolved`, its outcome appended in order. The report always holds one
/// entry per selector, however the collaborators behaved.
pub fn run_series(
    sender: &Address,
    recipient: &Address,
    value: u128,
    profile: &FeeProfile,
    script: Vec<AttemptBehavior>,
) -> (r: Vec<(u8, Outcome)>)
    requires
        script@.len() == SELECTOR_COUNT,
    ensures
        r@.len() == SELECTOR_COUNT,
        forall|i: int| 0 <= i < SELECTOR_COUNT ==> (#[trigger] r@[i]).0 == i as u8,
        forall|i: int|
            0 <= i < SELECTOR_COUNT ==> (#[trigger] r@[i]).1 == attempt_outcome(
                i as u8,
                script@[i],
            ),
{
    let ghost script0 = script@;
    let mut script = script;
    let mut results: Vec<(u8, Outcome)> = Vec::new();
    let mut selector: u8 = 0;
    proof {
        assert(script0.skip(0) =~= script0);
    }
    while selector < SELECTOR_COUNT
        invariant
            selector <= SELECTOR_COUNT,
            script0.len() == SELECTOR_COUNT,
            script@ == script0.skip(selector as int),
            results@.len() == selector,
            forall|i: int| 0 <= i < selector ==> (#[trigger] results@[i]).0 == i as u8,
            forall|i: int|
                0 <= i < selector ==> (#[trigger] results@[i]).1 == attempt_outcome(
                    i as u8,
                    script0[i],
                ),
        decreases SELECTOR_COUNT - selector,
    {
        let behavior = script.remove(0);
        proof {
            assert(behavior == script0[selector as int]);
            assert(script@ =~= script0.skip(selector as int + 1));
        }
        let state = begin_attempt(selector, sender, recipient, value, profile);
        let state = match state {
            AttemptState::Built(tx) => match behavior {
                AttemptBehavior::RejectSubmission(m) => on_submit_result(
                    AttemptState::Built(tx),
                    SubmitOutcome::Rejected(m),
                ),
                AttemptBehavior::AcceptSubmission(h, w) => {
                    let submitted = on_submit_result(
                        AttemptState::Built(tx),
                        SubmitOutcome::Accepted(h),
                    );
                    on_await_result(submitted, w)
                },
            },
            other => other,
        };
        let outcome = match state {
            AttemptState::Resolved(o) => o,
            _ => unreached(),
        };
        results.push((selector, outcome));
        selector += 1;
    }
    results
}

/// The fixed, ordered fee series of a probing run: zero fees first, then
/// minimal fees of one in the smallest fee unit.
pub fn fee_series() -> (r: Vec<FeeProfile>)
    ensures
        r@.len() == 2,
        r@[0] == (FeeProfile {
            suggested_gas_price: Some(0u128),
            max_priority_fee_per_gas: 0u128,
            max_fee_per_gas: 0u128,
        }),
        r@[1] == (FeeProfile {
            suggested_gas_price: Some(1u128),
            max_priority_fee_per_gas: 1u128,
            max_fee_per_gas: 1u128,
        }),
{
    let mut v: Vec<FeeProfile> = Vec::new();
    v.push(
        FeeProfile {
            suggested_gas_price: Some(0),
            max_priority_fee_per_gas: 0,
            max_fee_per_gas: 0,
        },
    );
    v.push(
        FeeProfile {
            suggested_gas_price: Some(1),
            max_priority_fee_per_gas: 1,
            max_fee_per_gas: 1,
        },
    );
    v
}

/// Runs the whole probe: both fee series in their fixed order, each over every
/// selector, one collaborator script per series. Both reports always hold one
/// entry per selector.
pub fn run_probe(
    sender: &Address,
    recipient: &Address,
    value: u128,
    scripts: Vec<Vec<AttemptBehavior>>,
) -> (r: Vec<Vec<(u8, Outcome)>>)
    requires
        scripts@.len() == 2,
        forall|s: int| 0 <= s < 2 ==> (#[trigger] scripts@[s])@.len() == SELECTOR_COUNT,
    ensures
        r@.len() == 2,
        forall|s: int| 0 <= s < 2 ==> (#[trigger] r@[s])@.len() == SELECTOR_COUNT,
        forall|s: int, i: int|
            0 <= s < 2 && 0 <= i < SELECTOR_COUNT ==> (#[trigger] r@[s]@[i]).0 == i as u8,
        forall|s: int, i: int|
            0 <= s < 2 && 0 <= i < SELECTOR_COUNT ==> (#[trigger] r@[s]@[i]).1 == attempt_outcome(
                i as u8,
                scripts@[s]@[i],
            ),
{
    let profiles = fee_series();
    let mut scripts = scripts;
    let script0 = scripts.remove(0);
    let script1 = scripts.remove(0);
    let profile0 = profiles[0];
    let profile1 = profiles[1];
    let r0 = run_series(sender, recipient, value, &profile0, script0);
    let r1 = run_series(sender, recipient, value, &profile1, script1);
    let mut out: Vec<Vec<(u8, Outcome)>> = Vec::new();
    out.push(r0);
    out.push(r1);
    out
}

} // verus!
