//! Rendering of progress and summary text for probing runs.

use crate::builder::{BuildError, FeeProfile};
use crate::codec::{digit_str, hex_digit_char, hex_of_bytes, hex_string};
use crate::orchestrator::{receipt_outcome, Outcome, ReceiptInfo, SubmissionHandle};
use vstd::prelude::*;

verus! {

/// Decimal rendering of a non-negative integer, most significant digit first.
pub open spec fn dec_str(n: nat) -> Seq<char>
    decreases n,
{
    if n < 10 {
        seq![hex_digit_char(n as int)]
    } else {
        dec_str(n / 10) + seq![hex_digit_char((n % 10) as int)]
    }
}

/// Renders `n` in decimal.
pub fn format_u128(n: u128) -> (r: String)
    ensures
        r@ == dec_str(n as nat),
    decreases n,
{
    if n < 10 {
        String::from_str(digit_str(n as u8))
    } else {
        let mut s = format_u128(n / 10);
        s.append(digit_str((n % 10) as u8));
        s
    }
}

/// Best-effort display of a base-unit fee as whole gwei: the value divided by
/// ten to the ninth, truncating; for logs only.
pub fn format_gwei(v: u128) -> (r: String)
    ensures
        r@ == dec_str((v / 1000000000) as nat),
{
    format_u128(v / 1000000000)
}

/// The display label of an outcome.
pub open spec fn outcome_label_spec(o: Outcome) -> Seq<char> {
    match o {
        Outcome::Success => "success"@,
        Outcome::Failed => "failed"@,
        Outcome::Unknown => "unknown"@,
        Outcome::Pending => "pending"@,
        Outcome::AwaitError(m) => "await error: "@ + m@,
        Outcome::SubmitError(m) => "submit error: "@ + m@,
        Outcome::Unsupported => "unsupported"@,
    }
}

/// Renders the label of an outcome.
pub fn outcome_label(o: &Outcome) -> (r: String)
    ensures
        r@ == outcome_label_spec(*o),
{
    match o {
        Outcome::Success => String::from_str("success"),
        Outcome::Failed => String::from_str("failed"),
        Outcome::Unknown => String::from_str("unknown"),
        Outcome::Pending => String::from_str("pending"),
        Outcome::AwaitError(m) => {
            let mut s = String::from_str("await error: ");
            s.append(m.as_str());
            s
        },
        Outcome::SubmitError(m) => {
            let mut s = String::from_str("submit error: ");
            s.append(m.as_str());
            s
        },
        Outcome::Unsupported => String::from_str("unsupported"),
    }
}

/// No outcome has a blank label: every summary entry shows something.
pub proof fn lemma_outcome_label_nonempty(o: Outcome)
    ensures
        outcome_label_spec(o).len() > 0,
{
    reveal_strlit("success");
    reveal_strlit("failed");
    reveal_strlit("unknown");
    reveal_strlit("pending");
    reveal_strlit("await error: ");
    reveal_strlit("submit error: ");
    reveal_strlit("unsupported");
}

/// One summary entry: `  type-N: ` followed by the outcome's label.
pub open spec fn summary_entry_spec(selector: u8, o: Outcome) -> Seq<char> {
    "  type-"@ + dec_str(selector as nat) + ": "@ + outcome_label_spec(o)
}

/// Renders one summary entry.
pub fn summary_entry_line(selector: u8, o: &Outcome) -> (r: String)
    ensures
        r@ == summary_entry_spec(selector, *o),
{
    let mut s = String::from_str("  type-");
    let num = format_u128(selector as u128);
    s.append(num.as_str());
    s.append(": ");
    let label = outcome_label(o);
    s.append(label.as_str());
    proof {
        assert(s@ =~= summary_entry_spec(selector, *o));
    }
    s
}

/// The label of a fee series, from its fee ceiling: `fees=N`.
pub open spec fn series_label_spec(p: FeeProfile) -> Seq<char> {
    "fees="@ + dec_str(p.max_fee_per_gas as nat)
}

/// Renders the label of a fee series.
pub fn series_label(p: &FeeProfile) -> (r: String)
    ensures
        r@ == series_label_spec(*p),
{
    let mut s = String::from_str("fees=");
    let num = format_u128(p.max_fee_per_gas);
    s.append(num.as_str());
    s
}

/// The header announcing a series: `Series: fees=N`.
pub fn series_header(p: &FeeProfile) -> (r: String)
    ensures
        r@ == "Series: "@ + series_label_spec(*p),
{
    let mut s = String::from_str("Series: ");
    let label = series_label(p);
    s.append(label.as_str());
    s
}

/// The header of a series summary: `Summary (fees=N):`.
pub fn summary_header(p: &FeeProfile) -> (r: String)
    ensures
        r@ == "Summary ("@ + series_label_spec(*p) + "):"@,
{
    let mut s = String::from_str("Summary (");
    let label = series_label(p);
    s.append(label.as_str());
    s.append("):");
    proof {
        assert(s@ =~= "Summary ("@ + series_label_spec(*p) + "):"@);
    }
    s
}

/// The progress line opening an attempt: `Attempting type-N (fees=M)…`.
pub fn attempt_line(selector: u8, p: &FeeProfile) -> (r: String)
    ensures
        r@ == "Attempting type-"@ + dec_str(selector as nat) + " ("@ + series_label_spec(*p)
            + ")…"@,
{
    let mut s = String::from_str("Attempting type-");
    let num = format_u128(selector as u128);
    s.append(num.as_str());
    s.append(" (");
    let label = series_label(p);
    s.append(label.as_str());
    s.append(")…");
    proof {
        assert(s@ =~= "Attempting type-"@ + dec_str(selector as nat) + " ("@ + series_label_spec(
            *p,
        ) + ")…"@);
    }
    s
}

/// The progress line for a submitted transaction: `  submitted: 0x` and the
/// handle's hash in hex.
pub fn submitted_line(h: &SubmissionHandle) -> (r: String)
    ensures
        r@ == "  submitted: 0x"@ + hex_of_bytes(h.hash@),
{
    let mut s = String::from_str("  submitted: 0x");
    let hex = hex_string(&h.hash);
    s.append(hex.as_str());
    s
}

/// The progress line for a mined transaction: its block, or `?` when the node
/// gave none, and the status word of its classification.
pub fn mined_line(rc: &ReceiptInfo) -> (r: String)
    ensures
        r@ == "  mined in block "@ + (match rc.block_number {
            Some(b) => dec_str(b as nat),
            None => "?"@,
        }) + " (status: "@ + outcome_label_spec(receipt_outcome(*rc)) + ")"@,
{
    let mut s = String::from_str("  mined in block ");
    match rc.block_number {
        Some(b) => {
            let num = format_u128(b as u128);
            s.append(num.as_str());
        },
        None => {
            s.append("?");
        },
    }
    s.append(" (status: ");
    let word = match rc.status {
        Some(st) => if st == 1 {
            outcome_label(&Outcome::Success)
        } else {
            outcome_label(&Outcome::Failed)
        },
        None => outcome_label(&Outcome::Unknown),
    };
    s.append(word.as_str());
    s.append(")");
    proof {
        assert(s@ =~= "  mined in block "@ + (match rc.block_number {
            Some(b) => dec_str(b as nat),
            None => "?"@,
        }) + " (status: "@ + outcome_label_spec(receipt_outcome(*rc)) + ")"@);
    }
    s
}

/// The progress line for a transaction with no receipt yet.
pub fn pending_line() -> (r: String)
    ensures
        r@ == "  pending (no receipt yet)"@,
{
    String::from_str("  pending (no receipt yet)")
}

/// The progress line for a failed confirmation wait.
pub fn await_error_line(m: &String) -> (r: String)
    ensures
        r@ == "  error awaiting receipt: "@ + m@,
{
    let mut s = String::from_str("  error awaiting receipt: ");
    s.append(m.as_str());
    s
}

/// The progress line for a rejected submission.
pub fn submit_failed_line(m: &String) -> (r: String)
    ensures
        r@ == "  submission failed: "@ + m@,
{
    let mut s = String::from_str("  submission failed: ");
    s.append(m.as_str());
    s
}

/// The reason label of a build error.
pub open spec fn build_error_label_spec(e: BuildError) -> Seq<char> {
    match e {
        BuildError::UnsupportedType(t) => "unsupported tx type "@ + dec_str(t as nat),
        BuildError::UnknownType(t) => "unknown tx type "@ + dec_str(t as nat),
    }
}

/// The progress line for a selector the builder refused:
/// `Skipping type-N: ` and the reason.
pub fn skipping_line(selector: u8, e: &BuildError) -> (r: String)
    ensures
        r@ == "Skipping type-"@ + dec_str(selector as nat) + ": "@ + build_error_label_spec(*e),
{
    let mut s = String::from_str("Skipping type-");
    let num = format_u128(selector as u128);
    s.append(num.as_str());
    s.append(": ");
    match e {
        BuildError::UnsupportedType(t) => {
            s.append("unsupported tx type ");
            let reason_num = format_u128(*t as u128);
            s.append(reason_num.as_str());
        },
        BuildError::UnknownType(t) => {
            s.append("unknown tx type ");
            let reason_num = format_u128(*t as u128);
            s.append(reason_num.as_str());
        },
    }
    proof {
        assert(s@ =~= "Skipping type-"@ + dec_str(selector as nat) + ": "@ + build_error_label_spec(
            *e,
        ));
    }
    s
}

} // verus!
