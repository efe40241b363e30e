use txprobe::builder::{BuildError, FeeProfile};
use txprobe::orchestrator::{Outcome, ReceiptInfo, SubmissionHandle};
use txprobe::reporter::{
    attempt_line, await_error_line, format_gwei, format_u128, mined_line, outcome_label,
    pending_line, series_header, series_label, skipping_line, submit_failed_line, submitted_line,
    summary_entry_line, summary_header,
};

fn minimal_profile() -> FeeProfile {
    FeeProfile {
        suggested_gas_price: Some(1),
        max_priority_fee_per_gas: 1,
        max_fee_per_gas: 1,
    }
}

#[test]
fn format_u128_renders_decimal() {
    assert_eq!(format_u128(0), "0");
    assert_eq!(format_u128(7), "7");
    assert_eq!(format_u128(1234567890), "1234567890");
    assert_eq!(format_u128(u128::MAX), "340282366920938463463374607431768211455");
}

#[test]
fn format_gwei_truncates() {
    assert_eq!(format_gwei(0), "0");
    assert_eq!(format_gwei(999_999_999), "0");
    assert_eq!(format_gwei(2_500_000_000), "2");
    assert_eq!(format_gwei(1_000_000_000), "1");
}

#[test]
fn outcome_labels() {
    assert_eq!(outcome_label(&Outcome::Success), "success");
    assert_eq!(outcome_label(&Outcome::Failed), "failed");
    assert_eq!(outcome_label(&Outcome::Unknown), "unknown");
    assert_eq!(outcome_label(&Outcome::Pending), "pending");
    assert_eq!(outcome_label(&Outcome::Unsupported), "unsupported");
    assert_eq!(outcome_label(&Outcome::AwaitError(String::from("boom"))), "await error: boom");
    assert_eq!(
        outcome_label(&Outcome::SubmitError(String::from("nonce too low"))),
        "submit error: nonce too low"
    );
}

#[test]
fn summary_entry_lines() {
    assert_eq!(summary_entry_line(4, &Outcome::Unsupported), "  type-4: unsupported");
    assert_eq!(summary_entry_line(2, &Outcome::Success), "  type-2: success");
}

#[test]
fn series_labels_and_headers() {
    let p = minimal_profile();
    assert_eq!(series_label(&p), "fees=1");
    assert_eq!(series_header(&p), "Series: fees=1");
    assert_eq!(summary_header(&p), "Summary (fees=1):");
}

#[test]
fn attempt_lines() {
    assert_eq!(attempt_line(0, &minimal_profile()), "Attempting type-0 (fees=1)…");
}

#[test]
fn submitted_lines() {
    let h = SubmissionHandle { hash: vec![0xde, 0xad, 0xbe, 0xef] };
    assert_eq!(submitted_line(&h), "  submitted: 0xdeadbeef");
}

#[test]
fn mined_lines() {
    let mined = ReceiptInfo { status: Some(1), block_number: Some(712) };
    assert_eq!(mined_line(&mined), "  mined in block 712 (status: success)");
    let unknown_block = ReceiptInfo { status: None, block_number: None };
    assert_eq!(mined_line(&unknown_block), "  mined in block ? (status: unknown)");
    let reverted = ReceiptInfo { status: Some(0), block_number: Some(3) };
    assert_eq!(mined_line(&reverted), "  mined in block 3 (status: failed)");
}

#[test]
fn waiting_and_error_lines() {
    assert_eq!(pending_line(), "  pending (no receipt yet)");
    assert_eq!(await_error_line(&String::from("rpc down")), "  error awaiting receipt: rpc down");
    assert_eq!(submit_failed_line(&String::from("rejected")), "  submission failed: rejected");
}

#[test]
fn skipping_lines() {
    assert_eq!(
        skipping_line(3, &BuildError::UnsupportedType(3)),
        "Skipping type-3: unsupported tx type 3"
    );
    assert_eq!(
        skipping_line(9, &BuildError::UnknownType(9)),
        "Skipping type-9: unknown tx type 9"
    );
}
