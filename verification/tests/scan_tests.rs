use catalog_scan::doc::{BsonField, BsonValue};
use catalog_scan::encode::encode_doc;
use catalog_scan::status::{classify, StatusOutcome, STATUS_SUCCESS, STATUS_ROLLBACK,
    STATUS_DUPLICATE_KEY, STATUS_ERROR, STATUS_NOTFOUND, STATUS_PANIC, STATUS_RESTART,
    STATUS_RUN_RECOVERY, STATUS_CACHE_FULL};
use catalog_scan::scan::{CatalogScan, Phase, AdvanceOutcome, RecordOutcome};
use catalog_scan::error::{ScanError, MalformedReason};

fn text(s: &str) -> BsonValue {
    BsonValue::Text(s.as_bytes().to_vec())
}

fn field(name: &str, value: BsonValue) -> BsonField {
    BsonField { name: name.as_bytes().to_vec(), value }
}

fn entry_bytes(ns: &str, ident: &str) -> Vec<u8> {
    encode_doc(&vec![field("ns", text(ns)), field("ident", text(ident))])
}

#[test]
fn classify_covers_the_whole_table() {
    assert_eq!(classify(STATUS_SUCCESS), StatusOutcome::Success);
    assert_eq!(classify(STATUS_NOTFOUND), StatusOutcome::NotFound);
    assert_eq!(classify(STATUS_ROLLBACK), StatusOutcome::Retryable);
    assert_eq!(classify(STATUS_RESTART), StatusOutcome::Retryable);
    assert_eq!(classify(STATUS_ERROR), StatusOutcome::Fatal);
    assert_eq!(classify(STATUS_DUPLICATE_KEY), StatusOutcome::Fatal);
    assert_eq!(classify(STATUS_PANIC), StatusOutcome::Fatal);
    assert_eq!(classify(STATUS_RUN_RECOVERY), StatusOutcome::Fatal);
    assert_eq!(classify(STATUS_CACHE_FULL), StatusOutcome::Fatal);
    assert_eq!(classify(2), StatusOutcome::Unknown);
    assert_eq!(classify(-1), StatusOutcome::Unknown);
    assert_eq!(classify(12345), StatusOutcome::Unknown);
}

#[test]
fn scenario_empty_table() {
    let mut scan = CatalogScan::new();
    assert_eq!(scan.phase, Phase::Created);
    let r = scan.on_advance(STATUS_NOTFOUND).unwrap();
    assert_eq!(r, AdvanceOutcome::Done);
    assert_eq!(scan.phase, Phase::Exhausted);
    assert!(scan.entries.is_empty());
    assert!(scan.rejects.is_empty());
    // Advancing past exhaustion is a contract violation.
    assert_eq!(scan.on_advance(STATUS_SUCCESS).unwrap_err(), ScanError::ContractViolation);
    assert!(scan.close().is_ok());
}

#[test]
fn scenario_fatal_mid_scan() {
    let mut scan = CatalogScan::new();
    assert_eq!(scan.on_advance(STATUS_SUCCESS).unwrap(), AdvanceOutcome::HasRecord);
    assert_eq!(scan.phase, Phase::Positioned);
    let bytes = entry_bytes("test.foo", "file:foo.wt");
    assert_eq!(scan.on_record(1, &bytes).unwrap(), RecordOutcome::Decoded);
    let e = scan.on_advance(STATUS_PANIC).unwrap_err();
    assert_eq!(e, ScanError::OperationFailed(StatusOutcome::Fatal));
    assert_eq!(scan.phase, Phase::Failed);
    // No further record can be read after the abort.
    assert_eq!(scan.on_record(2, &bytes).unwrap_err(), ScanError::ContractViolation);
    assert_eq!(scan.on_advance(STATUS_SUCCESS).unwrap_err(), ScanError::ContractViolation);
    // The cursor is still closed in order before reporting failure.
    assert!(scan.close().is_ok());
    assert_eq!(scan.phase, Phase::Closed);
    assert_eq!(scan.entries.len(), 1);
}

#[test]
fn full_scan_with_skip_and_reject() {
    let mut scan = CatalogScan::new();

    assert_eq!(scan.on_advance(STATUS_SUCCESS).unwrap(), AdvanceOutcome::HasRecord);
    let good = entry_bytes("test.foo", "file:foo.wt");
    assert_eq!(scan.on_record(1, &good).unwrap(), RecordOutcome::Decoded);

    assert_eq!(scan.on_advance(STATUS_SUCCESS).unwrap(), AdvanceOutcome::HasRecord);
    let internal = encode_doc(&vec![field("storageSize", BsonValue::Int64(1024))]);
    assert_eq!(scan.on_record(2, &internal).unwrap(), RecordOutcome::Skipped);

    assert_eq!(scan.on_advance(STATUS_SUCCESS).unwrap(), AdvanceOutcome::HasRecord);
    let bad = encode_doc(&vec![field("ident", text("file:orphan.wt"))]);
    assert_eq!(scan.on_record(3, &bad).unwrap(), RecordOutcome::Rejected);

    assert_eq!(scan.on_advance(STATUS_NOTFOUND).unwrap(), AdvanceOutcome::Done);
    assert_eq!(scan.phase, Phase::Exhausted);

    assert_eq!(scan.entries.len(), 1);
    assert_eq!(scan.entries[0].namespace, b"test.foo".to_vec());
    assert_eq!(scan.rejects.len(), 1);
    assert_eq!(scan.rejects[0].record_key, 3);
    assert_eq!(scan.rejects[0].reason, MalformedReason::MissingNamespace);

    assert!(scan.close().is_ok());
    assert_eq!(scan.close().unwrap_err(), ScanError::ContractViolation);
}

#[test]
fn read_before_positioned_is_rejected() {
    let mut scan = CatalogScan::new();
    let bytes = entry_bytes("test.foo", "file:foo.wt");
    assert_eq!(scan.on_record(1, &bytes).unwrap_err(), ScanError::ContractViolation);
    assert_eq!(scan.phase, Phase::Created);
    assert!(scan.entries.is_empty());
}

#[test]
fn retryable_and_unknown_statuses_abort_with_their_category() {
    let mut scan = CatalogScan::new();
    let e = scan.on_advance(STATUS_ROLLBACK).unwrap_err();
    assert_eq!(e, ScanError::OperationFailed(StatusOutcome::Retryable));
    assert_eq!(scan.phase, Phase::Failed);

    let mut scan = CatalogScan::new();
    let e = scan.on_advance(7).unwrap_err();
    assert_eq!(e, ScanError::OperationFailed(StatusOutcome::Unknown));
    assert_eq!(scan.phase, Phase::Failed);
}

#[test]
fn operations_on_a_closed_scan_are_rejected() {
    let mut scan = CatalogScan::new();
    assert!(scan.close().is_ok());
    assert_eq!(scan.on_advance(STATUS_SUCCESS).unwrap_err(), ScanError::ContractViolation);
    assert_eq!(scan.phase, Phase::Closed);
}
