use provenance::compare::VerificationResult;
use provenance::normalize::default_marker;
use provenance::pipeline::{exit_status, run_verification, StageError};
use provenance::trace::{ActionKind, Address, TraceEntry};

fn addr(last: u8) -> Address {
    let mut b = vec![0u8; 19];
    b.push(last);
    Address::new(b).unwrap()
}

#[test]
fn scenario_match_despite_metadata_suffix() {
    // One creation of the target; the on-chain and built payloads
    // agree up to their (different) metadata suffixes.
    let on_chain = b"60806040523415600057a264deadbeef0033".to_vec();
    let built = b"60806040523415600057a26411112222".to_vec();
    let traces = vec![
        TraceEntry::other(ActionKind::Call, true),
        TraceEntry::creation(addr(7), on_chain),
    ];
    let rep = run_verification(&traces, &addr(7), &built, &default_marker()).unwrap();
    assert_eq!(rep.result, VerificationResult::Match);
    assert_eq!(rep.on_chain_normalized, Some(b"60806040523415600057".to_vec()));
    assert_eq!(rep.built_normalized, Some(b"60806040523415600057".to_vec()));
}

#[test]
fn scenario_no_entry_for_target_is_not_found() {
    let traces = vec![
        TraceEntry::creation(addr(9), b"6080".to_vec()),
        TraceEntry::other(ActionKind::Call, true),
    ];
    let rep = run_verification(&traces, &addr(7), &b"6080".to_vec(), &default_marker()).unwrap();
    assert_eq!(rep.result, VerificationResult::NotFound);
    assert_eq!(rep.on_chain_normalized, None);
    assert_eq!(rep.built_normalized, None);
}

#[test]
fn scenario_recreation_is_ambiguous() {
    let traces = vec![
        TraceEntry::creation(addr(7), b"6080".to_vec()),
        TraceEntry::creation(addr(7), b"6080".to_vec()),
    ];
    let rep = run_verification(&traces, &addr(7), &b"6080".to_vec(), &default_marker()).unwrap();
    assert_eq!(rep.result, VerificationResult::Ambiguous);
}

#[test]
fn scenario_single_byte_difference_is_mismatch() {
    let on_chain = b"60806041a264dead".to_vec();
    let built = b"60806040a264beef".to_vec();
    let traces = vec![TraceEntry::creation(addr(7), on_chain)];
    let rep = run_verification(&traces, &addr(7), &built, &default_marker()).unwrap();
    assert_eq!(rep.result, VerificationResult::Mismatch);
    // The diagnostic carries both normalized payloads.
    assert_eq!(rep.on_chain_normalized, Some(b"60806041".to_vec()));
    assert_eq!(rep.built_normalized, Some(b"60806040".to_vec()));
}

#[test]
fn malformed_built_payload_is_typed_failure() {
    let traces = vec![TraceEntry::creation(addr(7), b"6080".to_vec())];
    // A still-prefixed payload is not bare hex.
    let r = run_verification(&traces, &addr(7), &b"0x6080".to_vec(), &default_marker());
    assert_eq!(r.err(), Some(StageError::MalformedBytecode));
}

#[test]
fn malformed_on_chain_payload_is_typed_failure() {
    let traces = vec![TraceEntry::creation(addr(7), b"60g0".to_vec())];
    let r = run_verification(&traces, &addr(7), &b"6080".to_vec(), &default_marker());
    assert_eq!(r.err(), Some(StageError::MalformedBytecode));
}

#[test]
fn malformed_check_comes_before_lookup() {
    let traces: Vec<TraceEntry> = Vec::new();
    let r = run_verification(&traces, &addr(7), &b"123".to_vec(), &default_marker());
    assert_eq!(r.err(), Some(StageError::MalformedBytecode));
}

#[test]
fn case_variant_payloads_match() {
    let traces = vec![TraceEntry::creation(addr(7), b"60AB60CD".to_vec())];
    let rep =
        run_verification(&traces, &addr(7), &b"60ab60cd".to_vec(), &default_marker()).unwrap();
    assert_eq!(rep.result, VerificationResult::Match);
}

#[test]
fn exit_status_maps_one_to_one() {
    assert_eq!(exit_status(Ok(VerificationResult::Match)), 0);
    assert_eq!(exit_status(Ok(VerificationResult::Mismatch)), 1);
    assert_eq!(exit_status(Ok(VerificationResult::NotFound)), 2);
    assert_eq!(exit_status(Ok(VerificationResult::Ambiguous)), 3);
    assert_eq!(exit_status(Err(StageError::RpcError)), 4);
    assert_eq!(exit_status(Err(StageError::DependencyMissing)), 4);
    assert_eq!(exit_status(Err(StageError::BuildFailure)), 4);
    assert_eq!(exit_status(Err(StageError::ToolchainError)), 4);
    assert_eq!(exit_status(Err(StageError::MalformedBytecode)), 4);
}
