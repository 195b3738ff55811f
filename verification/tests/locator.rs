use provenance::trace::{
    locate_creation, ActionKind, Address, LocateError, TraceEntry,
};

fn addr(last: u8) -> Address {
    let mut b = vec![0u8; 19];
    b.push(last);
    Address::new(b).unwrap()
}

#[test]
fn address_needs_twenty_bytes() {
    assert!(Address::new(vec![0u8; 20]).is_some());
    assert!(Address::new(vec![0u8; 19]).is_none());
    assert!(Address::new(vec![0u8; 21]).is_none());
    assert!(Address::new(Vec::new()).is_none());
}

#[test]
fn locate_empty_trace_is_not_found() {
    let traces: Vec<TraceEntry> = Vec::new();
    let r = locate_creation(&traces, &addr(1));
    assert_eq!(r.err(), Some(LocateError::NotFound));
}

#[test]
fn locate_single_match_returns_its_record() {
    let traces = vec![
        TraceEntry::other(ActionKind::Call, true),
        TraceEntry::creation(addr(1), b"6080a264ff".to_vec()),
        TraceEntry::other(ActionKind::Reward, true),
    ];
    let rec = locate_creation(&traces, &addr(1)).unwrap();
    assert_eq!(rec.init_code, b"6080a264ff".to_vec());
    assert_eq!(rec.address.bytes, addr(1).bytes);
}

#[test]
fn locate_ignores_other_addresses() {
    let traces = vec![TraceEntry::creation(addr(2), b"6080".to_vec())];
    let r = locate_creation(&traces, &addr(1));
    assert_eq!(r.err(), Some(LocateError::NotFound));
}

#[test]
fn locate_ignores_creation_without_result() {
    let traces = vec![TraceEntry::creation_without_result(b"6080".to_vec())];
    let r = locate_creation(&traces, &addr(1));
    assert_eq!(r.err(), Some(LocateError::NotFound));
}

#[test]
fn locate_two_matches_is_ambiguous() {
    let traces = vec![
        TraceEntry::creation(addr(1), b"6080".to_vec()),
        TraceEntry::other(ActionKind::Suicide, true),
        TraceEntry::creation(addr(1), b"6081".to_vec()),
    ];
    let r = locate_creation(&traces, &addr(1));
    assert_eq!(r.err(), Some(LocateError::Ambiguous));
}

#[test]
fn locate_picks_the_one_match_among_many_entries() {
    let traces = vec![
        TraceEntry::creation(addr(3), b"11".to_vec()),
        TraceEntry::creation(addr(1), b"22".to_vec()),
        TraceEntry::creation(addr(2), b"33".to_vec()),
    ];
    let rec = locate_creation(&traces, &addr(1)).unwrap();
    assert_eq!(rec.init_code, b"22".to_vec());
}
