use gdb_triage::marker::{make_marker, extract_marker, ExtractError};

const CHILD_START: &str = "----AFLTRIAGE_CHILD_OUTPUT_START----";
const CHILD_END: &str = "----AFLTRIAGE_CHILD_OUTPUT_END----";

#[test]
fn sentinels_have_the_fixed_shape() {
    let m = make_marker("AFLTRIAGE_CHILD_OUTPUT");
    assert_eq!(m.start, CHILD_START);
    assert_eq!(m.end, CHILD_END);
    let b = make_marker("AFLTRIAGE_BACKTRACE");
    assert_eq!(b.start, "----AFLTRIAGE_BACKTRACE_START----");
    assert_eq!(b.end, "----AFLTRIAGE_BACKTRACE_END----");
}

#[test]
fn distinct_tags_give_unrelated_start_sentinels() {
    let a = make_marker("ALPHA");
    let b = make_marker("BETA");
    assert_ne!(a.start, b.start);
    assert!(!a.start.contains(b.start.as_str()));
    assert!(!b.start.contains(a.start.as_str()));
}

#[test]
fn extract_is_the_identity_round_trip() {
    let m = make_marker("TAG");
    let payload = "some payload\nwith lines\n";
    let text = format!("{}\n{}{}", m.start, payload, m.end);
    let got = extract_marker(&text, &m);
    assert_eq!(got.unwrap(), payload);
}

#[test]
fn extract_keeps_an_empty_payload_empty() {
    let m = make_marker("TAG");
    let text = format!("{}\n{}", m.start, m.end);
    assert_eq!(extract_marker(&text, &m).unwrap(), "");
}

#[test]
fn extract_does_not_trim_the_payload() {
    let m = make_marker("TAG");
    let text = format!("{}\n  spaced  \n\n{}", m.start, m.end);
    assert_eq!(extract_marker(&text, &m).unwrap(), "  spaced  \n\n");
}

#[test]
fn extract_fails_when_the_start_sentinel_is_missing() {
    let m = make_marker("TAG");
    let text = format!("noise\n{}", m.end);
    match extract_marker(&text, &m) {
        Err(ExtractError::MarkerNotFound(which)) => assert_eq!(which, m.start),
        other => panic!("expected a missing start sentinel, got {:?}", other),
    }
}

#[test]
fn extract_fails_when_the_end_sentinel_is_missing() {
    let m = make_marker("TAG");
    let text = format!("{}\npayload, then silence", m.start);
    match extract_marker(&text, &m) {
        Err(ExtractError::MarkerNotFound(which)) => assert_eq!(which, m.end),
        other => panic!("expected a missing end sentinel, got {:?}", other),
    }
}

#[test]
fn extract_fails_when_the_sentinels_are_out_of_order() {
    let m = make_marker("TAG");
    let text = format!("{}\n{}\n", m.end, m.start);
    assert!(matches!(extract_marker(&text, &m), Err(ExtractError::OutOfOrder)));
}
