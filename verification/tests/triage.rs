use gdb_triage::driver::{process_triage_output, check_sanity_output, TriageError};
use gdb_triage::driver::{build_triage_args, build_sanity_args};
use gdb_triage::marker::ExtractError;

const CHILD_START: &str = "----AFLTRIAGE_CHILD_OUTPUT_START----";
const CHILD_END: &str = "----AFLTRIAGE_CHILD_OUTPUT_END----";
const BT_START: &str = "----AFLTRIAGE_BACKTRACE_START----";
const BT_END: &str = "----AFLTRIAGE_BACKTRACE_END----";

fn stream(child_payload: &str, backtrace_payload: &str) -> String {
    format!(
        "{}\n{}{}\n{}\n{}{}\n",
        CHILD_START, child_payload, CHILD_END, BT_START, backtrace_payload, BT_END
    )
}

#[test]
fn end_to_end_triage_succeeds_on_a_clean_run() {
    let stdout = stream(
        "hello\n",
        "{\"current_tid\":1,\"threads\":[{\"tid\":1,\"backtrace\":[]}]}\n",
    );
    let stderr = stream("", "");
    let result = process_triage_output(stdout.as_bytes(), stderr.as_bytes(), 0).unwrap();
    assert_eq!(result.child.stdout, "hello\n");
    assert_eq!(result.child.stderr, "");
    assert_eq!(result.child.status_code, 0);
    assert_eq!(result.thread_info.current_tid, 1);
    assert_eq!(result.thread_info.threads[0].tid, 1);
    assert_eq!(result.thread_info.threads[0].backtrace.len(), 0);
}

#[test]
fn the_true_exit_status_is_carried_through() {
    let stdout = stream("", "{\"current_tid\":1,\"threads\":[{\"tid\":1,\"backtrace\":[]}]}\n");
    let stderr = stream("", "");
    let result = process_triage_output(stdout.as_bytes(), stderr.as_bytes(), 139).unwrap();
    assert_eq!(result.child.status_code, 139);
}

#[test]
fn script_errors_on_stderr_win_over_the_payload() {
    let stdout = stream(
        "hello\n",
        "{\"current_tid\":1,\"threads\":[{\"tid\":1,\"backtrace\":[]}]}\n",
    );
    let stderr = stream("", "boom happened\n");
    match process_triage_output(stdout.as_bytes(), stderr.as_bytes(), 0) {
        Err(TriageError::TriageScriptError(text)) => assert_eq!(text, "boom happened\n"),
        other => panic!("expected a triage script error, got {:?}", other),
    }
}

#[test]
fn truncated_payload_gives_a_parse_error_not_a_crash() {
    let stdout = stream("hello\n", "{\"current_tid\": 1, \"threa\n");
    let stderr = stream("", "");
    assert!(matches!(
        process_triage_output(stdout.as_bytes(), stderr.as_bytes(), 0),
        Err(TriageError::PayloadParseError(_))
    ));
}

#[test]
fn missing_child_markers_on_stdout_are_reported_as_such() {
    let stderr = stream("", "");
    match process_triage_output(b"no markers at all", stderr.as_bytes(), 0) {
        Err(TriageError::ChildStdoutMarker(ExtractError::MarkerNotFound(which))) => {
            assert_eq!(which, CHILD_START)
        },
        other => panic!("expected a child stdout marker failure, got {:?}", other),
    }
}

#[test]
fn missing_child_markers_on_stderr_are_reported_as_such() {
    let stdout = stream("", "{\"current_tid\":1,\"threads\":[{\"tid\":1,\"backtrace\":[]}]}\n");
    assert!(matches!(
        process_triage_output(stdout.as_bytes(), b"", 0),
        Err(TriageError::ChildStderrMarker(ExtractError::MarkerNotFound(_)))
    ));
}

#[test]
fn missing_backtrace_markers_on_stdout_are_reported_as_such() {
    let stdout = format!("{}\nhello\n{}\n", CHILD_START, CHILD_END);
    let stderr = stream("", "");
    assert!(matches!(
        process_triage_output(stdout.as_bytes(), stderr.as_bytes(), 0),
        Err(TriageError::BacktraceMarker(ExtractError::MarkerNotFound(_)))
    ));
}

#[test]
fn missing_backtrace_markers_on_stderr_are_reported_as_such() {
    let stdout = stream("", "{\"current_tid\":1,\"threads\":[{\"tid\":1,\"backtrace\":[]}]}\n");
    let stderr = format!("{}\n{}\n", CHILD_START, CHILD_END);
    assert!(matches!(
        process_triage_output(stdout.as_bytes(), stderr.as_bytes(), 0),
        Err(TriageError::BacktraceErrorMarker(ExtractError::MarkerNotFound(_)))
    ));
}

#[test]
fn invalid_bytes_in_the_child_output_are_replaced_not_rejected() {
    let mut stdout: Vec<u8> = Vec::new();
    stdout.extend_from_slice(CHILD_START.as_bytes());
    stdout.push(b'\n');
    stdout.push(0xFF);
    stdout.push(b'\n');
    stdout.extend_from_slice(CHILD_END.as_bytes());
    stdout.push(b'\n');
    stdout.extend_from_slice(BT_START.as_bytes());
    stdout.push(b'\n');
    stdout.extend_from_slice(
        b"{\"current_tid\":1,\"threads\":[{\"tid\":1,\"backtrace\":[]}]}\n",
    );
    stdout.extend_from_slice(BT_END.as_bytes());
    stdout.push(b'\n');
    let stderr = stream("", "");
    let result = process_triage_output(&stdout, stderr.as_bytes(), 0).unwrap();
    assert_eq!(result.child.stdout, "\u{FFFD}\n");
}

#[test]
fn sanity_check_reads_both_version_lines() {
    let out = check_sanity_output(b"V:GNU gdb 12.1\nP:3.10.4\n", true);
    let (version, python_version) = out.unwrap();
    assert_eq!(version, "GNU gdb 12.1");
    assert_eq!(python_version, "3.10.4");
}

#[test]
fn sanity_check_fails_without_either_prefix_or_on_bad_exit() {
    assert!(check_sanity_output(b"V:GNU gdb 12.1\n", true).is_none());
    assert!(check_sanity_output(b"P:3.10.4\n", true).is_none());
    assert!(check_sanity_output(b"V:GNU gdb 12.1\nP:3.10.4\n", false).is_none());
}

#[test]
fn sanity_check_strips_a_carriage_return() {
    let out = check_sanity_output(b"V:GNU gdb 12.1\r\nP:3.10.4", true);
    let (version, python_version) = out.unwrap();
    assert_eq!(version, "GNU gdb 12.1");
    assert_eq!(python_version, "3.10.4");
}

#[test]
fn sanity_args_have_the_wire_shape() {
    let args = build_sanity_args();
    assert_eq!(args.len(), 4);
    assert_eq!(args[0], "--nx");
    assert_eq!(args[1], "--batch");
    assert_eq!(args[2], "-iex");
    assert!(args[3].starts_with("python import gdb, sys;"));
}

#[test]
fn triage_args_have_the_wire_shape() {
    let prog: Vec<String> = vec!["./prog".to_string(), "input".to_string()];
    let args = build_triage_args("/tmp/triage.py", &prog);
    assert_eq!(args.len(), 31);
    assert_eq!(args[0], "--batch");
    assert_eq!(args[1], "--nx");
    assert_eq!(args[2], "-iex");
    assert_eq!(args[3], "set index-cache on");
    assert_eq!(args[5], "set index-cache directory gdb_cache");
    assert_eq!(
        args[7],
        "python [x.write('----AFLTRIAGE_CHILD_OUTPUT_START----\\n') for x in [sys.stdout, sys.stderr]]"
    );
    assert_eq!(args[9], "set logging file /dev/null");
    assert_eq!(args[11], "set logging redirect on");
    assert_eq!(args[13], "set logging on");
    assert_eq!(args[15], "run");
    assert_eq!(args[17], "set logging redirect off");
    assert_eq!(args[19], "set logging off");
    assert_eq!(
        args[21],
        "python [x.write('----AFLTRIAGE_CHILD_OUTPUT_END----\\n') for x in [sys.stdout, sys.stderr]]"
    );
    assert_eq!(
        args[23],
        "python [x.write('----AFLTRIAGE_BACKTRACE_START----\\n') for x in [sys.stdout, sys.stderr]]"
    );
    assert_eq!(args[24], "-x");
    assert_eq!(args[25], "/tmp/triage.py");
    assert_eq!(
        args[27],
        "python [x.write('----AFLTRIAGE_BACKTRACE_END----\\n') for x in [sys.stdout, sys.stderr]]"
    );
    assert_eq!(args[28], "--args");
    assert_eq!(args[29], "./prog");
    assert_eq!(args[30], "input");
}
