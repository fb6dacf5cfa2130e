use gdb_triage::json::parse_thread_info;

#[test]
fn well_formed_payload_names_a_current_thread_in_the_list() {
    let doc = r#"{
        "current_tid": 7,
        "threads": [
            {"tid": 3, "backtrace": []},
            {"tid": 7, "backtrace": [{
                "address": 4096,
                "relative_address": 96,
                "module": "a.out",
                "pretty_address": "0x1000 in main",
                "symbol": {
                    "function_name": "main",
                    "mangled_function_name": "main",
                    "function_signature": "int main()",
                    "file": "main.c",
                    "line": 42
                },
                "args": [{"type": "int", "name": "argc", "value": "1"}],
                "locals": [{"type": "char *", "name": "p", "value": "0x0"}]
            }]}
        ]
    }"#;
    let info = parse_thread_info(doc).unwrap();
    assert_eq!(info.current_tid, 7);
    assert!(info.threads.iter().any(|t| t.tid == info.current_tid));
    let faulting = &info.threads[1];
    assert_eq!(faulting.backtrace.len(), 1);
    let frame = &faulting.backtrace[0];
    assert_eq!(frame.address, 4096);
    assert_eq!(frame.relative_address, 96);
    assert_eq!(frame.module, "a.out");
    assert_eq!(frame.pretty_address, "0x1000 in main");
    assert_eq!(frame.symbol.function_name, "main");
    assert_eq!(frame.symbol.file, "main.c");
    assert_eq!(frame.symbol.line, 42);
    assert_eq!(frame.args[0].var_type, "int");
    assert_eq!(frame.args[0].name, "argc");
    assert_eq!(frame.args[0].value, "1");
    assert_eq!(frame.locals[0].name, "p");
}

#[test]
fn unknown_line_sentinel_is_preserved() {
    let doc = r#"{
        "current_tid": 1,
        "threads": [{"tid": 1, "backtrace": [{
            "address": 8,
            "relative_address": 8,
            "module": "stripped.so",
            "pretty_address": "0x8",
            "symbol": {
                "function_name": "??",
                "mangled_function_name": "??",
                "function_signature": "??",
                "file": "",
                "line": -1
            },
            "args": [],
            "locals": []
        }]}]
    }"#;
    let info = parse_thread_info(doc).unwrap();
    assert_eq!(info.threads[0].backtrace[0].symbol.line, -1);
}

#[test]
fn syntactically_broken_payload_is_rejected() {
    assert!(parse_thread_info("{\"current_tid\": 1, ").is_err());
}

#[test]
fn schema_mismatch_is_rejected() {
    assert!(parse_thread_info("{\"current_tid\": 1}").is_err());
    assert!(parse_thread_info("{\"current_tid\": \"one\", \"threads\": []}").is_err());
    assert!(parse_thread_info("{\"current_tid\": 1, \"threads\": [{\"tid\": 2}]}").is_err());
    assert!(parse_thread_info("[]").is_err());
}

#[test]
fn out_of_range_tid_is_rejected() {
    assert!(parse_thread_info("{\"current_tid\": 4294967296, \"threads\": []}").is_err());
}

#[test]
fn schema_errors_name_the_failing_key() {
    let missing = parse_thread_info("{\"current_tid\": 1}").unwrap_err();
    assert!(missing.contains("threads"), "message was: {}", missing);
    let wrong_type = parse_thread_info("{\"current_tid\": \"one\", \"threads\": []}").unwrap_err();
    assert!(wrong_type.contains("current_tid"), "message was: {}", wrong_type);
    let out_of_range =
        parse_thread_info("{\"current_tid\": 4294967296, \"threads\": []}").unwrap_err();
    assert!(out_of_range.contains("current_tid"), "message was: {}", out_of_range);
    let bad_frame = parse_thread_info(
        "{\"current_tid\": 1, \"threads\": [{\"tid\": 1, \"backtrace\": [{\"address\": 1}]}]}",
    )
    .unwrap_err();
    assert!(bad_frame.contains("relative_address"), "message was: {}", bad_frame);
}

#[test]
fn duplicate_object_keys_keep_the_last_binding() {
    let info =
        parse_thread_info("{\"current_tid\": 2, \"current_tid\": 1, \"threads\": [{\"tid\": 1, \"backtrace\": []}]}")
            .unwrap();
    assert_eq!(info.current_tid, 1);
}
