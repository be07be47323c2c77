use modal_rust::error::{reconstruct_runner_error, Error, RunnerError};

#[test]
fn parse_envelope_decode_kind_maps_like_local() {
    match reconstruct_runner_error("decode_error", "bad in", Some("null"), "") {
        RunnerError::Decode(m) => assert_eq!(m, "bad in"),
        other => panic!("expected Decode, got {other:?}"),
    }
}

#[test]
fn parse_envelope_unknown_entrypoint_kind() {
    match reconstruct_runner_error("unknown_entrypoint", "no fn", Some("null"), "") {
        RunnerError::UnknownEntrypoint(m) => assert_eq!(m, "no fn"),
        other => panic!("expected UnknownEntrypoint, got {other:?}"),
    }
}

#[test]
fn parse_envelope_function_error_carries_details() {
    match reconstruct_runner_error("function_error", "boom", Some("{\"code\":7}"), "") {
        RunnerError::Function { message, details } => {
            assert_eq!(message, "boom");
            let v: serde_json::Value = serde_json::from_str(details.as_deref().unwrap()).unwrap();
            assert_eq!(v["code"], 7);
        }
        other => panic!("expected Function, got {other:?}"),
    }
}

#[test]
fn parse_envelope_function_error_null_details_is_none() {
    match reconstruct_runner_error("function_error", "boom", Some("null"), "") {
        RunnerError::Function { details, .. } => assert_eq!(details, None),
        other => panic!("expected Function, got {other:?}"),
    }
}

#[test]
fn parse_envelope_encode_kind() {
    match reconstruct_runner_error("encode_error", "enc", Some("null"), "") {
        RunnerError::Encode(m) => assert_eq!(m, "enc"),
        other => panic!("expected Encode, got {other:?}"),
    }
}

#[test]
fn parse_envelope_panic_kind_carries_backtrace() {
    match reconstruct_runner_error("panic", "oops", Some("null"), "frame0\nframe1") {
        RunnerError::Panic { message, backtrace } => {
            assert_eq!(message, "oops");
            assert_eq!(backtrace, "frame0\nframe1");
        }
        other => panic!("expected Panic, got {other:?}"),
    }
}

#[test]
fn parse_envelope_unknown_kind_degrades_to_decode() {
    match reconstruct_runner_error("wat", "x", Some("null"), "") {
        RunnerError::Decode(m) => assert!(m.contains("unrecognized error kind: wat")),
        other => panic!("expected Decode fallback, got {other:?}"),
    }
}

#[test]
fn reconstruct_absent_details_is_none() {
    assert_eq!(
        reconstruct_runner_error("function_error", "m", None, ""),
        RunnerError::Function { message: "m".to_string(), details: None }
    );
}

#[test]
fn error_messages_are_exact() {
    let e = Error::UnknownEntrypoint { name: "mul".to_string(), known: vec!["add".to_string(), "sub".to_string()] };
    assert_eq!(e.message(), "unknown entrypoint \"mul\"; known entrypoints: [\"add\", \"sub\"]");
    let e = Error::UnknownEntrypoint { name: "x".to_string(), known: vec![] };
    assert_eq!(e.message(), "unknown entrypoint \"x\"; known entrypoints: []");
    assert_eq!(Error::Runner(RunnerError::Decode("bad".to_string())).message(), "handler failed: bad");
    assert_eq!(Error::Encode("e".to_string()).message(), "failed to encode .local() input to JSON: e");
    assert_eq!(Error::Decode("d".to_string()).message(), "failed to decode handler output from JSON: d");
    assert_eq!(Error::NotConnected("not connected".to_string()).message(), "not connected");
    assert_eq!(Error::NotImplemented("later".to_string()).message(), "later");
    assert_eq!(Error::Config("x".to_string()).message(), "invalid config: x");
    assert_eq!(
        RunnerError::Panic { message: "boom".to_string(), backtrace: "bt".to_string() }.message(),
        "boom"
    );
}

#[test]
fn parse_envelope_malformed_json_is_decode_error() {
    match modal_rust::remote::classify_envelope("not json").unwrap_err() {
        Error::Decode(_) => {}
        other => panic!("expected Decode, got {other:?}"),
    }
}

#[test]
fn parse_envelope_ok_decodes_value() {
    let value = modal_rust::remote::classify_envelope(r#"{"ok":true,"value":{"sum":42}}"#).unwrap();
    let out: serde_json::Value = serde_json::from_str(&value).unwrap();
    assert_eq!(out["sum"], 42);
}

#[test]
fn classify_envelope_maps_a_failure_back_to_its_kind() {
    let env = r#"{"ok":false,"error":{"kind":"decode_error","message":"bad in","details":null,"backtrace":""}}"#;
    match modal_rust::remote::classify_envelope(env) {
        Err(Error::Runner(RunnerError::Decode(m))) => assert_eq!(m, "bad in"),
        other => panic!("expected a decode failure, got {other:?}"),
    }
    assert_eq!(modal_rust::remote::classify_envelope(r#"{"ok":true}"#).unwrap(), "null");
}

#[test]
fn classify_envelope_reads_absent_or_mistyped_parts_as_defaults() {
    match modal_rust::remote::classify_envelope(r#"{"ok":"yes","error":{"kind":5,"message":"m"}}"#) {
        Err(Error::Runner(RunnerError::Decode(m))) => assert_eq!(m, "unrecognized error kind: "),
        other => panic!("expected an unrecognized kind, got {other:?}"),
    }
    match modal_rust::remote::classify_envelope(r#"{"error":{"kind":"panic","message":"boom"}}"#) {
        Err(Error::Runner(RunnerError::Panic { message, backtrace })) => {
            assert_eq!(message, "boom");
            assert_eq!(backtrace, "");
        }
        other => panic!("expected a panic, got {other:?}"),
    }
    match modal_rust::remote::classify_envelope(r#"{"ok":false,"error":{"kind":"function_error","details":{"code":7}}}"#) {
        Err(Error::Runner(RunnerError::Function { message, details })) => {
            assert_eq!(message, "");
            assert_eq!(details.as_deref(), Some(r#"{"code":7}"#));
        }
        other => panic!("expected a function failure, got {other:?}"),
    }
    match modal_rust::remote::classify_envelope("[1,2]") {
        Err(Error::Runner(RunnerError::Decode(m))) => assert_eq!(m, "unrecognized error kind: "),
        other => panic!("expected a failure from a non-object reply, got {other:?}"),
    }
}

#[test]
fn json_string_escapes_as_serde_json_does() {
    let samples = [
        "plain",
        "quote \" and backslash \\",
        "tab\tline\nfeed\rform\u{c}back\u{8}",
        "bell\u{7} esc\u{1b} nul\u{0} unit\u{1f}",
        "del\u{7f} non-ascii é ❤ 😀 slash /",
        "",
    ];
    for s in samples {
        assert_eq!(modal_rust::remote::json_string(s), serde_json::to_string(s).unwrap(), "for {s:?}");
    }
    assert_eq!(modal_rust::remote::json_string("a\u{1}b"), "\"a\\u0001b\"");
}
