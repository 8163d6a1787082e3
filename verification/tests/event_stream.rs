use sandbox_testing::event::Event;
use sandbox_testing::launcher::{parse_stream, select_output, Test};
use sandbox_testing::parser::parse_line;

#[test]
fn deserialize_cargo_unittest_output() {
    let output = r##"{ "type": "suite", "event": "started", "test_count": 2 }
        { "type": "test", "event": "started", "name": "run_in_docker" }
        { "type": "test", "event": "started", "name": "tests::it_works" }
        { "type": "test", "name": "tests::it_works", "event": "ok" }
        { "type": "test", "name": "run_in_docker", "event": "failed", "stdout": "\nthread 'run_in_docker' panicked at 'test run_in_docker failed', src/lib.rs:41:13\nnote: run with `RUST_BACKTRACE=1` environment variable to display a backtrace\n" }
        { "type": "suite", "event": "failed", "passed": 1, "failed": 1, "allowed_fail": 0, "ignored": 0, "measured": 0, "filtered_out": 0, "exec_time": 0.532127403 }"##;
    for line in output.lines() {
        let entry = parse_line(line);
        assert!(entry.is_ok());
    }
}

#[test]
fn parses_suite_event() {
    let e = parse_line(r#"{"type":"suite","event":"started"}"#).unwrap();
    match e {
        Event::Suite { phase } => assert_eq!(phase, "started"),
        _ => panic!("expected a suite event"),
    }
}

#[test]
fn parses_test_event_with_stdout() {
    let e = parse_line(r#"{"type":"test","event":"ok","name":"t1","stdout":"hello\n"}"#).unwrap();
    match e {
        Event::Test { phase, name, stdout } => {
            assert_eq!(phase, "ok");
            assert_eq!(name, "t1");
            assert_eq!(stdout.as_deref(), Some("hello\n"));
        }
        _ => panic!("expected a test event"),
    }
}

#[test]
fn parses_test_event_without_stdout() {
    let e = parse_line(r#"{"type":"test","event":"started","name":"t1"}"#).unwrap();
    match e {
        Event::Test { phase, name, stdout } => {
            assert_eq!(phase, "started");
            assert_eq!(name, "t1");
            assert!(stdout.is_none());
        }
        _ => panic!("expected a test event"),
    }
}

#[test]
fn decodes_string_escapes() {
    let e = parse_line(r#"{"type":"test","event":"ok","name":"t","stdout":"a\"b\\c\td\r\n"}"#)
        .unwrap();
    match e {
        Event::Test { stdout, .. } => assert_eq!(stdout.as_deref(), Some("a\"b\\c\td\r\n")),
        _ => panic!("expected a test event"),
    }
}

#[test]
fn decodes_unicode_escapes() {
    let e = parse_line(r#"{"type":"test","event":"ok","name":"t","stdout":"\u001b[1mbold\u001b[0m é"}"#)
        .unwrap();
    match e {
        Event::Test { stdout, .. } => {
            assert_eq!(stdout.as_deref(), Some("\u{1b}[1mbold\u{1b}[0m \u{e9}"))
        }
        _ => panic!("expected a test event"),
    }
}

#[test]
fn rejects_surrogate_code_escape() {
    assert!(parse_line(r#"{"type":"test","event":"ok","name":"t","stdout":"\ud800"}"#).is_err());
}

#[test]
fn rejects_malformed_code_escape() {
    assert!(parse_line(r#"{"type":"test","event":"ok","name":"t","stdout":"\u12"}"#).is_err());
    assert!(parse_line(r#"{"type":"test","event":"ok","name":"t","stdout":"\uzzzz"}"#).is_err());
}

#[test]
fn ignores_unknown_members() {
    let e = parse_line(
        r#"{"extra":true,"type":"test","count":-12,"event":"ok","rate":1.5e-3,"name":"t1","note":null}"#,
    )
    .unwrap();
    match e {
        Event::Test { phase, name, stdout } => {
            assert_eq!(phase, "ok");
            assert_eq!(name, "t1");
            assert!(stdout.is_none());
        }
        _ => panic!("expected a test event"),
    }
}

#[test]
fn ignores_nested_unknown_members() {
    let e = parse_line(
        r#"{"meta":{"tags":["a","b"],"note":"has } and ] inside"},"type":"test","event":"ok","name":"t1","slots":[1,[2,3],{}]}"#,
    )
    .unwrap();
    match e {
        Event::Test { phase, name, stdout } => {
            assert_eq!(phase, "ok");
            assert_eq!(name, "t1");
            assert!(stdout.is_none());
        }
        _ => panic!("expected a test event"),
    }
}

#[test]
fn rejects_unbalanced_nested_member() {
    assert!(parse_line(r#"{"meta":{"a":[1,2},"type":"suite","event":"ok"}"#).is_err());
}

#[test]
fn first_member_wins_on_repeated_key() {
    let e = parse_line(r#"{"type":"test","event":"ok","event":"failed","name":"t"}"#).unwrap();
    match e {
        Event::Test { phase, .. } => assert_eq!(phase, "ok"),
        _ => panic!("expected a test event"),
    }
}

#[test]
fn rejects_unstructured_line() {
    assert!(parse_line("this is not a structured event").is_err());
}

#[test]
fn rejects_unclosed_string() {
    assert!(parse_line(r#"{"type":"suite","event":"started"#).is_err());
}

#[test]
fn rejects_missing_discriminator() {
    assert!(parse_line(r#"{"event":"started"}"#).is_err());
}

#[test]
fn rejects_unknown_discriminator() {
    assert!(parse_line(r#"{"type":"bench","event":"started"}"#).is_err());
}

#[test]
fn rejects_test_event_without_name() {
    assert!(parse_line(r#"{"type":"test","event":"ok"}"#).is_err());
}

#[test]
fn rejects_non_string_stdout() {
    assert!(parse_line(r#"{"type":"test","event":"ok","name":"t","stdout":null}"#).is_err());
}

#[test]
fn rejects_trailing_text() {
    assert!(parse_line(r#"{"type":"suite","event":"ok"} extra"#).is_err());
}

fn stream(lines: &[&str]) -> Vec<String> {
    lines.iter().map(|l| l.to_string()).collect()
}

#[test]
fn stream_round_trip_relays_exact_output() {
    let lines = stream(&[
        r#"{"type":"suite","event":"started","test_count":3}"#,
        r#"{"type":"test","event":"started","name":"other"}"#,
        r#"{"type":"test","event":"ok","name":"other","stdout":"noise"}"#,
        r#"{"type":"test","event":"started","name":"target"}"#,
        r#"{"type":"test","event":"failed","name":"target","stdout":"X"}"#,
        r#"{"type":"suite","event":"failed"}"#,
    ]);
    let t = Test::new("target".to_string());
    assert_eq!(t.relay_output(&lines).unwrap(), "X");
}

#[test]
fn stream_first_terminal_event_wins() {
    let lines = stream(&[
        r#"{"type":"test","event":"failed","name":"t1","stdout":"first run"}"#,
        r#"{"type":"test","event":"ok","name":"t1","stdout":"second run"}"#,
    ]);
    let t = Test::new("t1".to_string());
    assert_eq!(t.relay_output(&lines).unwrap(), "first run");
}

#[test]
fn stream_without_match_relays_nothing() {
    let lines = stream(&[
        r#"{"type":"suite","event":"started"}"#,
        r#"{"type":"test","event":"started","name":"t1"}"#,
    ]);
    let t = Test::new("t1".to_string());
    assert_eq!(t.relay_output(&lines).unwrap(), "");
}

#[test]
fn stream_terminal_event_without_stdout_relays_empty() {
    let lines = stream(&[r#"{"type":"test","event":"ok","name":"t1"}"#]);
    let t = Test::new("t1".to_string());
    assert_eq!(t.relay_output(&lines).unwrap(), "");
}

#[test]
fn malformed_line_is_fatal_not_skipped() {
    let lines = stream(&[
        r#"{"type":"suite","event":"started"}"#,
        "garbage",
        r#"{"type":"test","event":"ok","name":"t1","stdout":"hello"}"#,
    ]);
    let err = parse_stream(&lines).unwrap_err();
    assert_eq!(err.line_index, 1);
    let t = Test::new("t1".to_string());
    assert_eq!(t.relay_output(&lines).unwrap_err().line_index, 1);
}

#[test]
fn malformed_line_after_match_is_still_fatal() {
    let lines = stream(&[
        r#"{"type":"test","event":"ok","name":"t1","stdout":"hello"}"#,
        "{broken",
    ]);
    let t = Test::new("t1".to_string());
    assert_eq!(t.relay_output(&lines).unwrap_err().line_index, 1);
}

#[test]
fn select_output_takes_first_terminal_match() {
    let events = vec![
        parse_line(r#"{"type":"test","event":"started","name":"t"}"#).unwrap(),
        parse_line(r#"{"type":"test","event":"failed","name":"t","stdout":"a"}"#).unwrap(),
        parse_line(r#"{"type":"test","event":"ok","name":"t","stdout":"b"}"#).unwrap(),
    ];
    assert_eq!(select_output(&events, "t"), "a");
    assert_eq!(select_output(&events, "missing"), "");
}
