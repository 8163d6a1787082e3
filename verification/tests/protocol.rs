use sandbox_testing::guard::{follow_up, guard_decision, FollowUp, GuardDecision};
use sandbox_testing::identity::test_name_from_symbol;
use sandbox_testing::launcher::{relative_to_root, sandbox_binary_path, Test};
use sandbox_testing::sandbox_marker_name;
use sandbox_testing::suppressor::{Disposition, Suppressor};

#[test]
fn concrete_stream_scenario() {
    let lines: Vec<String> = vec![
        r#"{"type":"suite","event":"started"}"#.to_string(),
        r#"{"type":"test","event":"started","name":"t1"}"#.to_string(),
        r#"{"type":"test","event":"ok","name":"t1","stdout":"hello\n"}"#.to_string(),
        r#"{"type":"suite","event":"ok"}"#.to_string(),
    ];
    let t = Test::new("t1".to_string());
    assert_eq!(t.relay_output(&lines).unwrap(), "hello\n");
    // The exit status alone decides the follow-up, independent of the
    // per-test phase text.
    assert_eq!(follow_up(true), FollowUp::ReturnPass);
    assert_eq!(follow_up(false), FollowUp::RaiseSuppressedFailure);
}

#[test]
fn resolves_test_name_from_marker_symbol() {
    assert_eq!(
        test_name_from_symbol("sandbox_testing::my_test::f").as_deref(),
        Some("my_test")
    );
    assert_eq!(
        test_name_from_symbol("my_crate::tests::it_works::f").as_deref(),
        Some("tests::it_works")
    );
}

#[test]
fn rejects_symbol_without_separator() {
    assert!(test_name_from_symbol("abc::f").is_none());
    assert!(test_name_from_symbol("f").is_none());
    assert!(test_name_from_symbol("").is_none());
}

#[test]
fn guard_branches_on_marker() {
    assert_eq!(guard_decision(true), GuardDecision::RunDirectly);
    assert_eq!(guard_decision(false), GuardDecision::Relaunch);
}

#[test]
fn suppressor_silences_only_sentinel_after_install() {
    let mut s = Suppressor::new();
    assert_eq!(s.handle(true), Disposition::Delegated);
    assert_eq!(s.handle(false), Disposition::Delegated);
    s.install();
    assert_eq!(s.handle(true), Disposition::Silenced);
    assert_eq!(s.handle(false), Disposition::Delegated);
}

#[test]
fn suppressor_install_is_idempotent() {
    let mut once = Suppressor::new();
    once.install();
    let mut many = Suppressor::new();
    many.install();
    many.install();
    many.install();
    assert_eq!(once, many);
    assert_eq!(many.handle(true), Disposition::Silenced);
    assert_eq!(many.handle(false), Disposition::Delegated);
}

#[test]
fn relocates_binary_under_project_root() {
    assert_eq!(
        relative_to_root("/proj/target/debug/suite", "/proj").as_deref(),
        Some("/target/debug/suite")
    );
    assert_eq!(relative_to_root("/proj", "/proj").as_deref(), Some(""));
    assert!(relative_to_root("/elsewhere/suite", "/proj").is_none());
    assert!(relative_to_root("/p", "/proj").is_none());
}

#[test]
fn sandbox_path_prefixes_app_mount() {
    assert_eq!(
        sandbox_binary_path("/target/debug/suite"),
        "/app//target/debug/suite"
    );
    assert_eq!(sandbox_binary_path("bin"), "/app/bin");
}

#[test]
fn marker_name_is_stable() {
    assert_eq!(sandbox_marker_name(), "SANDBOX_TESTING_RUNNING_IN_SANDBOX");
}

#[test]
fn composes_full_invocation() {
    let t = Test::new("my_test".to_string());
    let extra: Vec<String> = vec!["--env".to_string(), "HELLO=WORLD".to_string()];
    let args = t.invocation_args(
        "ubuntu:latest",
        "/proj",
        "/app//target/debug/suite",
        &extra,
    );
    let expected: Vec<String> = [
        "run",
        "--rm",
        "-v",
        "/proj:/app:ro",
        "--env",
        "SANDBOX_TESTING_RUNNING_IN_SANDBOX=1",
        "--env",
        "HELLO=WORLD",
        "ubuntu:latest",
        "/app//target/debug/suite",
        "my_test",
        "--exact",
        "--show-output",
        "-Zunstable-options",
        "--format",
        "json",
    ]
    .iter()
    .map(|s| s.to_string())
    .collect();
    assert_eq!(args, expected);
}

#[test]
fn composes_invocation_without_extra_args() {
    let t = Test::new("t".to_string());
    let extra: Vec<String> = Vec::new();
    let args = t.invocation_args("img", "/p", "/app/b", &extra);
    assert_eq!(args.len(), 14);
    assert_eq!(args[6], "img");
    assert_eq!(args[7], "/app/b");
    assert_eq!(args[8], "t");
}
