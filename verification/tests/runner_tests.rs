use podci::config::Job;
use podci::config::Step;
use podci::dict::Dict;
use podci::process::ExecResult;
use podci::runner::build_podman_run_args;
use podci::runner::resolve_workdir;
use podci::runner::sanitize_for_filename;
use podci::runner::shell_quote;
use podci::runner::volume_labels;
use podci::runner::volume_names;
use podci::runner::RunAction;
use podci::runner::RunError;
use podci::runner::RunState;

#[test]
fn podman_args_enforce_cargo_home_and_selinux_labels() {
    let argv = vec!["cargo".to_string(), "test".to_string()];
    let env = vec![("RUST_LOG".to_string(), "info".to_string())];
    let args = build_podman_run_args(
        "/repo",
        "/work",
        "podci_ns_cargo_registry",
        "podci_ns_cargo_git",
        "podci_ns_target",
        "rust-debian",
        &env,
        &argv,
    );
    assert!(args.iter().any(|a| a == "--userns=keep-id"));
    assert!(args.iter().any(|a| a == "CARGO_HOME=/usr/local/cargo"));
    assert!(args.iter().any(|a| a.contains(":/usr/local/cargo/registry:Z")));
    assert!(args.iter().any(|a| a.contains(":/usr/local/cargo/git:Z")));
    assert!(args.iter().any(|a| a.contains(":/work/target:Z")));
    assert!(args.iter().any(|a| a == "RUST_LOG=info"));
    assert_eq!(args.last().unwrap(), "test");
}

#[test]
fn run_short_circuits_on_failure() {
    let planned = vec!["a".to_string(), "b".to_string()];
    let mut st = RunState::new();
    assert_eq!(st.next_action(&planned), RunAction::RunStep(0));

    let exec = ExecResult {
        exit_code: 2,
        duration_ms: 40,
        stdout: Vec::new(),
        stderr: b"boom".to_vec(),
    };
    let cont = st.record_step_completed(
        &"a".to_string(),
        vec!["false".to_string()],
        "podman run ...".to_string(),
        &exec,
        "logs/a.stdout".to_string(),
        "logs/a.stderr".to_string(),
        "/state/logs/a.stdout".to_string(),
        "/state/logs/a.stderr".to_string(),
    );
    assert!(!cont);
    assert_eq!(st.next_action(&planned), RunAction::Finish);

    let m = st.finish_manifest(
        "podci-manifest.v1".to_string(),
        "0.1.0".to_string(),
        "2026-01-01T00:00:00+00:00".to_string(),
        "x".to_string(),
        "default".to_string(),
        "dev".to_string(),
        "podci_x_default_abc".to_string(),
        "abc".to_string(),
        None,
        None,
    );
    assert_eq!(m.steps.len(), 1);
    assert_eq!(m.steps[0].name, "a");
    assert_eq!(m.steps[0].exit_code, Some(2));
    assert!(!m.result.ok);
    assert_eq!(m.result.exit_code, 2);
    assert!(m.result.error.as_ref().unwrap().contains("step 'a' failed"));
}

#[test]
fn run_completes_when_all_steps_succeed() {
    let planned = vec!["a".to_string()];
    let mut st = RunState::new();
    let exec = ExecResult { exit_code: 0, duration_ms: 3, stdout: Vec::new(), stderr: Vec::new() };
    let cont = st.record_step_completed(
        &"a".to_string(),
        vec!["true".to_string()],
        "podman run ...".to_string(),
        &exec,
        "logs/a.stdout".to_string(),
        "logs/a.stderr".to_string(),
        "/state/logs/a.stdout".to_string(),
        "/state/logs/a.stderr".to_string(),
    );
    assert!(cont);
    assert_eq!(st.next_action(&planned), RunAction::Finish);
    let m = st.finish_manifest(
        "podci-manifest.v1".to_string(),
        "0.1.0".to_string(),
        "t".to_string(),
        "x".to_string(),
        "default".to_string(),
        "dev".to_string(),
        "ns".to_string(),
        "e".to_string(),
        Some("sha256:d".to_string()),
        Some("present".to_string()),
    );
    assert!(m.result.ok);
    assert_eq!(m.result.exit_code, 0);
    assert!(m.result.error.is_none());
}

#[test]
fn dry_run_records_synthetic_success() {
    let mut st = RunState::new();
    st.record_dry_run(&"a".to_string(), &vec!["echo".to_string()]);
    let m = st.finish_manifest(
        "podci-manifest.v1".to_string(),
        "0.1.0".to_string(),
        "t".to_string(),
        "x".to_string(),
        "default".to_string(),
        "dev".to_string(),
        "ns".to_string(),
        "e".to_string(),
        None,
        None,
    );
    assert_eq!(m.steps.len(), 1);
    assert_eq!(m.steps[0].exit_code, Some(0));
    assert!(m.steps[0].duration_ms.is_none());
    assert!(m.steps[0].stdout_path.is_none());
    assert!(m.result.ok);
}

#[test]
fn step_process_errors_stop_the_run() {
    let mut st = RunState::new();
    st.record_step_error(&"a".to_string(), vec!["x".to_string()], 7, "podman timed out");
    let m = st.finish_manifest(
        "podci-manifest.v1".to_string(),
        "0.1.0".to_string(),
        "t".to_string(),
        "x".to_string(),
        "default".to_string(),
        "dev".to_string(),
        "ns".to_string(),
        "e".to_string(),
        None,
        None,
    );
    assert!(!m.result.ok);
    assert_eq!(m.result.exit_code, 1);
    assert_eq!(m.steps[0].exit_code, Some(1));
    assert_eq!(
        m.result.error.as_deref(),
        Some("step 'a' failed: podman timed out")
    );
}

#[test]
fn steps_to_run_checks_names_against_the_step_map() {
    let mut steps: Dict<Step> = Dict::new();
    steps.insert(
        "a".to_string(),
        Step { run: vec!["true".to_string()], workdir: None, env: Dict::new() },
    );
    let job = Job {
        profile: "dev".to_string(),
        step_order: vec!["a".to_string()],
        steps,
    };
    let all = podci::runner::steps_to_run(&job, &"default".to_string(), None).unwrap();
    assert_eq!(all, vec!["a".to_string()]);
    let one = podci::runner::steps_to_run(&job, &"default".to_string(), Some("a")).unwrap();
    assert_eq!(one, vec!["a".to_string()]);
    let err = podci::runner::steps_to_run(&job, &"default".to_string(), Some("b")).unwrap_err();
    match err {
        RunError::UnknownStep(s, j) => {
            assert_eq!(s, "b");
            assert_eq!(j, "default");
        }
        other => panic!("expected an unknown-step error, got {other:?}"),
    }
}

#[test]
fn steps_to_run_names_the_first_missing_step_in_order() {
    let mut steps: Dict<Step> = Dict::new();
    steps.insert(
        "a".to_string(),
        Step { run: vec!["true".to_string()], workdir: None, env: Dict::new() },
    );
    let job = Job {
        profile: "dev".to_string(),
        step_order: vec!["a".to_string(), "c".to_string(), "d".to_string()],
        steps,
    };
    let err = podci::runner::steps_to_run(&job, &"default".to_string(), None).unwrap_err();
    match err {
        RunError::UnknownStep(s, j) => {
            assert_eq!(s, "c");
            assert_eq!(j, "default");
        }
        other => panic!("expected an unknown-step error, got {other:?}"),
    }
}

#[test]
fn shell_quote_quotes_unsafe_arguments() {
    let argv = vec!["cargo".to_string(), "test".to_string()];
    assert_eq!(shell_quote(&argv), "cargo test");
    let argv = vec!["echo".to_string(), "hello world".to_string()];
    assert_eq!(shell_quote(&argv), "echo 'hello world'");
    let argv = vec!["echo".to_string(), "it's".to_string()];
    assert_eq!(shell_quote(&argv), "echo 'it'\\''s'");
}

#[test]
fn sanitize_for_filename_replaces_and_falls_back() {
    assert_eq!(sanitize_for_filename("build all"), "build_all");
    assert_eq!(sanitize_for_filename("a/b:c"), "a_b_c");
    assert_eq!(sanitize_for_filename("ok-step_1.x"), "ok-step_1.x");
    assert_eq!(sanitize_for_filename(""), "step");
}

#[test]
fn resolve_workdir_validates_paths() {
    assert_eq!(resolve_workdir(None).unwrap(), "/work");
    assert_eq!(resolve_workdir(Some("crates/app")).unwrap(), "/work/crates/app");
    assert!(matches!(
        resolve_workdir(Some("/abs")),
        Err(RunError::WorkdirAbsolute(_))
    ));
    assert!(matches!(
        resolve_workdir(Some("a/../b")),
        Err(RunError::WorkdirParent(_))
    ));
}

#[test]
fn volume_names_and_labels_follow_the_schema() {
    let (reg, git, target) = volume_names("podci_ns");
    assert_eq!(reg, "podci_ns_cargo_registry");
    assert_eq!(git, "podci_ns_cargo_git");
    assert_eq!(target, "podci_ns_target");

    let labels = volume_labels("podci_ns", "envid", "cargo_registry");
    assert_eq!(labels.len(), 4);
    assert_eq!(labels[0], ("podci.managed".to_string(), "true".to_string()));
    assert_eq!(labels[1], ("podci.namespace".to_string(), "podci_ns".to_string()));
    assert_eq!(labels[2], ("podci.env_id".to_string(), "envid".to_string()));
    assert_eq!(labels[3], ("podci.volume_kind".to_string(), "cargo_registry".to_string()));
}
