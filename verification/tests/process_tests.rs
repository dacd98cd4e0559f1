use podci::image::digest_from_status;
use podci::image::digest_status_from_exec;
use podci::image::ImageDigestStatus;
use podci::process::classify_failure;
use podci::process::format_cmd;
use podci::process::trunc_utf8_lossy;
use podci::process::ExecResult;
use podci::process::Podman;
use podci::process::PodmanErrorKind;
use podci::process::PodmanRunError;
use podci::runner::operator_hints_for_error;
use podci::runner::RunError;

#[test]
fn trunc_utf8_lossy_returns_full_when_short() {
    let b = b"hello";
    let s = trunc_utf8_lossy(b, 16);
    assert_eq!(s, "hello");
}

#[test]
fn trunc_utf8_lossy_truncates_tail() {
    let b = b"abcdefghijklmnopqrstuvwxyz";
    let s = trunc_utf8_lossy(b, 5);
    assert!(s.contains("truncated"));
    assert!(s.ends_with("vwxyz"));
}

#[test]
fn trunc_utf8_lossy_replaces_invalid_bytes() {
    let b = [0x68u8, 0x69, 0xff];
    let s = trunc_utf8_lossy(&b, 16);
    assert!(s.starts_with("hi"));
    assert!(s.contains('\u{FFFD}'));
}

#[test]
fn podman_run_error_includes_paths_when_present() {
    let err = PodmanRunError::from_exec(
        "podman run ...".to_string(),
        125,
        b"stdout",
        b"stderr",
        Some("/tmp/stdout.log".to_string()),
        Some("/tmp/stderr.log".to_string()),
    );
    let s = err.message();
    assert!(s.contains("stderr: /tmp/stderr.log"));
    assert!(s.contains("stdout: /tmp/stdout.log"));
}

#[test]
fn operator_hints_detect_podman_error_in_chain() {
    let pe = PodmanRunError {
        kind: PodmanErrorKind::StorageError,
        command: "podman run ...".to_string(),
        status: Some(125),
        stderr_trunc: "storage error".to_string(),
        stdout_trunc: "".to_string(),
        stderr_path: None,
        stdout_path: None,
    };
    let err = RunError::Podman(pe);
    let hints = operator_hints_for_error(&err).unwrap();
    assert!(hints.contains("storage"));
}

#[test]
fn classify_failure_matches_known_substrings() {
    assert_eq!(
        classify_failure(125, b"error: Permission Denied while mounting"),
        PodmanErrorKind::PermissionDenied
    );
    assert_eq!(
        classify_failure(125, b"Error creating container storage: no space"),
        PodmanErrorKind::StorageError
    );
    assert_eq!(
        classify_failure(125, b"a Storage Error occurred"),
        PodmanErrorKind::StorageError
    );
    assert_eq!(
        classify_failure(125, b"writing to /var/lib/containers/storage failed"),
        PodmanErrorKind::StorageError
    );
    assert_eq!(classify_failure(127, b""), PodmanErrorKind::NotInstalled);
    assert_eq!(
        classify_failure(1, b"podman: command not found"),
        PodmanErrorKind::NotInstalled
    );
    assert_eq!(classify_failure(1, b"some other error"), PodmanErrorKind::CommandFailed);
}

#[test]
fn finish_capture_classifies_failures() {
    let p = Podman { path: "/usr/bin/podman".to_string() };
    let ok = p.finish_capture("podman info".to_string(), 0, b"out".to_vec(), b"".to_vec(), 12);
    let r = ok.unwrap();
    assert_eq!(r.exit_code, 0);
    assert_eq!(r.duration_ms, 12);
    assert_eq!(r.stdout, b"out".to_vec());

    let err = p
        .finish_capture("podman info".to_string(), 125, b"".to_vec(), b"permission denied".to_vec(), 5)
        .unwrap_err();
    assert_eq!(err.kind, PodmanErrorKind::PermissionDenied);
    assert_eq!(err.status, Some(125));
}

#[test]
fn format_cmd_joins_with_spaces() {
    let args = vec!["volume".to_string(), "ls".to_string()];
    assert_eq!(format_cmd("/usr/bin/podman", &args), "/usr/bin/podman volume ls");
}

#[test]
fn digest_status_mapping_is_stable() {
    let (d, s) = digest_from_status(ImageDigestStatus::Present("sha256:x".to_string()));
    assert_eq!(d.as_deref(), Some("sha256:x"));
    assert_eq!(s, "present");

    let (d, s) = digest_from_status(ImageDigestStatus::Unavailable);
    assert!(d.is_none());
    assert_eq!(s, "unavailable");

    let (d, s) = digest_from_status(ImageDigestStatus::Error("boom".to_string()));
    assert!(d.is_none());
    assert_eq!(s, "error");
}

#[test]
fn digest_status_from_inspect_output() {
    let ok = ExecResult {
        exit_code: 0,
        duration_ms: 1,
        stdout: b"sha256:abc\n".to_vec(),
        stderr: Vec::new(),
    };
    assert_eq!(
        digest_status_from_exec(&ok),
        ImageDigestStatus::Present("sha256:abc".to_string())
    );

    let empty = ExecResult {
        exit_code: 0,
        duration_ms: 1,
        stdout: b"<no value>\n".to_vec(),
        stderr: Vec::new(),
    };
    assert_eq!(digest_status_from_exec(&empty), ImageDigestStatus::Unavailable);

    let failed = ExecResult {
        exit_code: 1,
        duration_ms: 1,
        stdout: Vec::new(),
        stderr: b"no such image".to_vec(),
    };
    assert!(matches!(digest_status_from_exec(&failed), ImageDigestStatus::Error(_)));
}
