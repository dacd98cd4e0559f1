use podci::json::manifest_from_json;
use podci::json::manifest_to_json;
use podci::manifest::manifest_schema_v1;
use podci::manifest::new_run_id;
use podci::manifest::ManifestResultV1;
use podci::manifest::ManifestStepV1;
use podci::manifest::ManifestV1;

fn sample_manifest() -> ManifestV1 {
    ManifestV1 {
        schema: manifest_schema_v1().to_string(),
        podci_version: "0.1.0".to_string(),
        timestamp_utc: "2026-01-02T03:04:05+00:00".to_string(),
        project: "x".to_string(),
        job: "default".to_string(),
        profile: "dev".to_string(),
        namespace: "podci_x_default_abcdef012345".to_string(),
        env_id: "abcdef0123456789".to_string(),
        base_image_digest: Some("sha256:deadbeef".to_string()),
        base_image_digest_status: Some("present".to_string()),
        steps: vec![
            ManifestStepV1 {
                name: "fmt".to_string(),
                argv: vec!["cargo".to_string(), "fmt".to_string()],
                duration_ms: Some(1234),
                exit_code: Some(0),
                stdout_path: Some("logs/fmt.stdout".to_string()),
                stderr_path: Some("logs/fmt.stderr".to_string()),
            },
            ManifestStepV1 {
                name: "test".to_string(),
                argv: vec!["cargo".to_string(), "test".to_string()],
                duration_ms: Some(9876),
                exit_code: Some(-1),
                stdout_path: None,
                stderr_path: None,
            },
        ],
        result: ManifestResultV1 {
            ok: false,
            exit_code: -1,
            error: Some("step 'test' failed: boom".to_string()),
        },
    }
}

fn assert_manifests_equal(a: &ManifestV1, b: &ManifestV1) {
    assert_eq!(a.schema, b.schema);
    assert_eq!(a.podci_version, b.podci_version);
    assert_eq!(a.timestamp_utc, b.timestamp_utc);
    assert_eq!(a.project, b.project);
    assert_eq!(a.job, b.job);
    assert_eq!(a.profile, b.profile);
    assert_eq!(a.namespace, b.namespace);
    assert_eq!(a.env_id, b.env_id);
    assert_eq!(a.base_image_digest, b.base_image_digest);
    assert_eq!(a.base_image_digest_status, b.base_image_digest_status);
    assert_eq!(a.steps.len(), b.steps.len());
    for (s, t) in a.steps.iter().zip(b.steps.iter()) {
        assert_eq!(s.name, t.name);
        assert_eq!(s.argv, t.argv);
        assert_eq!(s.duration_ms, t.duration_ms);
        assert_eq!(s.exit_code, t.exit_code);
        assert_eq!(s.stdout_path, t.stdout_path);
        assert_eq!(s.stderr_path, t.stderr_path);
    }
    assert_eq!(a.result.ok, b.result.ok);
    assert_eq!(a.result.exit_code, b.result.exit_code);
    assert_eq!(a.result.error, b.result.error);
}

#[test]
fn manifest_round_trips_through_json() {
    let m = sample_manifest();
    let text = manifest_to_json(&m);
    assert!(text.starts_with("{\"schema\":\"podci-manifest.v1\""));
    let back = manifest_from_json(&text).expect("canonical manifest parses");
    assert_manifests_equal(&m, &back);
}

#[test]
fn manifest_round_trips_awkward_strings() {
    let mut m = sample_manifest();
    m.project = "quote \" backslash \\ newline \n tab \t done".to_string();
    m.result.error = Some("control \u{1} char and unicode \u{00e9}".to_string());
    m.steps[0].argv = vec!["printf".to_string(), "a\"b\\c".to_string()];
    let text = manifest_to_json(&m);
    let back = manifest_from_json(&text).expect("escaped manifest parses");
    assert_manifests_equal(&m, &back);
}

#[test]
fn manifest_parser_rejects_noncanonical_text() {
    assert!(manifest_from_json("").is_none());
    assert!(manifest_from_json("{}").is_none());
    let m = sample_manifest();
    let text = manifest_to_json(&m);
    let mut padded = text.clone();
    padded.push(' ');
    assert!(manifest_from_json(&padded).is_none());
}

#[test]
fn run_ids_are_timestamped_with_random_suffix() {
    let id = new_run_id();
    let chars: Vec<char> = id.chars().collect();
    assert_eq!(chars.len(), 27);
    assert!(chars[0..8].iter().all(|c| c.is_ascii_digit()));
    assert_eq!(chars[8], 'T');
    assert!(chars[9..15].iter().all(|c| c.is_ascii_digit()));
    assert_eq!(chars[15], 'Z');
    assert_eq!(chars[16], '-');
    assert!(chars[17..27].iter().all(|c| c.is_ascii_alphanumeric()));
    let other = new_run_id();
    assert_ne!(id[17..], other[17..]);
}

#[test]
fn schema_marker_is_versioned() {
    assert_eq!(manifest_schema_v1(), "podci-manifest.v1");
}
