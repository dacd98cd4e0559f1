use podci::config::Config;
use podci::config::Job;
use podci::config::Profile;
use podci::config::Step;
use podci::dict::Dict;
use podci::fingerprint::compute_env_id;
use podci::namespace::namespace_from;

fn cfg_base() -> Config {
    let mut steps: Dict<Step> = Dict::new();
    steps.insert(
        "fmt".to_string(),
        Step {
            run: vec![
                "cargo".to_string(),
                "fmt".to_string(),
                "--all".to_string(),
                "--".to_string(),
                "--check".to_string(),
            ],
            workdir: None,
            env: Dict::new(),
        },
    );
    let mut jobs: Dict<Job> = Dict::new();
    jobs.insert(
        "default".to_string(),
        Job {
            profile: "dev".to_string(),
            step_order: vec!["fmt".to_string()],
            steps,
        },
    );
    let mut profiles: Dict<Profile> = Dict::new();
    profiles.insert(
        "dev".to_string(),
        Profile {
            container: "rust-debian".to_string(),
            env: Dict::new(),
        },
    );
    let cfg = Config {
        version: 1,
        project: "x".to_string(),
        profiles,
        jobs,
    };
    assert!(cfg.validate().is_ok());
    cfg
}

#[test]
fn env_id_is_deterministic() {
    let cfg = cfg_base();
    let a = compute_env_id(&cfg, "default", "dev").unwrap();
    let b = compute_env_id(&cfg, "default", "dev").unwrap();
    assert_eq!(a, b);
}

#[test]
fn env_id_changes_when_step_run_changes() {
    let mut cfg = cfg_base();
    let a = compute_env_id(&cfg, "default", "dev").unwrap();
    cfg.jobs.pairs[0].1.steps.pairs[0].1.run.push("--verbose".to_string());
    let b = compute_env_id(&cfg, "default", "dev").unwrap();
    assert_ne!(a, b);
}

#[test]
fn env_id_changes_when_container_changes() {
    let mut cfg = cfg_base();
    let a = compute_env_id(&cfg, "default", "dev").unwrap();
    cfg.profiles.pairs[0].1.container = "rust-alpine".to_string();
    let b = compute_env_id(&cfg, "default", "dev").unwrap();
    assert_ne!(a, b);
}

#[test]
fn env_id_changes_when_profile_env_changes() {
    let mut cfg = cfg_base();
    let a = compute_env_id(&cfg, "default", "dev").unwrap();
    cfg.profiles.pairs[0].1.env.insert("RUSTFLAGS".to_string(), "-C target-cpu=native".to_string());
    let b = compute_env_id(&cfg, "default", "dev").unwrap();
    assert_ne!(a, b);
}

#[test]
fn env_id_profile_env_is_order_insensitive() {
    let mut cfg1 = cfg_base();
    cfg1.profiles.pairs[0].1.env.insert("A".to_string(), "1".to_string());
    cfg1.profiles.pairs[0].1.env.insert("B".to_string(), "2".to_string());

    let mut cfg2 = cfg_base();
    cfg2.profiles.pairs[0].1.env.insert("B".to_string(), "2".to_string());
    cfg2.profiles.pairs[0].1.env.insert("A".to_string(), "1".to_string());

    let a = compute_env_id(&cfg1, "default", "dev").unwrap();
    let b = compute_env_id(&cfg2, "default", "dev").unwrap();
    assert_eq!(a, b);
}

#[test]
fn env_id_is_a_hex_digest() {
    let cfg = cfg_base();
    let a = compute_env_id(&cfg, "default", "dev").unwrap();
    assert_eq!(a.len(), 64);
    assert!(a.chars().all(|c| c.is_ascii_hexdigit()));
    // The digest is not the rendered text itself.
    assert!(!a.contains("rust-debian"));
}

#[test]
fn env_id_rejects_unknown_job_and_profile() {
    let cfg = cfg_base();
    let e = compute_env_id(&cfg, "nope", "dev").unwrap_err();
    assert!(e.message().contains("unknown job"));
    let e = compute_env_id(&cfg, "default", "nope").unwrap_err();
    assert!(e.message().contains("unknown profile"));
}

#[test]
fn namespace_includes_project_job_and_env_prefix() {
    let cfg = cfg_base();
    let env_id = compute_env_id(&cfg, "default", "dev").unwrap();
    let ns = namespace_from(&cfg.project, "default", &env_id);
    assert!(ns.starts_with("podci_"));
    assert!(ns.contains("_x_"));
    assert!(ns.contains("_default_"));
    assert!(ns.ends_with(&env_id[..12]));
}

#[test]
fn namespace_folds_unsafe_characters() {
    let ns = namespace_from("My Proj", "J@b", "abcdef0123456789");
    assert_eq!(ns, "podci_my_proj_j_b_abcdef012345");
}
