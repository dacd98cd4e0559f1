use podci::config::Config;
use podci::config::ConfigError;
use podci::config::Job;
use podci::config::Profile;
use podci::config::Step;
use podci::dict::Dict;

fn step(run: Vec<&str>) -> Step {
    Step {
        run: run.into_iter().map(|s| s.to_string()).collect(),
        workdir: None,
        env: Dict::new(),
    }
}

fn cfg(version: u32, order: Vec<&str>, step_names: Vec<&str>) -> Config {
    let mut steps: Dict<Step> = Dict::new();
    for n in step_names {
        steps.insert(n.to_string(), step(vec!["echo", "hi"]));
    }
    let mut jobs: Dict<Job> = Dict::new();
    jobs.insert(
        "default".to_string(),
        Job {
            profile: "dev".to_string(),
            step_order: order.into_iter().map(|s| s.to_string()).collect(),
            steps,
        },
    );
    let mut profiles: Dict<Profile> = Dict::new();
    profiles.insert(
        "dev".to_string(),
        Profile {
            container: "rust-debian".to_string(),
            env: Dict::new(),
        },
    );
    Config {
        version,
        project: "x".to_string(),
        profiles,
        jobs,
    }
}

#[test]
fn rejects_wrong_version() {
    let c = cfg(2, vec![], vec![]);
    let err = c.validate().unwrap_err();
    assert!(err.message().contains("unsupported config version"));
}

#[test]
fn enforces_step_order_refs() {
    let c = cfg(1, vec!["a"], vec!["b"]);
    let err = c.validate().unwrap_err();
    assert!(err.message().contains("references missing step"));
}

#[test]
fn accepts_minimal_valid() {
    let c = cfg(1, vec!["a"], vec!["a"]);
    assert!(c.validate().is_ok());
    assert_eq!(c.version, 1);
    assert!(c.jobs.contains_key("default"));
}

#[test]
fn rejects_blank_project() {
    let mut c = cfg(1, vec!["a"], vec!["a"]);
    c.project = "  ".to_string();
    assert_eq!(c.validate().unwrap_err(), ConfigError::EmptyProject);
}

#[test]
fn rejects_duplicate_step_in_order() {
    let c = cfg(1, vec!["a", "a"], vec!["a"]);
    let err = c.validate().unwrap_err();
    assert!(err.message().contains("duplicate step"));
}

#[test]
fn rejects_steps_outside_order() {
    let c = cfg(1, vec!["a"], vec!["a", "b"]);
    let err = c.validate().unwrap_err();
    assert!(err.message().contains("not listed in step_order"));
}

#[test]
fn rejects_steps_with_empty_order() {
    let c = cfg(1, vec![], vec!["a"]);
    let err = c.validate().unwrap_err();
    assert!(err.message().contains("has steps but empty step_order"));
}

#[test]
fn rejects_empty_argv() {
    let mut c = cfg(1, vec!["a"], vec![]);
    c.jobs.pairs[0].1.steps.insert("a".to_string(), step(vec![]));
    let err = c.validate().unwrap_err();
    assert!(err.message().contains("has empty run argv"));
}

#[test]
fn rejects_missing_profile() {
    let mut c = cfg(1, vec!["a"], vec!["a"]);
    c.jobs.pairs[0].1.profile = "prod".to_string();
    let err = c.validate().unwrap_err();
    assert!(err.message().contains("references missing profile"));
}

#[test]
fn rejects_empty_profiles_and_jobs() {
    let mut c = cfg(1, vec!["a"], vec!["a"]);
    c.profiles = Dict::new();
    assert_eq!(c.validate().unwrap_err(), ConfigError::NoProfiles);
    let mut c = cfg(1, vec!["a"], vec!["a"]);
    c.jobs = Dict::new();
    assert_eq!(c.validate().unwrap_err(), ConfigError::NoJobs);
}

#[test]
fn job_and_profile_lookup() {
    let c = cfg(1, vec!["a"], vec!["a"]);
    assert!(c.job("default").is_ok());
    assert!(c.profile("dev").is_ok());
    assert!(matches!(c.job("x"), Err(ConfigError::UnknownJob(_))));
    assert!(matches!(c.profile("x"), Err(ConfigError::UnknownProfile(_))));
}
