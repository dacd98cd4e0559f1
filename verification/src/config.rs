//! The validated job/profile/step configuration model.
//!
//! A configuration arrives from the outside world already parsed into
//! plain values; `validate` establishes the invariants the rest of
//! the system relies on: the version is supported, every job's
//! profile exists, the step order is duplicate-free and in one-to-one
//! correspondence with the step map, and every step has a non-empty
//! argv.

use vstd::prelude::*;

use crate::dict::Dict;
use crate::dict::has_key;
use crate::dict::lookup;
use crate::text::chars_to_string;
use crate::text::push_str_chars;
use crate::text::push_u64_dec;
use crate::text::str_eq;
use crate::text::u64_dec;

verus! {

/// One build/test step: an argv, an optional working directory
/// relative to the repository root, and environment overrides.
pub struct Step {
    pub run: Vec<String>,
    pub workdir: Option<String>,
    pub env: Dict<String>,
}

/// A profile: the container reference to run in, and the base
/// environment.
pub struct Profile {
    pub container: String,
    pub env: Dict<String>,
}

/// A job: the profile it runs under, the order of its steps, and the
/// step definitions keyed by name.
pub struct Job {
    pub profile: String,
    pub step_order: Vec<String>,
    pub steps: Dict<Step>,
}

/// A whole configuration.
pub struct Config {
    pub version: u32,
    pub project: String,
    pub profiles: Dict<Profile>,
    pub jobs: Dict<Job>,
}

/// The ways a configuration can be rejected.
#[derive(Debug, Clone, PartialEq, Eq)]
pub enum ConfigError {
    UnsupportedVersion(u32),
    EmptyProject,
    NoProfiles,
    NoJobs,
    MissingProfile(String, String),
    StepsWithoutOrder(String),
    DuplicateStep(String, String),
    MissingStep(String, String),
    ExtraSteps(String, String),
    EmptyArgv(String, String),
    UnknownJob(String),
    UnknownProfile(String),
}

/// ASCII whitespace, the characters `trim`-style blankness ignores.
pub open spec fn is_space_char(c: char) -> bool {
    c == ' ' || c == '\t' || c == '\n' || c == '\r' || (c as u32) == 11 || (c as u32) == 12
}

/// A string is blank when every character is whitespace.
pub open spec fn is_blank(s: Seq<char>) -> bool {
    forall|i: int| 0 <= i < s.len() ==> is_space_char(#[trigger] s[i])
}

/// Whether some entry of `order` reads `k`.
pub open spec fn in_order(order: Seq<String>, k: Seq<char>) -> bool {
    exists|i: int| 0 <= i < order.len() && order[i]@ == k
}

/// Scan of a job's step order from position `i`: the first duplicate
/// or dangling step name decides the error.
pub open spec fn order_check_from(job_name: String, job: Job, i: int) -> Result<(), ConfigError>
    decreases job.step_order.len() - i,
{
    if i < 0 || i >= job.step_order.len() {
        Ok(())
    } else if exists|j: int| 0 <= j < i && job.step_order[j]@ == job.step_order[i]@ {
        Err(ConfigError::DuplicateStep(job_name, job.step_order[i]))
    } else if !has_key(job.steps.pairs@, job.step_order[i]@) {
        Err(ConfigError::MissingStep(job_name, job.step_order[i]))
    } else {
        order_check_from(job_name, job, i + 1)
    }
}

/// Scan of a job's step map from position `i`: the first step name
/// not listed in the step order decides the error.
pub open spec fn extras_check_from(job_name: String, job: Job, i: int) -> Result<(), ConfigError>
    decreases job.steps.pairs.len() - i,
{
    if i < 0 || i >= job.steps.pairs.len() {
        Ok(())
    } else if !in_order(job.step_order@, job.steps.pairs[i].0@) {
        Err(ConfigError::ExtraSteps(job_name, job.steps.pairs[i].0))
    } else {
        extras_check_from(job_name, job, i + 1)
    }
}

/// Scan of a job's step map from position `i`: the first step with an
/// empty argv decides the error.
pub open spec fn argv_check_from(job_name: String, job: Job, i: int) -> Result<(), ConfigError>
    decreases job.steps.pairs.len() - i,
{
    if i < 0 || i >= job.steps.pairs.len() {
        Ok(())
    } else if job.steps.pairs[i].1.run@.len() == 0 {
        Err(ConfigError::EmptyArgv(job_name, job.steps.pairs[i].0))
    } else {
        argv_check_from(job_name, job, i + 1)
    }
}

/// The full step-order check for one job.
pub open spec fn step_order_check(job_name: String, job: Job) -> Result<(), ConfigError> {
    if job.step_order@.len() == 0 {
        if job.steps.pairs@.len() != 0 {
            Err(ConfigError::StepsWithoutOrder(job_name))
        } else {
            Ok(())
        }
    } else {
        match order_check_from(job_name, job, 0) {
            Err(e) => Err(e),
            Ok(()) => match extras_check_from(job_name, job, 0) {
                Err(e) => Err(e),
                Ok(()) => argv_check_from(job_name, job, 0),
            },
        }
    }
}

/// Scan of the jobs from position `i`: the first job whose profile is
/// missing or whose step order is ill-formed decides the error.
pub open spec fn jobs_check_from(c: Config, i: int) -> Result<(), ConfigError>
    decreases c.jobs.pairs.len() - i,
{
    if i < 0 || i >= c.jobs.pairs.len() {
        Ok(())
    } else if !has_key(c.profiles.pairs@, c.jobs.pairs[i].1.profile@) {
        Err(ConfigError::MissingProfile(c.jobs.pairs[i].0, c.jobs.pairs[i].1.profile))
    } else {
        match step_order_check(c.jobs.pairs[i].0, c.jobs.pairs[i].1) {
            Err(e) => Err(e),
            Ok(()) => jobs_check_from(c, i + 1),
        }
    }
}

/// What `Config::validate` decides, check by check.
pub open spec fn validate_spec(c: Config) -> Result<(), ConfigError> {
    if c.version != 1 {
        Err(ConfigError::UnsupportedVersion(c.version))
    } else if is_blank(c.project@) {
        Err(ConfigError::EmptyProject)
    } else if c.profiles.pairs@.len() == 0 {
        Err(ConfigError::NoProfiles)
    } else if c.jobs.pairs@.len() == 0 {
        Err(ConfigError::NoJobs)
    } else {
        jobs_check_from(c, 0)
    }
}

/// Whether a string is empty or all whitespace.
pub fn str_is_blank(s: &str) -> (r: bool)
    ensures
        r == is_blank(s@),
{
    let n: usize = s.unicode_len();
    let mut i: usize = 0;
    while i < n
        invariant
            n == s@.len(),
            i <= n,
            forall|j: int| 0 <= j < i ==> is_space_char(#[trigger] s@[j]),
        decreases n - i,
    {
        let c = s.get_char(i);
        let u = c as u32;
        if !(c == ' ' || c == '\t' || c == '\n' || c == '\r' || u == 11 || u == 12) {
            return false;
        }
        i = i + 1;
    }
    true
}

/// Whether some entry of `v` reads `k`.
pub fn strs_contain(v: &Vec<String>, k: &str) -> (r: bool)
    ensures
        r == in_order(v@, k@),
{
    let n = v.len();
    let mut i: usize = 0;
    while i < n
        invariant
            n == v@.len(),
            i <= n,
            forall|j: int| 0 <= j < i ==> v@[j]@ != k@,
        decreases n - i,
    {
        if str_eq(v[i].as_str(), k) {
            return true;
        }
        i = i + 1;
    }
    false
}

/// Check one job's step order against its step map: the order must be
/// duplicate-free, reference only defined steps, cover every defined
/// step, and every step must have a non-empty argv.
pub fn validate_step_order(job_name: &String, job: &Job) -> (r: Result<(), ConfigError>)
    ensures
        r == step_order_check(*job_name, *job),
{
    let n = job.step_order.len();
    if n == 0 {
        if !job.steps.is_empty() {
            return Err(ConfigError::StepsWithoutOrder(job_name.clone()));
        }
        return Ok(());
    }
    let mut i: usize = 0;
    while i < n
        invariant
            n == job.step_order@.len(),
            i <= n,
            order_check_from(*job_name, *job, 0) == order_check_from(*job_name, *job, i as int),
        decreases n - i,
    {
        let s = &job.step_order[i];
        let ghost ii = i as int;
        let mut j: usize = 0;
        while j < i
            invariant
                i < n,
                n == job.step_order@.len(),
                ii == i as int,
                j <= i,
                *s == job.step_order@[ii],
                order_check_from(*job_name, *job, 0) == order_check_from(*job_name, *job, ii),
                forall|j2: int| 0 <= j2 < j ==> job.step_order@[j2]@ != job.step_order@[ii]@,
            decreases i - j,
        {
            if str_eq(job.step_order[j].as_str(), s.as_str()) {
                proof {
                    assert(exists|j2: int|
                        0 <= j2 < ii && job.step_order@[j2]@ == job.step_order@[ii]@);
                    assert(order_check_from(*job_name, *job, ii) == Err::<(), ConfigError>(
                        ConfigError::DuplicateStep(*job_name, job.step_order@[ii]),
                    ));
                }
                return Err(ConfigError::DuplicateStep(job_name.clone(), s.clone()));
            }
            j = j + 1;
        }
        proof {
            assert(!(exists|j2: int|
                0 <= j2 < ii && job.step_order@[j2]@ == job.step_order@[ii]@));
        }
        if !job.steps.contains_key(s.as_str()) {
            proof {
                assert(order_check_from(*job_name, *job, ii) == Err::<(), ConfigError>(
                    ConfigError::MissingStep(*job_name, job.step_order@[ii]),
                ));
            }
            return Err(ConfigError::MissingStep(job_name.clone(), s.clone()));
        }
        proof {
            assert(order_check_from(*job_name, *job, ii) == order_check_from(
                *job_name,
                *job,
                ii + 1,
            ));
        }
        i = i + 1;
    }
    let m = job.steps.len();
    let mut i: usize = 0;
    while i < m
        invariant
            m == job.steps.pairs@.len(),
            i <= m,
            job.step_order@.len() > 0,
            order_check_from(*job_name, *job, 0) is Ok,
            extras_check_from(*job_name, *job, 0) == extras_check_from(*job_name, *job, i as int),
        decreases m - i,
    {
        let key = &job.steps.pairs[i].0;
        if !strs_contain(&job.step_order, key.as_str()) {
            proof {
                assert(extras_check_from(*job_name, *job, i as int) == Err::<(), ConfigError>(
                    ConfigError::ExtraSteps(*job_name, job.steps.pairs@[i as int].0),
                ));
            }
            return Err(ConfigError::ExtraSteps(job_name.clone(), key.clone()));
        }
        i = i + 1;
    }
    let mut i: usize = 0;
    while i < m
        invariant
            m == job.steps.pairs@.len(),
            i <= m,
            job.step_order@.len() > 0,
            extras_check_from(*job_name, *job, 0) is Ok,
            order_check_from(*job_name, *job, 0) is Ok,
            argv_check_from(*job_name, *job, 0) == argv_check_from(*job_name, *job, i as int),
        decreases m - i,
    {
        let p = &job.steps.pairs[i];
        if p.1.run.len() == 0 {
            proof {
                assert(argv_check_from(*job_name, *job, i as int) == Err::<(), ConfigError>(
                    ConfigError::EmptyArgv(*job_name, job.steps.pairs@[i as int].0),
                ));
            }
            return Err(ConfigError::EmptyArgv(job_name.clone(), p.0.clone()));
        }
        i = i + 1;
    }
    Ok(())
}

impl Config {
    /// Validate the configuration; `Ok` exactly when every check in
    /// `validate_spec` passes, and otherwise the first failing check's
    /// error.
    pub fn validate(&self) -> (r: Result<(), ConfigError>)
        ensures
            r == validate_spec(*self),
    {
        if self.version != 1 {
            return Err(ConfigError::UnsupportedVersion(self.version));
        }
        if str_is_blank(self.project.as_str()) {
            return Err(ConfigError::EmptyProject);
        }
        if self.profiles.is_empty() {
            return Err(ConfigError::NoProfiles);
        }
        if self.jobs.is_empty() {
            return Err(ConfigError::NoJobs);
        }
        let n = self.jobs.len();
        let mut i: usize = 0;
        while i < n
            invariant
                n == self.jobs.pairs@.len(),
                i <= n,
                self.version == 1,
                !is_blank(self.project@),
                self.profiles.pairs@.len() > 0,
                self.jobs.pairs@.len() > 0,
                jobs_check_from(*self, 0) == jobs_check_from(*self, i as int),
            decreases n - i,
        {
            let p = &self.jobs.pairs[i];
            if !self.profiles.contains_key(p.1.profile.as_str()) {
                proof {
                    assert(jobs_check_from(*self, i as int) == Err::<(), ConfigError>(
                        ConfigError::MissingProfile(
                            self.jobs.pairs@[i as int].0,
                            self.jobs.pairs@[i as int].1.profile,
                        ),
                    ));
                }
                return Err(ConfigError::MissingProfile(p.0.clone(), p.1.profile.clone()));
            }
            match validate_step_order(&p.0, &p.1) {
                Err(e) => {
                    proof {
                        assert(jobs_check_from(*self, i as int) == Err::<(), ConfigError>(e));
                    }
                    return Err(e);
                },
                Ok(()) => {},
            }
            proof {
                assert(jobs_check_from(*self, i as int) == jobs_check_from(*self, i as int + 1));
            }
            i = i + 1;
        }
        Ok(())
    }

    /// Look a job up by name.
    pub fn job<'a>(&'a self, name: &str) -> (r: Result<&'a Job, ConfigError>)
        ensures
            match r {
                Ok(j) => lookup(self.jobs.pairs@, name@) == Some(*j),
                Err(e) => lookup(self.jobs.pairs@, name@) is None && (e matches
                    ConfigError::UnknownJob(s) && s@ == name@),
            },
    {
        match self.jobs.get(name) {
            Some(j) => Ok(j),
            None => Err(ConfigError::UnknownJob(name.to_owned())),
        }
    }

    /// Look a profile up by name.
    pub fn profile<'a>(&'a self, name: &str) -> (r: Result<&'a Profile, ConfigError>)
        ensures
            match r {
                Ok(p) => lookup(self.profiles.pairs@, name@) == Some(*p),
                Err(e) => lookup(self.profiles.pairs@, name@) is None && (e matches
                    ConfigError::UnknownProfile(s) && s@ == name@),
            },
    {
        match self.profiles.get(name) {
            Some(p) => Ok(p),
            None => Err(ConfigError::UnknownProfile(name.to_owned())),
        }
    }
}

/// The message text for each configuration error.
pub open spec fn config_error_msg(e: ConfigError) -> Seq<char> {
    match e {
        ConfigError::UnsupportedVersion(v) => "unsupported config version "@ + u64_dec(
            v as int,
        ) + " (expected 1)"@,
        ConfigError::EmptyProject => "project must be non-empty"@,
        ConfigError::NoProfiles => "profiles must be non-empty"@,
        ConfigError::NoJobs => "jobs must be non-empty"@,
        ConfigError::MissingProfile(j, p) => "job '"@ + j@ + "' references missing profile '"@ + p@
            + "'"@,
        ConfigError::StepsWithoutOrder(j) => "job '"@ + j@ + "' has steps but empty step_order"@,
        ConfigError::DuplicateStep(j, s) => "job '"@ + j@
            + "' step_order contains duplicate step '"@ + s@ + "'"@,
        ConfigError::MissingStep(j, s) => "job '"@ + j@ + "' step_order references missing step '"@
            + s@ + "'"@,
        ConfigError::ExtraSteps(j, s) => "job '"@ + j@ + "' has steps not listed in step_order: '"@
            + s@ + "'"@,
        ConfigError::EmptyArgv(j, s) => "job '"@ + j@ + "' step '"@ + s@ + "' has empty run argv"@,
        ConfigError::UnknownJob(j) => "unknown job '"@ + j@ + "'"@,
        ConfigError::UnknownProfile(p) => "unknown profile '"@ + p@ + "'"@,
    }
}

impl ConfigError {
    /// Render the error as its message text.
    pub fn message(&self) -> (r: String)
        ensures
            r@ == config_error_msg(*self),
    {
        let mut out: Vec<char> = Vec::new();
        match self {
            ConfigError::UnsupportedVersion(v) => {
                push_str_chars(&mut out, "unsupported config version ");
                push_u64_dec(&mut out, *v as u64);
                push_str_chars(&mut out, " (expected 1)");
            },
            ConfigError::EmptyProject => {
                push_str_chars(&mut out, "project must be non-empty");
            },
            ConfigError::NoProfiles => {
                push_str_chars(&mut out, "profiles must be non-empty");
            },
            ConfigError::NoJobs => {
                push_str_chars(&mut out, "jobs must be non-empty");
            },
            ConfigError::MissingProfile(j, p) => {
                push_str_chars(&mut out, "job '");
                push_str_chars(&mut out, j.as_str());
                push_str_chars(&mut out, "' references missing profile '");
                push_str_chars(&mut out, p.as_str());
                push_str_chars(&mut out, "'");
            },
            ConfigError::StepsWithoutOrder(j) => {
                push_str_chars(&mut out, "job '");
                push_str_chars(&mut out, j.as_str());
                push_str_chars(&mut out, "' has steps but empty step_order");
            },
            ConfigError::DuplicateStep(j, s) => {
                push_str_chars(&mut out, "job '");
                push_str_chars(&mut out, j.as_str());
                push_str_chars(&mut out, "' step_order contains duplicate step '");
                push_str_chars(&mut out, s.as_str());
                push_str_chars(&mut out, "'");
            },
            ConfigError::MissingStep(j, s) => {
                push_str_chars(&mut out, "job '");
                push_str_chars(&mut out, j.as_str());
                push_str_chars(&mut out, "' step_order references missing step '");
                push_str_chars(&mut out, s.as_str());
                push_str_chars(&mut out, "'");
            },
            ConfigError::ExtraSteps(j, s) => {
                push_str_chars(&mut out, "job '");
                push_str_chars(&mut out, j.as_str());
                push_str_chars(&mut out, "' has steps not listed in step_order: '");
                push_str_chars(&mut out, s.as_str());
                push_str_chars(&mut out, "'");
            },
            ConfigError::EmptyArgv(j, s) => {
                push_str_chars(&mut out, "job '");
                push_str_chars(&mut out, j.as_str());
                push_str_chars(&mut out, "' step '");
                push_str_chars(&mut out, s.as_str());
                push_str_chars(&mut out, "' has empty run argv");
            },
            ConfigError::UnknownJob(j) => {
                push_str_chars(&mut out, "unknown job '");
                push_str_chars(&mut out, j.as_str());
                push_str_chars(&mut out, "'");
            },
            ConfigError::UnknownProfile(p) => {
                push_str_chars(&mut out, "unknown profile '");
                push_str_chars(&mut out, p.as_str());
                push_str_chars(&mut out, "'");
            },
        }
        chars_to_string(&out)
    }
}

} // verus!
