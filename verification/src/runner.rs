//! The run orchestrator's decision core.
//!
//! The application crate drives the loop: it invokes the container
//! engine and the filesystem. Everything decided here is verified:
//! which step runs next, how its command line is built, how its
//! outcome is recorded, that execution stops at the first failure,
//! and that a complete manifest is assembled whatever happened.

use vstd::prelude::*;

use crate::config::ConfigError;
use crate::config::Job;
use crate::dict::Dict;
use crate::dict::has_key;
use crate::manifest::ManifestResultV1;
use crate::manifest::ManifestStepV1;
use crate::manifest::ManifestV1;
use crate::process::ExecResult;
use crate::process::PodmanRunError;
use crate::process::classify_spec;
use crate::process::hints_for_podman_kind;
use crate::process::lossy_utf8_of;
use crate::process::trunc_spec;
use crate::text::chars_to_string;
use crate::text::push_str_chars;
use crate::text::str_chars;

verus! {

/// The ways a run can fail before or between steps.
#[derive(Debug, Clone)]
pub enum RunError {
    Config(ConfigError),
    Podman(PodmanRunError),
    UnknownStep(String, String),
    WorkdirAbsolute(String),
    WorkdirParent(String),
}

/// The operator hint for a run error: engine failures carry a
/// classification with a fixed remediation hint; other errors get
/// none.
pub fn operator_hints_for_error(err: &RunError) -> (r: Option<&'static str>)
    ensures
        match err {
            RunError::Podman(e) => r matches Some(h) && h@ == crate::process::kind_hint_spec(
                e.kind,
            ),
            _ => r is None,
        },
{
    match err {
        RunError::Podman(e) => Some(hints_for_podman_kind(&e.kind)),
        _ => None,
    }
}

/// A shell-quoted argv item: kept plain when every character is
/// safe, else wrapped in single quotes with embedded quotes escaped.
pub open spec fn shell_safe_char(c: char) -> bool {
    (48 <= (c as u32) <= 57) || (65 <= (c as u32) <= 90) || (97 <= (c as u32) <= 122) || c == '-'
        || c == '.' || c == '_' || c == '/' || c == ':'
}

/// The quoted spelling of one character inside single quotes.
pub open spec fn shell_quote_char(c: char) -> Seq<char> {
    if c == '\'' {
        seq!['\'', '\\', '\'', '\'']
    } else {
        seq![c]
    }
}

/// The quoted body of a string, character by character.
pub open spec fn shell_quote_body(s: Seq<char>, i: int) -> Seq<char>
    decreases i,
{
    if i <= 0 {
        Seq::empty()
    } else {
        shell_quote_body(s, i - 1) + shell_quote_char(s[i - 1])
    }
}

/// One argv item as printed: plain, or single-quoted.
pub open spec fn shell_quote_item(s: Seq<char>) -> Seq<char> {
    if forall|i: int| 0 <= i < s.len() ==> shell_safe_char(#[trigger] s[i]) {
        s
    } else {
        seq!['\''] + shell_quote_body(s, s.len() as int) + seq!['\'']
    }
}

/// A whole argv as one space-joined, quoted command line.
pub open spec fn shell_quote_spec(argv: Seq<String>, i: int) -> Seq<char>
    decreases i,
{
    if i <= 0 {
        Seq::empty()
    } else if i == 1 {
        shell_quote_item(argv[0]@)
    } else {
        shell_quote_spec(argv, i - 1) + seq![' '] + shell_quote_item(argv[i - 1]@)
    }
}

/// Quote an argv for display.
pub fn shell_quote(argv: &Vec<String>) -> (r: String)
    ensures
        r@ == shell_quote_spec(argv@, argv@.len() as int),
{
    let mut out: Vec<char> = Vec::new();
    let n = argv.len();
    let mut i: usize = 0;
    while i < n
        invariant
            n == argv@.len(),
            i <= n,
            out@ == shell_quote_spec(argv@, i as int),
        decreases n - i,
    {
        if i > 0 {
            out.push(' ');
        }
        let item = &argv[i];
        let chars = str_chars(item.as_str());
        let mut safe = true;
        let m = chars.len();
        let mut j: usize = 0;
        while j < m
            invariant
                m == chars@.len(),
                j <= m,
                safe == (forall|k: int| 0 <= k < j ==> shell_safe_char(#[trigger] chars@[k])),
            decreases m - j,
        {
            let c = chars[j];
            let u = c as u32;
            if !((48 <= u && u <= 57) || (65 <= u && u <= 90) || (97 <= u && u <= 122) || c == '-'
                || c == '.' || c == '_' || c == '/' || c == ':') {
                safe = false;
            }
            j = j + 1;
        }
        if safe {
            push_str_chars(&mut out, item.as_str());
            proof {
                assert(shell_quote_item(item@) == item@);
            }
        } else {
            out.push('\'');
            let mut j: usize = 0;
            while j < m
                invariant
                    m == chars@.len(),
                    chars@ == item@,
                    j <= m,
                    out@ == shell_quote_spec(argv@, i as int) + (if i > 0 {
                        seq![' ']
                    } else {
                        Seq::<char>::empty()
                    }) + seq!['\''] + shell_quote_body(item@, j as int),
                decreases m - j,
            {
                let c = chars[j];
                if c == '\'' {
                    out.push('\'');
                    out.push('\\');
                    out.push('\'');
                    out.push('\'');
                } else {
                    out.push(c);
                }
                j = j + 1;
                proof {
                    assert(out@ =~= shell_quote_spec(argv@, i as int) + (if i > 0 {
                        seq![' ']
                    } else {
                        Seq::<char>::empty()
                    }) + seq!['\''] + shell_quote_body(item@, j as int));
                }
            }
            out.push('\'');
            proof {
                assert(!(forall|k: int| 0 <= k < item@.len() ==> shell_safe_char(
                    #[trigger] item@[k],
                )));
            }
        }
        i = i + 1;
        proof {
            assert(out@ =~= shell_quote_spec(argv@, i as int));
        }
    }
    chars_to_string(&out)
}

/// The filename-safe folding of one character.
pub open spec fn filename_char(c: char) -> char {
    if (48 <= (c as u32) <= 57) || (65 <= (c as u32) <= 90) || (97 <= (c as u32) <= 122) || c
        == '-' || c == '_' || c == '.' {
        c
    } else {
        '_'
    }
}

/// The filename-safe transliteration of a step name; an empty name
/// falls back to a fixed placeholder.
pub open spec fn sanitize_spec(s: Seq<char>) -> Seq<char> {
    if s.len() == 0 {
        "step"@
    } else {
        s.map_values(|c: char| filename_char(c))
    }
}

/// Make a step name safe for use in a log file name.
pub fn sanitize_for_filename(s: &str) -> (r: String)
    ensures
        r@ == sanitize_spec(s@),
{
    let n: usize = s.unicode_len();
    if n == 0 {
        let mut out: Vec<char> = Vec::new();
        push_str_chars(&mut out, "step");
        return chars_to_string(&out);
    }
    let mut out: Vec<char> = Vec::new();
    let mut i: usize = 0;
    while i < n
        invariant
            0 < n == s@.len(),
            i <= n,
            out@ == sanitize_spec(s@).subrange(0, i as int),
        decreases n - i,
    {
        let c = s.get_char(i);
        let u = c as u32;
        if (48 <= u && u <= 57) || (65 <= u && u <= 90) || (97 <= u && u <= 122) || c == '-' || c
            == '_' || c == '.' {
            out.push(c);
        } else {
            out.push('_');
        }
        i = i + 1;
        proof {
            assert(out@ =~= sanitize_spec(s@).subrange(0, i as int));
        }
    }
    proof {
        assert(sanitize_spec(s@).subrange(0, n as int) =~= sanitize_spec(s@));
    }
    chars_to_string(&out)
}

/// Whether a relative working directory contains a `..` segment.
pub open spec fn has_dotdot(s: Seq<char>) -> bool {
    crate::text::contains_seq(s, ".."@)
}

/// Resolve a step's working directory to its in-container path:
/// `/work` itself, or `/work/<rel>` for a safe relative path.
/// Absolute paths and paths containing `..` are rejected before any
/// subprocess runs.
pub fn resolve_workdir(rel: Option<&str>) -> (r: Result<String, RunError>)
    ensures
        match r {
            Ok(d) => match rel {
                None => d@ == "/work"@,
                Some(s) => (s@.len() == 0 || s@[0] != '/') && !has_dotdot(s@) && d@ == "/work/"@
                    + s@,
            },
            Err(e) => rel matches Some(s) && ((s@.len() > 0 && s@[0] == '/' && (e matches
                RunError::WorkdirAbsolute(p) && p@ == s@)) || (!(s@.len() > 0 && s@[0] == '/')
                && has_dotdot(s@) && (e matches RunError::WorkdirParent(p) && p@ == s@))),
        },
{
    match rel {
        None => {
            let mut out: Vec<char> = Vec::new();
            push_str_chars(&mut out, "/work");
            Ok(chars_to_string(&out))
        },
        Some(s) => {
            let n: usize = s.unicode_len();
            if n > 0 && s.get_char(0) == '/' {
                return Err(RunError::WorkdirAbsolute(s.to_owned()));
            }
            let chars = str_chars(s);
            if crate::text::contains_chars(&chars, &str_chars("..")) {
                return Err(RunError::WorkdirParent(s.to_owned()));
            }
            let mut out: Vec<char> = Vec::new();
            push_str_chars(&mut out, "/work/");
            push_str_chars(&mut out, s);
            Ok(chars_to_string(&out))
        },
    }
}

/// The three cache volume names of a namespace.
pub fn volume_names(ns: &str) -> (r: (String, String, String))
    ensures
        r.0@ == ns@ + "_cargo_registry"@,
        r.1@ == ns@ + "_cargo_git"@,
        r.2@ == ns@ + "_target"@,
{
    let mut a: Vec<char> = Vec::new();
    push_str_chars(&mut a, ns);
    push_str_chars(&mut a, "_cargo_registry");
    let mut b: Vec<char> = Vec::new();
    push_str_chars(&mut b, ns);
    push_str_chars(&mut b, "_cargo_git");
    let mut c: Vec<char> = Vec::new();
    push_str_chars(&mut c, ns);
    push_str_chars(&mut c, "_target");
    (chars_to_string(&a), chars_to_string(&b), chars_to_string(&c))
}

/// The ownership label set every managed volume carries.
pub fn volume_labels(ns: &str, env_id: &str, kind: &str) -> (r: Vec<(String, String)>)
    ensures
        r@.len() == 4,
        r@[0].0@ == "podci.managed"@ && r@[0].1@ == "true"@,
        r@[1].0@ == "podci.namespace"@ && r@[1].1@ == ns@,
        r@[2].0@ == "podci.env_id"@ && r@[2].1@ == env_id@,
        r@[3].0@ == "podci.volume_kind"@ && r@[3].1@ == kind@,
{
    let mut r: Vec<(String, String)> = Vec::new();
    r.push(("podci.managed".to_owned(), "true".to_owned()));
    r.push(("podci.namespace".to_owned(), ns.to_owned()));
    r.push(("podci.env_id".to_owned(), env_id.to_owned()));
    r.push(("podci.volume_kind".to_owned(), kind.to_owned()));
    r
}

/// The `--env` pairs handed to a step: the profile environment
/// first, then the step overrides (later entries win inside the
/// container).
pub fn merged_env(profile_env: &Dict<String>, step_env: &Dict<String>) -> (r: Vec<
    (String, String),
>)
    ensures
        r@ == profile_env.pairs@ + step_env.pairs@,
{
    let mut r: Vec<(String, String)> = Vec::new();
    let n = profile_env.pairs.len();
    let mut i: usize = 0;
    while i < n
        invariant
            n == profile_env.pairs@.len(),
            i <= n,
            r@ == profile_env.pairs@.subrange(0, i as int),
        decreases n - i,
    {
        let p = &profile_env.pairs[i];
        r.push((p.0.clone(), p.1.clone()));
        i = i + 1;
        proof {
            assert(r@ =~= profile_env.pairs@.subrange(0, i as int));
        }
    }
    proof {
        assert(r@ =~= profile_env.pairs@);
    }
    let m = step_env.pairs.len();
    let mut i: usize = 0;
    while i < m
        invariant
            m == step_env.pairs@.len(),
            i <= m,
            r@ == profile_env.pairs@ + step_env.pairs@.subrange(0, i as int),
        decreases m - i,
    {
        let p = &step_env.pairs[i];
        r.push((p.0.clone(), p.1.clone()));
        i = i + 1;
        proof {
            assert(r@ =~= profile_env.pairs@ + step_env.pairs@.subrange(0, i as int));
        }
    }
    proof {
        assert(profile_env.pairs@ + step_env.pairs@.subrange(0, m as int) =~= profile_env.pairs@
            + step_env.pairs@);
    }
    r
}

/// The fixed head of a container run invocation: remove-on-exit,
/// user-namespace remap, the three SELinux-labelled cache mounts,
/// the repository mount, the working directory, and the enforced
/// toolchain home.
pub open spec fn run_args_head(
    repo_root: Seq<char>,
    workdir: Seq<char>,
    reg: Seq<char>,
    git: Seq<char>,
    target: Seq<char>,
) -> Seq<Seq<char>> {
    seq![
        "run"@,
        "--rm"@,
        "--userns=keep-id"@,
        "-v"@,
        reg + ":/usr/local/cargo/registry:Z"@,
        "-v"@,
        git + ":/usr/local/cargo/git:Z"@,
        "-v"@,
        target + ":/work/target:Z"@,
        "-v"@,
        repo_root + ":/work:Z"@,
        "-w"@,
        workdir,
        "--env"@,
        "CARGO_HOME=/usr/local/cargo"@,
    ]
}

/// The `--env` arguments for the merged environment, first `i`
/// pairs.
pub open spec fn env_args_upto(env: Seq<(String, String)>, i: int) -> Seq<Seq<char>>
    decreases i,
{
    if i <= 0 {
        Seq::empty()
    } else {
        env_args_upto(env, i - 1) + seq!["--env"@, env[i - 1].0@ + "="@ + env[i - 1].1@]
    }
}

/// The argv views, in order.
pub open spec fn argv_views(argv: Seq<String>, i: int) -> Seq<Seq<char>>
    decreases i,
{
    if i <= 0 {
        Seq::empty()
    } else {
        argv_views(argv, i - 1) + seq![argv[i - 1]@]
    }
}

/// The whole engine invocation for one step.
pub open spec fn run_args_spec(
    repo_root: Seq<char>,
    workdir: Seq<char>,
    reg: Seq<char>,
    git: Seq<char>,
    target: Seq<char>,
    image: Seq<char>,
    env: Seq<(String, String)>,
    argv: Seq<String>,
) -> Seq<Seq<char>> {
    run_args_head(repo_root, workdir, reg, git, target) + env_args_upto(env, env.len() as int)
        + seq![image] + argv_views(argv, argv.len() as int)
}

/// Build the engine arguments for one step invocation.
pub fn build_podman_run_args(
    repo_root: &str,
    workdir_display: &str,
    vol_cargo_registry: &str,
    vol_cargo_git: &str,
    vol_target: &str,
    image: &str,
    env_kv: &Vec<(String, String)>,
    argv: &Vec<String>,
) -> (r: Vec<String>)
    ensures
        r.deep_view() == run_args_spec(
            repo_root@,
            workdir_display@,
            vol_cargo_registry@,
            vol_cargo_git@,
            vol_target@,
            image@,
            env_kv@,
            argv@,
        ),
{
    let mut r: Vec<String> = Vec::new();
    r.push("run".to_owned());
    r.push("--rm".to_owned());
    r.push("--userns=keep-id".to_owned());
    r.push("-v".to_owned());
    let mut v1: Vec<char> = Vec::new();
    push_str_chars(&mut v1, vol_cargo_registry);
    push_str_chars(&mut v1, ":/usr/local/cargo/registry:Z");
    r.push(chars_to_string(&v1));
    r.push("-v".to_owned());
    let mut v2: Vec<char> = Vec::new();
    push_str_chars(&mut v2, vol_cargo_git);
    push_str_chars(&mut v2, ":/usr/local/cargo/git:Z");
    r.push(chars_to_string(&v2));
    r.push("-v".to_owned());
    let mut v3: Vec<char> = Vec::new();
    push_str_chars(&mut v3, vol_target);
    push_str_chars(&mut v3, ":/work/target:Z");
    r.push(chars_to_string(&v3));
    r.push("-v".to_owned());
    let mut v4: Vec<char> = Vec::new();
    push_str_chars(&mut v4, repo_root);
    push_str_chars(&mut v4, ":/work:Z");
    r.push(chars_to_string(&v4));
    r.push("-w".to_owned());
    r.push(workdir_display.to_owned());
    r.push("--env".to_owned());
    r.push("CARGO_HOME=/usr/local/cargo".to_owned());
    proof {
        assert(r.deep_view() =~~= run_args_head(
            repo_root@,
            workdir_display@,
            vol_cargo_registry@,
            vol_cargo_git@,
            vol_target@,
        ));
    }
    let ghost head = r.deep_view();
    proof {
        assert(head + env_args_upto(env_kv@, 0) =~= head);
    }
    let n = env_kv.len();
    let mut i: usize = 0;
    while i < n
        invariant
            n == env_kv@.len(),
            i <= n,
            r.deep_view() == head + env_args_upto(env_kv@, i as int),
        decreases n - i,
    {
        let ghost pre = r.deep_view();
        r.push("--env".to_owned());
        proof {
            assert(r.deep_view() =~= pre.push("--env"@));
        }
        let ghost pre2 = r.deep_view();
        let p = &env_kv[i];
        let mut kv: Vec<char> = Vec::new();
        push_str_chars(&mut kv, p.0.as_str());
        push_str_chars(&mut kv, "=");
        push_str_chars(&mut kv, p.1.as_str());
        let kvs = chars_to_string(&kv);
        r.push(kvs);
        proof {
            assert(r.deep_view() =~= pre2.push(env_kv@[i as int].0@ + "="@ + env_kv@[i as int].1@));
        }
        i = i + 1;
        proof {
            assert(r.deep_view() =~= head + env_args_upto(env_kv@, i as int));
        }
    }
    let ghost preim = r.deep_view();
    r.push(image.to_owned());
    proof {
        assert(r.deep_view() =~= preim.push(image@));
    }
    let ghost head2 = r.deep_view();
    proof {
        assert(head2 + argv_views(argv@, 0) =~= head2);
    }
    let m = argv.len();
    let mut i: usize = 0;
    while i < m
        invariant
            m == argv@.len(),
            i <= m,
            r.deep_view() == head2 + argv_views(argv@, i as int),
        decreases m - i,
    {
        let ghost pre = r.deep_view();
        r.push(argv[i].clone());
        proof {
            assert(r.deep_view() =~= pre.push(argv@[i as int]@));
        }
        i = i + 1;
        proof {
            assert(r.deep_view() =~= head2 + argv_views(argv@, i as int));
        }
    }
    proof {
        assert(r.deep_view() =~~= run_args_spec(
            repo_root@,
            workdir_display@,
            vol_cargo_registry@,
            vol_cargo_git@,
            vol_target@,
            image@,
            env_kv@,
            argv@,
        ));
    }
    r
}

/// Which steps a run will attempt: the single named step, or the
/// job's declared order; every name must exist in the step map.
pub fn steps_to_run(job: &Job, job_name: &String, step_only: Option<&str>) -> (r: Result<
    Vec<String>,
    RunError,
>)
    ensures
        match r {
            Ok(v) => (match step_only {
                Some(s) => v@.len() == 1 && v@[0]@ == s@,
                None => v@ == job.step_order@,
            }) && (forall|i: int|
                0 <= i < v@.len() ==> has_key(job.steps.pairs@, #[trigger] v@[i]@)),
            Err(e) => (e matches RunError::UnknownStep(s, j) && j@ == job_name@ && !has_key(
                job.steps.pairs@,
                s@,
            ) && (match step_only {
                Some(q) => s@ == q@,
                None => exists|i: int|
                    0 <= i < job.step_order@.len() && (#[trigger] job.step_order@[i])@ == s@ && (
                    forall|k: int|
                        0 <= k < i ==> has_key(
                            job.steps.pairs@,
                            (#[trigger] job.step_order@[k])@,
                        )),
            })),
        },
{
    let list: Vec<String> = match step_only {
        Some(s) => {
            let mut v: Vec<String> = Vec::new();
            v.push(s.to_owned());
            v
        },
        None => {
            let mut v: Vec<String> = Vec::new();
            let n = job.step_order.len();
            let mut i: usize = 0;
            while i < n
                invariant
                    n == job.step_order@.len(),
                    i <= n,
                    v@ == job.step_order@.subrange(0, i as int),
                decreases n - i,
            {
                v.push(job.step_order[i].clone());
                i = i + 1;
                proof {
                    assert(v@ =~= job.step_order@.subrange(0, i as int));
                }
            }
            proof {
                assert(v@ =~= job.step_order@);
            }
            v
        },
    };
    let n = list.len();
    let mut i: usize = 0;
    while i < n
        invariant
            n == list@.len(),
            i <= n,
            match step_only {
                Some(q) => list@.len() == 1 && list@[0]@ == q@,
                None => list@ == job.step_order@,
            },
            forall|j: int| 0 <= j < i ==> has_key(job.steps.pairs@, #[trigger] list@[j]@),
        decreases n - i,
    {
        if !job.steps.contains_key(list[i].as_str()) {
            proof {
                if step_only is None {
                    assert(list@[i as int] == job.step_order@[i as int]);
                    assert(forall|k: int|
                        0 <= k < i ==> job.step_order@[k] == list@[k] && has_key(
                            job.steps.pairs@,
                            (#[trigger] job.step_order@[k])@,
                        ));
                }
            }
            return Err(RunError::UnknownStep(list[i].clone(), job_name.clone()));
        }
        i = i + 1;
    }
    Ok(list)
}

/// The running record of a run: the step records so far and the
/// first failure, if any.
pub struct RunState {
    pub steps: Vec<ManifestStepV1>,
    pub failed: bool,
    pub exit_code: i32,
    pub error: Option<String>,
}

/// What the orchestrator does next.
#[derive(Debug, Clone, Copy, PartialEq, Eq, Structural)]
pub enum RunAction {
    RunStep(usize),
    Finish,
}

/// The next action, as a function of the plan and the state: once a
/// step has failed, or every planned step is recorded, the run
/// finishes; otherwise the next planned step runs.
pub open spec fn next_action_spec(planned: Seq<String>, st: RunState) -> RunAction {
    if st.failed || st.steps@.len() >= planned.len() {
        RunAction::Finish
    } else {
        RunAction::RunStep(st.steps@.len() as usize)
    }
}

impl RunState {
    /// A fresh run: nothing recorded, nothing failed.
    pub fn new() -> (r: Self)
        ensures
            r.steps@.len() == 0,
            !r.failed,
            r.exit_code == 0,
            r.error is None,
    {
        RunState { steps: Vec::new(), failed: false, exit_code: 0, error: None }
    }

    /// Decide what happens next.
    pub fn next_action(&self, planned: &Vec<String>) -> (r: RunAction)
        ensures
            r == next_action_spec(planned@, *self),
    {
        if self.failed || self.steps.len() >= planned.len() {
            RunAction::Finish
        } else {
            RunAction::RunStep(self.steps.len())
        }
    }

    /// Record a skipped (dry-run) step: a synthetic success with no
    /// logs, appended in order.
    pub fn record_dry_run(&mut self, name: &String, argv: &Vec<String>)
        requires
            !old(self).failed,
        ensures
            final(self).steps@.len() == old(self).steps@.len() + 1,
            final(self).steps@.last().name == *name,
            final(self).steps@.last().argv@ == argv@,
            final(self).steps@.last().duration_ms is None,
            final(self).steps@.last().exit_code == Some(0i32),
            final(self).steps@.last().stdout_path is None,
            final(self).steps@.last().stderr_path is None,
            final(self).steps@.subrange(0, old(self).steps@.len() as int) == old(self).steps@,
            !final(self).failed,
            final(self).exit_code == old(self).exit_code,
            final(self).error == old(self).error,
    {
        let mut argv2: Vec<String> = Vec::new();
        let n = argv.len();
        let mut i: usize = 0;
        while i < n
            invariant
                n == argv@.len(),
                i <= n,
                argv2@ == argv@.subrange(0, i as int),
            decreases n - i,
        {
            argv2.push(argv[i].clone());
            i = i + 1;
            proof {
                assert(argv2@ =~= argv@.subrange(0, i as int));
            }
        }
        proof {
            assert(argv2@ =~= argv@);
        }
        self.steps.push(
            ManifestStepV1 {
                name: name.clone(),
                argv: argv2,
                duration_ms: None,
                exit_code: Some(0),
                stdout_path: None,
                stderr_path: None,
            },
        );
        proof {
            assert(self.steps@.subrange(0, old(self).steps@.len() as int) =~= old(self).steps@);
        }
    }

    /// Record a step whose subprocess completed: its exit code and
    /// log locations are written down, and a non-zero exit stops the
    /// run with a composed error naming the step.
    pub fn record_step_completed(
        &mut self,
        name: &String,
        argv: Vec<String>,
        command: String,
        exec: &ExecResult,
        stdout_rel: String,
        stderr_rel: String,
        stdout_abs: String,
        stderr_abs: String,
    ) -> (cont: bool)
        requires
            !old(self).failed,
        ensures
            cont == (exec.exit_code == 0),
            final(self).steps@.len() == old(self).steps@.len() + 1,
            final(self).steps@.last().name == *name,
            final(self).steps@.last().argv == argv,
            final(self).steps@.last().duration_ms == Some(exec.duration_ms),
            final(self).steps@.last().exit_code == Some(exec.exit_code),
            final(self).steps@.last().stdout_path == Some(stdout_rel),
            final(self).steps@.last().stderr_path == Some(stderr_rel),
            final(self).steps@.subrange(0, old(self).steps@.len() as int) == old(self).steps@,
            final(self).failed == (exec.exit_code != 0),
            exec.exit_code == 0 ==> final(self).exit_code == old(self).exit_code
                && final(self).error == old(self).error,
            exec.exit_code != 0 ==> final(self).exit_code == exec.exit_code && (final(self).error
                matches Some(msg) && msg@ == "step '"@ + name@ + "' failed: "@
                + crate::process::run_error_msg_view(
                classify_spec(exec.exit_code as int, lossy_utf8_of(exec.stderr@)),
                Some(exec.exit_code as int),
                trunc_spec(exec.stderr@, 16384),
                Some(stderr_abs@),
                Some(stdout_abs@),
            )),
    {
        let exit = exec.exit_code;
        self.steps.push(
            ManifestStepV1 {
                name: name.clone(),
                argv,
                duration_ms: Some(exec.duration_ms),
                exit_code: Some(exit),
                stdout_path: Some(stdout_rel),
                stderr_path: Some(stderr_rel),
            },
        );
        proof {
            assert(self.steps@.subrange(0, old(self).steps@.len() as int) =~= old(self).steps@);
        }
        if exit != 0 {
            let err = PodmanRunError::from_exec(
                command,
                exit,
                exec.stdout.as_slice(),
                exec.stderr.as_slice(),
                Some(stdout_abs),
                Some(stderr_abs),
            );
            let msg = err.message();
            let mut m: Vec<char> = Vec::new();
            push_str_chars(&mut m, "step '");
            push_str_chars(&mut m, name.as_str());
            push_str_chars(&mut m, "' failed: ");
            push_str_chars(&mut m, msg.as_str());
            self.failed = true;
            self.exit_code = exit;
            self.error = Some(chars_to_string(&m));
            return false;
        }
        true
    }

    /// Record a step whose subprocess could not be run at all: a
    /// synthetic exit code 1 with no logs, and the run stops with an
    /// error naming the step.
    pub fn record_step_error(
        &mut self,
        name: &String,
        argv: Vec<String>,
        duration_ms: u64,
        message: &str,
    )
        requires
            !old(self).failed,
        ensures
            final(self).steps@.len() == old(self).steps@.len() + 1,
            final(self).steps@.last().name == *name,
            final(self).steps@.last().argv == argv,
            final(self).steps@.last().duration_ms == Some(duration_ms),
            final(self).steps@.last().exit_code == Some(1i32),
            final(self).steps@.last().stdout_path is None,
            final(self).steps@.last().stderr_path is None,
            final(self).steps@.subrange(0, old(self).steps@.len() as int) == old(self).steps@,
            final(self).failed,
            final(self).exit_code == 1,
            final(self).error matches Some(msg) && msg@ == "step '"@ + name@ + "' failed: "@
                + message@,
    {
        self.steps.push(
            ManifestStepV1 {
                name: name.clone(),
                argv,
                duration_ms: Some(duration_ms),
                exit_code: Some(1),
                stdout_path: None,
                stderr_path: None,
            },
        );
        proof {
            assert(self.steps@.subrange(0, old(self).steps@.len() as int) =~= old(self).steps@);
        }
        let mut m: Vec<char> = Vec::new();
        push_str_chars(&mut m, "step '");
        push_str_chars(&mut m, name.as_str());
        push_str_chars(&mut m, "' failed: ");
        push_str_chars(&mut m, message);
        self.failed = true;
        self.exit_code = 1;
        self.error = Some(chars_to_string(&m));
    }

    /// Assemble the manifest for this run, whatever the outcome: the
    /// complete step history and the final result are always written
    /// down.
    pub fn finish_manifest(
        self,
        schema: String,
        podci_version: String,
        timestamp_utc: String,
        project: String,
        job: String,
        profile: String,
        namespace: String,
        env_id: String,
        base_image_digest: Option<String>,
        base_image_digest_status: Option<String>,
    ) -> (m: ManifestV1)
        ensures
            m.schema == schema,
            m.podci_version == podci_version,
            m.timestamp_utc == timestamp_utc,
            m.project == project,
            m.job == job,
            m.profile == profile,
            m.namespace == namespace,
            m.env_id == env_id,
            m.base_image_digest == base_image_digest,
            m.base_image_digest_status == base_image_digest_status,
            m.steps == self.steps,
            m.result.ok == !self.failed,
            m.result.exit_code == self.exit_code,
            m.result.error == self.error,
    {
        ManifestV1 {
            schema,
            podci_version,
            timestamp_utc,
            project,
            job,
            profile,
            namespace,
            env_id,
            base_image_digest,
            base_image_digest_status,
            steps: self.steps,
            result: ManifestResultV1 {
                ok: !self.failed,
                exit_code: self.exit_code,
                error: self.error,
            },
        }
    }
}

/// Run short-circuit: the moment a state records a failure, the next
/// action is to finish — no later planned step is ever attempted,
/// and the manifest keeps exactly the records made so far.
pub proof fn lemma_run_short_circuits(planned: Seq<String>, st: RunState)
    requires
        st.failed,
    ensures
        next_action_spec(planned, st) == RunAction::Finish,
{
}

} // verus!