//! The process executor model: what the container engine adapter
//! decides once a subprocess has finished.
//!
//! The engine binary itself runs in the application crate; the
//! library receives the exit code and the captured byte streams and
//! does everything that can be verified: failure classification,
//! output truncation, error construction and rendering, and the
//! operator hints keyed by failure kind.

use vstd::prelude::*;

use crate::json::push_i32_dec;
use crate::text::chars_to_string;
use crate::text::contains_seq;
use crate::text::contains_chars;
use crate::text::lower_chars;
use crate::text::push_str_chars;
use crate::text::push_u64_dec;
use crate::text::str_chars;
use crate::text::to_lower_chars;
use crate::text::u64_dec;

verus! {

/// A handle on the container engine binary.
#[derive(Debug, Clone)]
pub struct Podman {
    pub path: String,
}

/// What one finished subprocess produced.
#[derive(Debug, Clone)]
pub struct ExecResult {
    pub exit_code: i32,
    pub duration_ms: u64,
    pub stdout: Vec<u8>,
    pub stderr: Vec<u8>,
}

/// How a subprocess's output is handled.
#[derive(Debug, Clone, Copy)]
pub enum ExecMode {
    Capture,
}

/// The advisory classification of an engine failure.
#[derive(Debug, Clone, PartialEq, Eq, Structural)]
pub enum PodmanErrorKind {
    NotInstalled,
    PermissionDenied,
    StorageError,
    CommandFailed,
    Unknown,
}

/// A failed engine invocation, with truncated output and optional
/// on-disk log locations.
#[derive(Debug, Clone)]
pub struct PodmanRunError {
    pub kind: PodmanErrorKind,
    pub command: String,
    pub status: Option<i32>,
    pub stderr_trunc: String,
    pub stdout_trunc: String,
    pub stderr_path: Option<String>,
    pub stdout_path: Option<String>,
}

/// Names the character sequence that std's lossy UTF-8 decoding
/// assigns to a byte sequence; the result depends on the bytes
/// alone.
pub uninterp spec fn lossy_utf8_of(bytes: Seq<u8>) -> Seq<char>;

/// Relies on std's `String::from_utf8_lossy`: the bytes decoded as
/// UTF-8, with invalid sequences replaced.
#[verifier::external_body]
pub fn lossy_utf8(bytes: &[u8]) -> (r: String)
    ensures
        r@ == lossy_utf8_of(bytes@),
{
    String::from_utf8_lossy(bytes).into_owned()
}

/// The classification rule, over the lossy decoding of the captured
/// stderr: first match wins, and it is advisory only.
pub open spec fn classify_spec(exit_code: int, s: Seq<char>) -> PodmanErrorKind {
    let low = lower_chars(s);
    if contains_seq(low, "permission denied"@) {
        PodmanErrorKind::PermissionDenied
    } else if contains_seq(low, "creating container storage"@) || contains_seq(
        low,
        "containers/storage"@,
    ) || contains_seq(low, "storage error"@) {
        PodmanErrorKind::StorageError
    } else if exit_code == 127 || contains_seq(low, "not found"@) {
        PodmanErrorKind::NotInstalled
    } else {
        PodmanErrorKind::CommandFailed
    }
}

/// Classify a failed invocation from its exit code and captured
/// stderr, by a case-insensitive scan for known substrings.
pub fn classify_failure(exit_code: i32, stderr: &[u8]) -> (r: PodmanErrorKind)
    ensures
        r == classify_spec(exit_code as int, lossy_utf8_of(stderr@)),
{
    let text = lossy_utf8(stderr);
    let chars = str_chars(text.as_str());
    let low = to_lower_chars(&chars);
    if contains_chars(&low, &str_chars("permission denied")) {
        return PodmanErrorKind::PermissionDenied;
    }
    if contains_chars(&low, &str_chars("creating container storage")) || contains_chars(
        &low,
        &str_chars("containers/storage"),
    ) || contains_chars(&low, &str_chars("storage error")) {
        return PodmanErrorKind::StorageError;
    }
    if exit_code == 127 || contains_chars(&low, &str_chars("not found")) {
        return PodmanErrorKind::NotInstalled;
    }
    PodmanErrorKind::CommandFailed
}

/// What output truncation yields: the whole decoding when it fits
/// the budget, else a marker line and the decoded tail.
pub open spec fn trunc_spec(bytes: Seq<u8>, max_len: int) -> Seq<char> {
    if bytes.len() <= max_len {
        lossy_utf8_of(bytes)
    } else {
        "…(truncated, showing last "@ + u64_dec(max_len) + " bytes)…\n"@ + lossy_utf8_of(
            bytes.skip(bytes.len() - max_len),
        )
    }
}

/// Decode output for embedding in an error message, keeping the most
/// recent `max_len` bytes and marking any omission.
pub fn trunc_utf8_lossy(bytes: &[u8], max_len: usize) -> (r: String)
    ensures
        r@ == trunc_spec(bytes@, max_len as int),
{
    let n = bytes.len();
    if n <= max_len {
        return lossy_utf8(bytes);
    }
    let tail = vstd::slice::slice_subrange(bytes, n - max_len, n);
    proof {
        assert(tail@ =~= bytes@.skip(bytes@.len() - max_len));
    }
    let decoded = lossy_utf8(tail);
    let mut out: Vec<char> = Vec::new();
    push_str_chars(&mut out, "…(truncated, showing last ");
    push_u64_dec(&mut out, max_len as u64);
    push_str_chars(&mut out, " bytes)…\n");
    push_str_chars(&mut out, decoded.as_str());
    proof {
        assert(out@ =~= trunc_spec(bytes@, max_len as int));
    }
    chars_to_string(&out)
}

/// The byte budget for output embedded in error messages.
pub fn trunc_budget() -> (r: usize)
    ensures
        r == 16384,
{
    16384
}

/// One command line, as logged: the binary path and the arguments,
/// space-separated.
pub open spec fn format_cmd_spec(bin: Seq<char>, args: Seq<String>) -> Seq<char>
    decreases args.len(),
{
    if args.len() == 0 {
        bin
    } else {
        format_cmd_spec(bin, args.drop_last()) + seq![' '] + args.last()@
    }
}

/// Render a command line for logs and error messages.
pub fn format_cmd(bin: &str, args: &Vec<String>) -> (r: String)
    ensures
        r@ == format_cmd_spec(bin@, args@),
{
    let mut out: Vec<char> = Vec::new();
    push_str_chars(&mut out, bin);
    let n = args.len();
    let mut i: usize = 0;
    while i < n
        invariant
            n == args@.len(),
            i <= n,
            out@ == format_cmd_spec(bin@, args@.take(i as int)),
        decreases n - i,
    {
        out.push(' ');
        push_str_chars(&mut out, args[i].as_str());
        i = i + 1;
        proof {
            assert(args@.take(i as int).drop_last() =~= args@.take(i - 1));
            assert(args@.take(i as int).last() == args@[i - 1]);
            assert(out@ =~= format_cmd_spec(bin@, args@.take(i as int)));
        }
    }
    proof {
        assert(args@.take(n as int) =~= args@);
    }
    chars_to_string(&out)
}

impl PodmanRunError {
    /// Build the error for a failed invocation: classify the failure
    /// and keep truncated copies of both streams.
    pub fn from_exec(
        command: String,
        exit_code: i32,
        stdout: &[u8],
        stderr: &[u8],
        stdout_path: Option<String>,
        stderr_path: Option<String>,
    ) -> (r: Self)
        ensures
            r.kind == classify_spec(exit_code as int, lossy_utf8_of(stderr@)),
            r.command == command,
            r.status == Some(exit_code),
            r.stderr_trunc@ == trunc_spec(stderr@, 16384),
            r.stdout_trunc@ == trunc_spec(stdout@, 16384),
            r.stderr_path == stderr_path,
            r.stdout_path == stdout_path,
    {
        let kind = classify_failure(exit_code, stderr);
        PodmanRunError {
            kind,
            command,
            status: Some(exit_code),
            stderr_trunc: trunc_utf8_lossy(stderr, trunc_budget()),
            stdout_trunc: trunc_utf8_lossy(stdout, trunc_budget()),
            stderr_path,
            stdout_path,
        }
    }
}

/// The display name of a failure kind.
pub open spec fn kind_label_spec(k: PodmanErrorKind) -> Seq<char> {
    match k {
        PodmanErrorKind::NotInstalled => "NotInstalled"@,
        PodmanErrorKind::PermissionDenied => "PermissionDenied"@,
        PodmanErrorKind::StorageError => "StorageError"@,
        PodmanErrorKind::CommandFailed => "CommandFailed"@,
        PodmanErrorKind::Unknown => "Unknown"@,
    }
}

impl PodmanErrorKind {
    /// The display name of this failure kind.
    pub fn label(&self) -> (r: &'static str)
        ensures
            r@ == kind_label_spec(*self),
    {
        match self {
            PodmanErrorKind::NotInstalled => "NotInstalled",
            PodmanErrorKind::PermissionDenied => "PermissionDenied",
            PodmanErrorKind::StorageError => "StorageError",
            PodmanErrorKind::CommandFailed => "CommandFailed",
            PodmanErrorKind::Unknown => "Unknown",
        }
    }
}

/// The message text of a failed invocation, over the views of its
/// parts.
pub open spec fn run_error_msg_view(
    kind: PodmanErrorKind,
    status: Option<int>,
    stderr_trunc: Seq<char>,
    stderr_path: Option<Seq<char>>,
    stdout_path: Option<Seq<char>>,
) -> Seq<char> {
    let base = "podman failed ("@ + kind_label_spec(kind) + ") exit_code="@ + crate::json::int_dec(
        match status {
            Some(c) => c,
            None => 1,
        },
    ) + ": "@ + stderr_trunc;
    let with_err = match stderr_path {
        Some(p) => base + " (stderr: "@ + p + ")"@,
        None => base,
    };
    match stdout_path {
        Some(p) => with_err + " (stdout: "@ + p + ")"@,
        None => with_err,
    }
}

/// The message text of a failed invocation.
pub open spec fn run_error_msg(e: PodmanRunError) -> Seq<char> {
    run_error_msg_view(
        e.kind,
        match e.status {
            Some(c) => Some(c as int),
            None => None,
        },
        e.stderr_trunc@,
        match e.stderr_path {
            Some(p) => Some(p@),
            None => None,
        },
        match e.stdout_path {
            Some(p) => Some(p@),
            None => None,
        },
    )
}

impl PodmanRunError {
    /// Render the error as its message text.
    pub fn message(&self) -> (r: String)
        ensures
            r@ == run_error_msg(*self),
    {
        let mut out: Vec<char> = Vec::new();
        push_str_chars(&mut out, "podman failed (");
        push_str_chars(&mut out, self.kind.label());
        push_str_chars(&mut out, ") exit_code=");
        match self.status {
            Some(c) => {
                push_i32_dec(&mut out, c);
            },
            None => {
                push_i32_dec(&mut out, 1);
            },
        }
        push_str_chars(&mut out, ": ");
        push_str_chars(&mut out, self.stderr_trunc.as_str());
        match &self.stderr_path {
            Some(p) => {
                push_str_chars(&mut out, " (stderr: ");
                push_str_chars(&mut out, p.as_str());
                push_str_chars(&mut out, ")");
            },
            None => {},
        }
        match &self.stdout_path {
            Some(p) => {
                push_str_chars(&mut out, " (stdout: ");
                push_str_chars(&mut out, p.as_str());
                push_str_chars(&mut out, ")");
            },
            None => {},
        }
        proof {
            assert(out@ =~= run_error_msg(*self));
        }
        chars_to_string(&out)
    }
}

impl Podman {
    /// Decide the outcome of a captured invocation: a non-zero exit
    /// becomes a classified error carrying truncated output, a zero
    /// exit hands the streams back.
    pub fn finish_capture(
        &self,
        command: String,
        exit_code: i32,
        stdout: Vec<u8>,
        stderr: Vec<u8>,
        duration_ms: u64,
    ) -> (r: Result<ExecResult, PodmanRunError>)
        ensures
            match r {
                Ok(x) => exit_code == 0 && x.exit_code == 0 && x.duration_ms == duration_ms
                    && x.stdout == stdout && x.stderr == stderr,
                Err(e) => exit_code != 0 && e.kind == classify_spec(
                    exit_code as int,
                    lossy_utf8_of(stderr@),
                ) && e.command == command && e.status == Some(exit_code) && e.stderr_trunc@
                    == trunc_spec(stderr@, 16384) && e.stdout_trunc@ == trunc_spec(stdout@, 16384)
                    && e.stderr_path is None && e.stdout_path is None,
            },
    {
        if exit_code != 0 {
            let err = PodmanRunError::from_exec(
                command,
                exit_code,
                stdout.as_slice(),
                stderr.as_slice(),
                None,
                None,
            );
            return Err(err);
        }
        Ok(ExecResult { exit_code, duration_ms, stdout, stderr })
    }

    /// Package a finished invocation without judging its exit code;
    /// the caller decides success.
    pub fn finish_capture_allow_failure(
        &self,
        exit_code: i32,
        stdout: Vec<u8>,
        stderr: Vec<u8>,
        duration_ms: u64,
    ) -> (r: ExecResult)
        ensures
            r.exit_code == exit_code,
            r.duration_ms == duration_ms,
            r.stdout == stdout,
            r.stderr == stderr,
    {
        ExecResult { exit_code, duration_ms, stdout, stderr }
    }
}

/// The fixed remediation hint for each failure kind.
pub open spec fn kind_hint_spec(k: PodmanErrorKind) -> Seq<char> {
    match k {
        PodmanErrorKind::NotInstalled => "podman is not installed or not on PATH. Install Podman and ensure `podman` is available in your shell PATH."@,
        PodmanErrorKind::PermissionDenied => "podman returned a permission error. Verify rootless Podman is working for your user (try `podman info`). If SELinux is enforcing, ensure volume mounts use proper labels (e.g., `:Z`) and that your storage directory is writable."@,
        PodmanErrorKind::StorageError => "podman storage appears unhealthy. Common fixes: (1) ensure you have free disk space/inodes, (2) run `podman system check`, (3) if storage is corrupt, consider `podman system reset` (destructive). If podCI printed stderr/stdout file paths, review those logs for the exact storage error."@,
        PodmanErrorKind::CommandFailed => "the container step failed. Review the step stderr/stdout (podCI prints log paths when available) and re-run with `RUST_LOG=info` for more context. If the failure is deterministic, it should reproduce locally with the same podCI profile/job."@,
        PodmanErrorKind::Unknown => "podman failed for an unknown reason. Re-run with `RUST_LOG=info` and inspect the stderr/stdout logs if paths are shown. If this persists, capture `podman info --debug` output."@,
    }
}

/// Look the fixed remediation hint up for a failure kind.
pub fn hints_for_podman_kind(kind: &PodmanErrorKind) -> (r: &'static str)
    ensures
        r@ == kind_hint_spec(*kind),
{
    match kind {
        PodmanErrorKind::NotInstalled => {
            "podman is not installed or not on PATH. Install Podman and ensure `podman` is available in your shell PATH."
        },
        PodmanErrorKind::PermissionDenied => {
            "podman returned a permission error. Verify rootless Podman is working for your user (try `podman info`). If SELinux is enforcing, ensure volume mounts use proper labels (e.g., `:Z`) and that your storage directory is writable."
        },
        PodmanErrorKind::StorageError => {
            "podman storage appears unhealthy. Common fixes: (1) ensure you have free disk space/inodes, (2) run `podman system check`, (3) if storage is corrupt, consider `podman system reset` (destructive). If podCI printed stderr/stdout file paths, review those logs for the exact storage error."
        },
        PodmanErrorKind::CommandFailed => {
            "the container step failed. Review the step stderr/stdout (podCI prints log paths when available) and re-run with `RUST_LOG=info` for more context. If the failure is deterministic, it should reproduce locally with the same podCI profile/job."
        },
        PodmanErrorKind::Unknown => {
            "podman failed for an unknown reason. Re-run with `RUST_LOG=info` and inspect the stderr/stdout logs if paths are shown. If this persists, capture `podman info --debug` output."
        },
    }
}

} // verus!
