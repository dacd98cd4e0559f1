//! The image resolver's decisions.
//!
//! A container reference is either a symbolic template from the
//! catalog (built locally, reused by tag) or an explicit external
//! image reference (inspected only); ambiguous bare names are
//! rejected rather than guessed. Digest capture is best-effort and
//! reported as a three-way status.

use vstd::prelude::*;

use crate::config::is_space_char;
use crate::process::ExecResult;
use crate::process::lossy_utf8_of;
use crate::process::trunc_spec;
use crate::process::trunc_utf8_lossy;
use crate::process::trunc_budget;
use crate::process::lossy_utf8;
use crate::templates::known_template;
use crate::templates::is_known_template;
use crate::text::chars_to_string;
use crate::text::push_str_chars;
use crate::text::str_chars;
use crate::text::str_eq;

verus! {

/// How a container reference is treated.
#[derive(Debug, Clone, Copy, PartialEq, Eq, Structural)]
pub enum ContainerRefKind {
    SymbolicTemplate,
    ExplicitImageRef,
}

/// Why a container reference was rejected.
#[derive(Debug, Clone, PartialEq, Eq)]
pub enum RefError {
    InvalidRef(String),
    UnknownTemplate(String),
}

/// The characters an explicit image reference may use.
pub open spec fn ref_char_ok(c: char) -> bool {
    (48 <= (c as u32) <= 57) || (65 <= (c as u32) <= 90) || (97 <= (c as u32) <= 122) || c == '.'
        || c == '-' || c == '_' || c == '/' || c == '@' || c == ':'
}

/// Whether a reference carries a registry/tag/digest separator.
pub open spec fn has_ref_sep(s: Seq<char>) -> bool {
    exists|i: int| 0 <= i < s.len() && (s[i] == '/' || s[i] == ':' || s[i] == '@')
}

/// Whether every character of a reference is allowed.
pub open spec fn ref_chars_ok(s: Seq<char>) -> bool {
    forall|i: int| 0 <= i < s.len() ==> ref_char_ok(#[trigger] s[i])
}

/// Classify a container reference: a known template name is
/// symbolic; otherwise the reference must be explicit (contain `/`,
/// `:` or `@` and use only reference characters) or it is rejected.
pub fn classify_container_ref(container: &str) -> (r: Result<ContainerRefKind, RefError>)
    ensures
        match r {
            Ok(ContainerRefKind::SymbolicTemplate) => known_template(container@),
            Ok(ContainerRefKind::ExplicitImageRef) => !known_template(container@) && has_ref_sep(
                container@,
            ) && ref_chars_ok(container@),
            Err(RefError::InvalidRef(s)) => !known_template(container@) && has_ref_sep(container@)
                && !ref_chars_ok(container@) && s@ == container@,
            Err(RefError::UnknownTemplate(s)) => !known_template(container@) && !has_ref_sep(
                container@,
            ) && s@ == container@,
        },
{
    if is_known_template(container) {
        return Ok(ContainerRefKind::SymbolicTemplate);
    }
    let chars = str_chars(container);
    let n = chars.len();
    let mut sep = false;
    let mut ok = true;
    let mut i: usize = 0;
    while i < n
        invariant
            n == container@.len(),
            chars@ == container@,
            i <= n,
            sep == (exists|j: int|
                0 <= j < i && (container@[j] == '/' || container@[j] == ':' || container@[j]
                    == '@')),
            ok == (forall|j: int| 0 <= j < i ==> ref_char_ok(#[trigger] container@[j])),
        decreases n - i,
    {
        let c = chars[i];
        let u = c as u32;
        if c == '/' || c == ':' || c == '@' {
            sep = true;
        }
        if !((48 <= u && u <= 57) || (65 <= u && u <= 90) || (97 <= u && u <= 122) || c == '.' || c
            == '-' || c == '_' || c == '/' || c == '@' || c == ':') {
            ok = false;
        }
        i = i + 1;
    }
    if sep {
        if ok {
            Ok(ContainerRefKind::ExplicitImageRef)
        } else {
            Err(RefError::InvalidRef(container.to_owned()))
        }
    } else {
        Err(RefError::UnknownTemplate(container.to_owned()))
    }
}

impl RefError {
    /// Render the rejection as its message text.
    pub fn message(&self) -> (r: String)
        ensures
            match self {
                RefError::InvalidRef(s) => r@ == "invalid container reference '"@ + s@
                    + "': use only ASCII alphanumerics and .-_/ @ : (no whitespace)"@,
                RefError::UnknownTemplate(s) => r@ == "unknown container template '"@ + s@
                    + "'. To use an external image, specify an explicit image reference (e.g. 'docker.io/library/ubuntu:24.04')."@,
            },
    {
        let mut out: Vec<char> = Vec::new();
        match self {
            RefError::InvalidRef(s) => {
                push_str_chars(&mut out, "invalid container reference '");
                push_str_chars(&mut out, s.as_str());
                push_str_chars(
                    &mut out,
                    "': use only ASCII alphanumerics and .-_/ @ : (no whitespace)",
                );
            },
            RefError::UnknownTemplate(s) => {
                push_str_chars(&mut out, "unknown container template '");
                push_str_chars(&mut out, s.as_str());
                push_str_chars(
                    &mut out,
                    "'. To use an external image, specify an explicit image reference (e.g. 'docker.io/library/ubuntu:24.04').",
                );
            },
        }
        chars_to_string(&out)
    }
}

/// The best-effort digest status of an image.
#[derive(Debug, Clone, PartialEq, Eq)]
pub enum ImageDigestStatus {
    Present(String),
    Unavailable,
    Error(String),
}

/// Map a digest status to the optional digest and the status word
/// recorded in the manifest.
pub fn digest_from_status(st: ImageDigestStatus) -> (r: (Option<String>, String))
    ensures
        match st {
            ImageDigestStatus::Present(d) => r.0 == Some(d) && r.1@ == "present"@,
            ImageDigestStatus::Unavailable => r.0 is None && r.1@ == "unavailable"@,
            ImageDigestStatus::Error(e) => r.0 is None && r.1@ == "error"@,
        },
{
    match st {
        ImageDigestStatus::Present(d) => (Some(d), "present".to_owned()),
        ImageDigestStatus::Unavailable => (None, "unavailable".to_owned()),
        ImageDigestStatus::Error(e) => (None, "error".to_owned()),
    }
}

/// A string with surrounding whitespace removed.
pub open spec fn trim_spec(s: Seq<char>) -> Seq<char> {
    let start = trim_start_idx(s, 0);
    let end = trim_end_idx(s, s.len() as int);
    if start < end {
        s.subrange(start, end)
    } else {
        Seq::empty()
    }
}

/// The first index from `i` whose character is not whitespace.
pub open spec fn trim_start_idx(s: Seq<char>, i: int) -> int
    decreases s.len() - i,
{
    if i < 0 || i >= s.len() {
        s.len() as int
    } else if is_space_char(s[i]) {
        trim_start_idx(s, i + 1)
    } else {
        i
    }
}

/// The index after the last non-whitespace character before `i`.
pub open spec fn trim_end_idx(s: Seq<char>, i: int) -> int
    decreases i,
{
    if i <= 0 || i > s.len() {
        0
    } else if is_space_char(s[i - 1]) {
        trim_end_idx(s, i - 1)
    } else {
        i
    }
}

/// Whether a character is whitespace.
fn is_ws(c: char) -> (r: bool)
    ensures
        r == is_space_char(c),
{
    let u = c as u32;
    c == ' ' || c == '\t' || c == '\n' || c == '\r' || u == 11 || u == 12
}

/// Trim surrounding whitespace from a vector of characters.
fn trim_chars(s: &Vec<char>) -> (r: Vec<char>)
    ensures
        r@ == trim_spec(s@),
{
    let n = s.len();
    let mut start: usize = 0;
    while start < n && is_ws(s[start])
        invariant
            n == s@.len(),
            start <= n,
            trim_start_idx(s@, 0) == trim_start_idx(s@, start as int),
        decreases n - start,
    {
        start = start + 1;
    }
    proof {
        if start < s@.len() {
            assert(trim_start_idx(s@, start as int) == start as int);
        } else {
            assert(trim_start_idx(s@, start as int) == s@.len() as int);
        }
    }
    let mut end: usize = n;
    while end > 0 && is_ws(s[end - 1])
        invariant
            n == s@.len(),
            end <= n,
            trim_end_idx(s@, n as int) == trim_end_idx(s@, end as int),
        decreases end,
    {
        end = end - 1;
    }
    proof {
        if end > 0 {
            assert(trim_end_idx(s@, end as int) == end as int);
        } else {
            assert(trim_end_idx(s@, 0) == 0);
        }
    }
    let mut out: Vec<char> = Vec::new();
    if start >= end {
        proof {
            assert(out@ =~= trim_spec(s@));
        }
        return out;
    }
    let mut i: usize = start;
    while i < end
        invariant
            start <= i <= end <= s@.len(),
            out@ == s@.subrange(start as int, i as int),
        decreases end - i,
    {
        out.push(s[i]);
        i = i + 1;
        proof {
            assert(out@ =~= s@.subrange(start as int, i as int));
        }
    }
    proof {
        assert(out@ =~= trim_spec(s@));
    }
    out
}

/// Decide the digest status from an inspect invocation: a failed
/// inspect is an error carrying truncated stderr; an empty or
/// placeholder digest is unavailable; anything else is the digest.
pub fn digest_status_from_exec(r: &ExecResult) -> (st: ImageDigestStatus)
    ensures
        r.exit_code != 0 ==> (st matches ImageDigestStatus::Error(e) && e@ == trunc_spec(
            r.stderr@,
            16384,
        )),
        r.exit_code == 0 ==> {
            let t = trim_spec(lossy_utf8_of(r.stdout@));
            if t.len() == 0 || t == "<no value>"@ {
                st is Unavailable
            } else {
                st matches ImageDigestStatus::Present(d) && d@ == t
            }
        },
{
    if r.exit_code != 0 {
        return ImageDigestStatus::Error(trunc_utf8_lossy(r.stderr.as_slice(), trunc_budget()));
    }
    let text = lossy_utf8(r.stdout.as_slice());
    let chars = str_chars(text.as_str());
    let trimmed = trim_chars(&chars);
    let s = chars_to_string(&trimmed);
    if trimmed.len() == 0 || str_eq(s.as_str(), "<no value>") {
        ImageDigestStatus::Unavailable
    } else {
        ImageDigestStatus::Present(s)
    }
}

/// The local tag for a template image at a tool version.
pub fn image_tag_for_template(name: &str, version: &str) -> (r: String)
    ensures
        r@ == "localhost/podci-"@ + name@ + ":v"@ + version@,
{
    let mut out: Vec<char> = Vec::new();
    push_str_chars(&mut out, "localhost/podci-");
    push_str_chars(&mut out, name);
    push_str_chars(&mut out, ":v");
    push_str_chars(&mut out, version);
    chars_to_string(&out)
}

/// The build plan for a template image: a prior image is removed
/// only on a forced rebuild, and a build happens exactly when forced
/// or when the tag does not exist yet — at most one build per tag
/// otherwise.
pub fn plan_image_build(exists: bool, rebuild: bool) -> (r: (bool, bool))
    ensures
        r.0 == (rebuild && exists),
        r.1 == (rebuild || !exists),
{
    (rebuild && exists, rebuild || !exists)
}

} // verus!
