//! The template provider's decisions.
//!
//! Templates are looked up across a list of search roots (first root
//! wins), with the embedded `generic` template always available as a
//! fallback. The catalog of symbolic template images and the safety
//! rules for template payload paths live here; reading directories
//! and writing files is the application crate's business.

use vstd::prelude::*;

use crate::dict::Dict;
use crate::dict::has_key;
use crate::text::chars_to_string;
use crate::text::push_str_chars;
use crate::text::str_eq;

verus! {

/// Where a resolved template lives.
#[derive(Debug, Clone, PartialEq, Eq)]
pub enum TemplateOrigin {
    Disk(String),
    Embedded,
}

/// One available template.
#[derive(Debug, Clone, PartialEq, Eq)]
pub struct TemplateEntry {
    pub name: String,
    pub origin: TemplateOrigin,
}

/// Why a template operation failed.
#[derive(Debug, Clone, PartialEq, Eq)]
pub enum TemplateError {
    UnknownTemplate(String),
    UnknownImage(String),
    UnsafePath(String),
}

impl TemplateError {
    /// Render the error as its message text.
    pub fn message(&self) -> (r: String)
        ensures
            match self {
                TemplateError::UnknownTemplate(s) => r@ == "unknown template '"@ + s@
                    + "'. Use 'podci templates list' to see available templates."@,
                TemplateError::UnknownImage(s) => r@ == "unknown template image container: "@
                    + s@,
                TemplateError::UnsafePath(s) => r@ == "template produced unsafe path component: "@
                    + s@,
            },
    {
        let mut out: Vec<char> = Vec::new();
        match self {
            TemplateError::UnknownTemplate(s) => {
                push_str_chars(&mut out, "unknown template '");
                push_str_chars(&mut out, s.as_str());
                push_str_chars(&mut out, "'. Use 'podci templates list' to see available templates.");
            },
            TemplateError::UnknownImage(s) => {
                push_str_chars(&mut out, "unknown template image container: ");
                push_str_chars(&mut out, s.as_str());
            },
            TemplateError::UnsafePath(s) => {
                push_str_chars(&mut out, "template produced unsafe path component: ");
                push_str_chars(&mut out, s.as_str());
            },
        }
        chars_to_string(&out)
    }
}

/// The catalog of symbolic template images.
pub open spec fn known_template(s: Seq<char>) -> bool {
    s == "rust-alpine"@ || s == "rust-debian"@ || s == "cpp-debian"@ || s == "kde-mixed-debian"@
}

/// Whether a name is a symbolic template of the catalog.
pub fn is_known_template(name: &str) -> (r: bool)
    ensures
        r == known_template(name@),
{
    str_eq(name, "rust-alpine") || str_eq(name, "rust-debian") || str_eq(name, "cpp-debian")
        || str_eq(name, "kde-mixed-debian")
}

/// The container build recipe of each catalog template.
pub open spec fn containerfile_spec(s: Seq<char>) -> Seq<char> {
    if s == "rust-alpine"@ {
        "FROM docker.io/library/rust:alpine\nRUN apk add --no-cache build-base git\nENV CARGO_HOME=/usr/local/cargo\nWORKDIR /work\n"@
    } else if s == "rust-debian"@ {
        "FROM docker.io/library/rust:slim-bookworm\nRUN apt-get update && apt-get install -y --no-install-recommends build-essential git pkg-config && rm -rf /var/lib/apt/lists/*\nENV CARGO_HOME=/usr/local/cargo\nWORKDIR /work\n"@
    } else if s == "cpp-debian"@ {
        "FROM docker.io/library/debian:bookworm-slim\nRUN apt-get update && apt-get install -y --no-install-recommends build-essential cmake ninja-build git && rm -rf /var/lib/apt/lists/*\nWORKDIR /work\n"@
    } else {
        "FROM docker.io/library/debian:bookworm-slim\nRUN apt-get update && apt-get install -y --no-install-recommends build-essential cmake ninja-build git qt6-base-dev extra-cmake-modules && rm -rf /var/lib/apt/lists/*\nWORKDIR /work\n"@
    }
}

/// The build recipe for a symbolic template image; unknown names are
/// rejected.
pub fn containerfile_for(platform: &str) -> (r: Result<&'static str, TemplateError>)
    ensures
        match r {
            Ok(c) => known_template(platform@) && c@ == containerfile_spec(platform@),
            Err(e) => !known_template(platform@) && (e matches TemplateError::UnknownImage(s)
                && s@ == platform@),
        },
{
    if str_eq(platform, "rust-alpine") {
        Ok(
            "FROM docker.io/library/rust:alpine\nRUN apk add --no-cache build-base git\nENV CARGO_HOME=/usr/local/cargo\nWORKDIR /work\n",
        )
    } else if str_eq(platform, "rust-debian") {
        Ok(
            "FROM docker.io/library/rust:slim-bookworm\nRUN apt-get update && apt-get install -y --no-install-recommends build-essential git pkg-config && rm -rf /var/lib/apt/lists/*\nENV CARGO_HOME=/usr/local/cargo\nWORKDIR /work\n",
        )
    } else if str_eq(platform, "cpp-debian") {
        Ok(
            "FROM docker.io/library/debian:bookworm-slim\nRUN apt-get update && apt-get install -y --no-install-recommends build-essential cmake ninja-build git && rm -rf /var/lib/apt/lists/*\nWORKDIR /work\n",
        )
    } else if str_eq(platform, "kde-mixed-debian") {
        Ok(
            "FROM docker.io/library/debian:bookworm-slim\nRUN apt-get update && apt-get install -y --no-install-recommends build-essential cmake ninja-build git qt6-base-dev extra-cmake-modules && rm -rf /var/lib/apt/lists/*\nWORKDIR /work\n",
        )
    } else {
        Err(TemplateError::UnknownImage(platform.to_owned()))
    }
}

/// The embedded metadata of the generic template.
pub fn generic_template_toml() -> (r: &'static str)
    ensures
        r@ == "name = \"generic\"\ndescription = \"Minimal generic starter; edit podci.toml to fit your repo\"\n"@,
{
    "name = \"generic\"\ndescription = \"Minimal generic starter; edit podci.toml to fit your repo\"\n"
}

/// The embedded starter configuration of the generic template.
pub fn generic_podci_toml() -> (r: &'static str)
    ensures
        r@
            == "version = 1\nproject = \"REPLACE_ME\"\n\n[profiles.dev]\ncontainer = \"alpine:3.20\"\n\n[jobs.default]\nprofile = \"dev\"\nstep_order = [\"info\"]\n\n[jobs.default.steps.info]\nrun = [\"sh\", \"-c\", \"echo 'podCI initialized for REPLACE_ME'\"]\n"@,
{
    "version = 1\nproject = \"REPLACE_ME\"\n\n[profiles.dev]\ncontainer = \"alpine:3.20\"\n\n[jobs.default]\nprofile = \"dev\"\nstep_order = [\"info\"]\n\n[jobs.default.steps.info]\nrun = [\"sh\", \"-c\", \"echo 'podCI initialized for REPLACE_ME'\"]\n"
}

/// Which resolution a template lookup reaches, scanning the roots
/// from position `i`: the first root that holds the template wins.
pub open spec fn resolve_from(
    roots: Seq<String>,
    present: Seq<bool>,
    name: Seq<char>,
    i: int,
) -> Option<int>
    decreases roots.len() - i,
{
    if i < 0 || i >= roots.len() {
        None
    } else if present[i] {
        Some(i)
    } else {
        resolve_from(roots, present, name, i + 1)
    }
}

/// Resolve a template by name: the first search root that holds it
/// wins; the embedded `generic` template is the fallback; any other
/// name is unknown. `present[i]` says whether `roots[i]` holds a
/// directory `<name>` with a template manifest, as probed by the
/// caller.
pub fn resolve_template(roots: &Vec<String>, present: &Vec<bool>, name: &str) -> (r: Result<
    TemplateEntry,
    TemplateError,
>)
    requires
        roots@.len() == present@.len(),
    ensures
        match r {
            Ok(e) => e.name@ == name@ && match e.origin {
                TemplateOrigin::Disk(p) => resolve_from(roots@, present@, name@, 0) matches Some(i)
                    && p@ == roots@[i]@ + "/"@ + name@,
                TemplateOrigin::Embedded => resolve_from(roots@, present@, name@, 0) is None
                    && name@ == "generic"@,
            },
            Err(e) => resolve_from(roots@, present@, name@, 0) is None && name@ != "generic"@ && (
            e matches TemplateError::UnknownTemplate(s) && s@ == name@),
        },
{
    let n = roots.len();
    let mut i: usize = 0;
    while i < n
        invariant
            n == roots@.len(),
            n == present@.len(),
            i <= n,
            resolve_from(roots@, present@, name@, 0) == resolve_from(
                roots@,
                present@,
                name@,
                i as int,
            ),
        decreases n - i,
    {
        if present[i] {
            let mut p: Vec<char> = Vec::new();
            push_str_chars(&mut p, roots[i].as_str());
            push_str_chars(&mut p, "/");
            push_str_chars(&mut p, name);
            return Ok(
                TemplateEntry { name: name.to_owned(), origin: TemplateOrigin::Disk(
                    chars_to_string(&p),
                ) },
            );
        }
        i = i + 1;
    }
    if str_eq(name, "generic") {
        return Ok(TemplateEntry { name: name.to_owned(), origin: TemplateOrigin::Embedded });
    }
    Err(TemplateError::UnknownTemplate(name.to_owned()))
}

/// Copy a template entry.
fn clone_entry(e: &TemplateEntry) -> (r: TemplateEntry)
    ensures
        r == *e,
{
    let origin = match &e.origin {
        TemplateOrigin::Disk(p) => TemplateOrigin::Disk(p.clone()),
        TemplateOrigin::Embedded => TemplateOrigin::Embedded,
    };
    TemplateEntry { name: e.name.clone(), origin }
}

/// The merge of scanned template entries, first occurrence of each
/// name winning, over the first `i` entries.
pub open spec fn merge_upto(found: Seq<TemplateEntry>, i: int) -> Seq<(String, TemplateEntry)>
    decreases i,
{
    if i <= 0 {
        Seq::empty()
    } else {
        let prev = merge_upto(found, i - 1);
        if has_key(prev, found[i - 1].name@) {
            prev
        } else {
            crate::dict::entries_insert(prev, found[i - 1].name, found[i - 1])
        }
    }
}

/// Merge scanned template entries: the first root's entry wins for
/// each name, the result is sorted by name, and the embedded
/// `generic` template is appended when no disk template shadows it.
pub fn list_templates(found: &Vec<TemplateEntry>) -> (r: Vec<TemplateEntry>)
    ensures
        ({
            let merged = merge_upto(found@, found@.len() as int);
            if has_key(merged, "generic"@) {
                r@.len() == merged.len() && (forall|i: int|
                    0 <= i < r@.len() ==> #[trigger] r@[i] == merged[i].1)
            } else {
                exists|g: String|
                    #[trigger] g@ == "generic"@ && {
                        let withg = crate::dict::entries_insert(
                            merged,
                            g,
                            TemplateEntry { name: g, origin: TemplateOrigin::Embedded },
                        );
                        r@.len() == withg.len() && (forall|i: int|
                            0 <= i < r@.len() ==> #[trigger] r@[i] == withg[i].1)
                    }
            }
        }),
{
    let n = found.len();
    let mut d: Dict<TemplateEntry> = Dict::new();
    let mut i: usize = 0;
    while i < n
        invariant
            n == found@.len(),
            i <= n,
            d.wf(),
            d.pairs@ == merge_upto(found@, i as int),
        decreases n - i,
    {
        let e = &found[i];
        if !d.contains_key(e.name.as_str()) {
            d.insert(e.name.clone(), clone_entry(e));
        }
        i = i + 1;
    }
    let mut gname: Option<String> = None;
    if !d.contains_key("generic") {
        let gkey = "generic".to_owned();
        let g = TemplateEntry { name: gkey.clone(), origin: TemplateOrigin::Embedded };
        d.insert(gkey.clone(), g);
        gname = Some(gkey);
    }
    let m = d.pairs.len();
    let mut r: Vec<TemplateEntry> = Vec::new();
    let mut i: usize = 0;
    while i < m
        invariant
            m == d.pairs@.len(),
            i <= m,
            r@.len() == i,
            forall|j: int| 0 <= j < i ==> #[trigger] r@[j] == d.pairs@[j].1,
        decreases m - i,
    {
        r.push(clone_entry(&d.pairs[i].1));
        i = i + 1;
    }
    proof {
        let merged = merge_upto(found@, found@.len() as int);
        if !has_key(merged, "generic"@) {
            if let Some(g) = gname {
                assert(g@ == "generic"@);
            }
        }
    }
    r
}

/// Whether the span `[i, j)` of `s` is a path segment reading `.` or
/// `..`.
pub open spec fn bad_seg_at(s: Seq<char>, i: int, j: int) -> bool {
    &&& 0 <= i <= j <= s.len()
    &&& (i == 0 || s[i - 1] == '/')
    &&& (j == s.len() || s[j] == '/')
    &&& ((j - i == 1 && s[i] == '.') || (j - i == 2 && s[i] == '.' && s[i + 1] == '.'))
}

/// A safe relative path: not absolute, and no `.` or `..` segment.
pub open spec fn safe_rel_path(s: Seq<char>) -> bool {
    &&& !(s.len() > 0 && s[0] == '/')
    &&& !(exists|i: int, j: int| bad_seg_at(s, i, j))
}

/// Check that a template payload path is safe to write under the
/// destination: relative, with no `.` or `..` segments.
pub fn ensure_safe_rel_path(p: &str) -> (r: Result<(), TemplateError>)
    ensures
        match r {
            Ok(()) => safe_rel_path(p@),
            Err(e) => !safe_rel_path(p@) && (e matches TemplateError::UnsafePath(s) && s@ == p@),
        },
{
    let chars = crate::text::str_chars(p);
    let n = chars.len();
    if n > 0 && chars[0] == '/' {
        return Err(TemplateError::UnsafePath(p.to_owned()));
    }
    let mut i: usize = 0;
    while i < n
        invariant
            n == p@.len(),
            chars@ == p@,
            i <= n,
            forall|i2: int, j2: int| i2 < i ==> !bad_seg_at(p@, i2, j2),
        decreases n - i,
    {
        if i == 0 || chars[i - 1] == '/' {
            if chars[i] == '.' {
                if n - i == 1 || chars[i + 1] == '/' {
                    proof {
                        assert(bad_seg_at(p@, i as int, i as int + 1));
                    }
                    return Err(TemplateError::UnsafePath(p.to_owned()));
                }
                if chars[i + 1] == '.' && (n - i == 2 || chars[i + 2] == '/') {
                    proof {
                        assert(bad_seg_at(p@, i as int, i as int + 2));
                    }
                    return Err(TemplateError::UnsafePath(p.to_owned()));
                }
                proof {
                    assert forall|j2: int| !bad_seg_at(p@, i as int, j2) by {
                        if bad_seg_at(p@, i as int, j2) {
                            if j2 == i + 1 {
                                assert(j2 == p@.len() || p@[j2] == '/');
                                assert(false);
                            } else {
                                assert(j2 == i + 2 && p@[i as int + 1] == '.');
                                assert(false);
                            }
                        }
                    }
                }
            } else {
                proof {
                    assert forall|j2: int| !bad_seg_at(p@, i as int, j2) by {
                        if bad_seg_at(p@, i as int, j2) {
                            assert(p@[i as int] == '.');
                        }
                    }
                }
            }
        } else {
            proof {
                assert forall|j2: int| !bad_seg_at(p@, i as int, j2) by {
                    if bad_seg_at(p@, i as int, j2) {
                        assert(i == 0 || p@[i as int - 1] == '/');
                    }
                }
            }
        }
        i = i + 1;
    }
    proof {
        assert forall|i2: int, j2: int| !bad_seg_at(p@, i2, j2) by {
            if bad_seg_at(p@, i2, j2) {
                if i2 >= n {
                    assert(i2 <= j2 <= p@.len());
                    assert(j2 - i2 == 1 || j2 - i2 == 2);
                    assert(false);
                }
            }
        }
    }
    Ok(())
}

/// The leftmost-scan replacement of every occurrence of `pat` by
/// `rep`.
pub open spec fn replace_spec(s: Seq<char>, pat: Seq<char>, rep: Seq<char>) -> Seq<char>
    decreases s.len(),
    when pat.len() >= 1
{
    if s.len() < pat.len() {
        s
    } else if s.take(pat.len() as int) == pat {
        rep + replace_spec(s.skip(pat.len() as int), pat, rep)
    } else {
        seq![s[0]] + replace_spec(s.drop_first(), pat, rep)
    }
}

/// Replace every `REPLACE_ME` placeholder in template text with the
/// project name.
pub fn replace_project_placeholder(s: &str, project: &str) -> (r: String)
    ensures
        r@ == replace_spec(s@, "REPLACE_ME"@, project@),
{
    let chars = crate::text::str_chars(s);
    let pat = crate::text::str_chars("REPLACE_ME");
    proof {
        reveal_strlit("REPLACE_ME");
    }
    let n = chars.len();
    let m = pat.len();
    let mut out: Vec<char> = Vec::new();
    proof {
        assert(s@.skip(0) =~= s@);
        assert(Seq::<char>::empty() + replace_spec(s@, "REPLACE_ME"@, project@) =~= replace_spec(
            s@,
            "REPLACE_ME"@,
            project@,
        ));
    }
    let mut i: usize = 0;
    while i < n
        invariant
            n == s@.len(),
            chars@ == s@,
            pat@ == "REPLACE_ME"@,
            m == pat@.len(),
            m >= 1,
            i <= n,
            replace_spec(s@, "REPLACE_ME"@, project@) == out@ + replace_spec(
                s@.skip(i as int),
                "REPLACE_ME"@,
                project@,
            ),
        decreases n - i,
    {
        let mut hit = n - i >= m;
        if hit {
            let mut k: usize = 0;
            while k < m
                invariant
                    i + m <= n == s@.len(),
                    chars@ == s@,
                    pat@ == "REPLACE_ME"@,
                    m == pat@.len(),
                    k <= m,
                    hit == (forall|t: int| 0 <= t < k ==> s@[i + t] == pat@[t]),
                decreases m - k,
            {
                if chars[i + k] != pat[k] {
                    hit = false;
                }
                k = k + 1;
            }
        }
        let ghost tail = s@.skip(i as int);
        if hit {
            proof {
                assert(tail.take(m as int) =~= pat@);
                assert(tail.skip(m as int) =~= s@.skip(i + m));
            }
            crate::text::push_str_chars(&mut out, project);
            i = i + m;
        } else {
            proof {
                if tail.len() >= pat@.len() {
                    if tail.take(m as int) == pat@ {
                        assert(forall|t: int|
                            0 <= t < m ==> s@[i + t] == tail.take(m as int)[t]);
                        assert(false);
                    }
                }
                assert(tail[0] == s@[i as int]);
                assert(tail.drop_first() =~= s@.skip(i as int + 1));
            }
            out.push(chars[i]);
            i = i + 1;
        }
        proof {
            assert(replace_spec(s@, "REPLACE_ME"@, project@) == out@ + replace_spec(
                s@.skip(i as int),
                "REPLACE_ME"@,
                project@,
            ));
        }
    }
    proof {
        assert(s@.skip(n as int).len() == 0);
        assert(out@ + replace_spec(s@.skip(n as int), "REPLACE_ME"@, project@) =~= out@);
    }
    chars_to_string(&out)
}

/// Whether an export output path carries the required suffix.
pub fn is_tar_gz_path(p: &str) -> (r: bool)
    ensures
        r == (p@.len() >= 7 && p@.skip(p@.len() - 7) == ".tar.gz"@),
{
    let n: usize = p.unicode_len();
    if n < 7 {
        return false;
    }
    proof {
        reveal_strlit(".tar.gz");
    }
    let suffix = crate::text::str_chars(".tar.gz");
    let mut k: usize = 0;
    while k < 7
        invariant
            n == p@.len(),
            n >= 7,
            suffix@ == ".tar.gz"@,
            suffix@.len() == 7,
            k <= 7,
            forall|t: int| 0 <= t < k ==> p@[n - 7 + t] == ".tar.gz"@[t],
        decreases 7 - k,
    {
        if p.get_char(n - 7 + k) != suffix[k] {
            proof {
                assert(p@.skip(p@.len() - 7)[k as int] == p@[n - 7 + k]);
            }
            return false;
        }
        k = k + 1;
    }
    proof {
        assert(p@.skip(p@.len() - 7) =~= ".tar.gz"@);
    }
    true
}

} // verus!
