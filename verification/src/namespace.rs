//! The namespace deriver.
//!
//! A namespace scopes the cache volumes of one (project, job,
//! environment) triple. It is built from the project and job names,
//! folded to a volume-safe character set, and the first twelve hex
//! characters of the environment fingerprint.

use vstd::prelude::*;

use crate::text::chars_to_string;
use crate::text::contains_seq;
use crate::text::matches_at;
use crate::text::push_str_chars;

verus! {

/// Fold one character to the volume-safe set: ASCII letters and
/// digits are lower-cased, `_`, `-` and `.` are kept, everything
/// else becomes `_`.
pub open spec fn safe_char(c: char) -> char {
    if 48 <= (c as u32) <= 57 || 97 <= (c as u32) <= 122 || c == '_' || c == '-' || c == '.' {
        c
    } else if 65 <= (c as u32) <= 90 {
        (((c as u32) + 32) as u8) as char
    } else {
        '_'
    }
}

/// Fold a whole name to the volume-safe set.
pub open spec fn safe_fold(s: Seq<char>) -> Seq<char> {
    s.map_values(|c: char| safe_char(c))
}

/// The first twelve characters of the fingerprint (or all of it, if
/// shorter).
pub open spec fn fp_prefix(f: Seq<char>) -> Seq<char> {
    if f.len() <= 12 {
        f
    } else {
        f.take(12)
    }
}

/// The namespace for a project, job and environment fingerprint.
pub open spec fn namespace_spec(project: Seq<char>, job: Seq<char>, env_id: Seq<char>) -> Seq<
    char,
> {
    "podci_"@ + safe_fold(project) + seq!['_'] + safe_fold(job) + seq!['_'] + fp_prefix(env_id)
}

/// Append the volume-safe folding of a name.
fn push_safe(out: &mut Vec<char>, s: &str)
    ensures
        final(out)@ == old(out)@ + safe_fold(s@),
{
    let n: usize = s.unicode_len();
    let mut i: usize = 0;
    while i < n
        invariant
            n == s@.len(),
            i <= n,
            out@ == old(out)@ + safe_fold(s@).subrange(0, i as int),
        decreases n - i,
    {
        let c = s.get_char(i);
        let u = c as u32;
        if (48 <= u && u <= 57) || (97 <= u && u <= 122) || c == '_' || c == '-' || c == '.' {
            out.push(c);
        } else if 65 <= u && u <= 90 {
            out.push(((u + 32) as u8) as char);
        } else {
            out.push('_');
        }
        i = i + 1;
        proof {
            assert(out@ =~= old(out)@ + safe_fold(s@).subrange(0, i as int));
        }
    }
    proof {
        assert(safe_fold(s@).subrange(0, n as int) =~= safe_fold(s@));
    }
}

/// Derive the namespace: a fixed prefix, the folded project and job
/// names, and the first twelve characters of the fingerprint, joined
/// by underscores.
pub fn namespace_from(project: &str, job: &str, env_id: &str) -> (r: String)
    ensures
        r@ == namespace_spec(project@, job@, env_id@),
{
    let mut out: Vec<char> = Vec::new();
    push_str_chars(&mut out, "podci_");
    push_safe(&mut out, project);
    out.push('_');
    push_safe(&mut out, job);
    out.push('_');
    let n: usize = env_id.unicode_len();
    let take: usize = if n <= 12 {
        n
    } else {
        12
    };
    let ghost mid = out@;
    let mut i: usize = 0;
    while i < take
        invariant
            n == env_id@.len(),
            take <= n,
            i <= take,
            out@ == mid + env_id@.subrange(0, i as int),
        decreases take - i,
    {
        out.push(env_id.get_char(i));
        i = i + 1;
        proof {
            assert(out@ =~= mid + env_id@.subrange(0, i as int));
        }
    }
    proof {
        assert(env_id@.subrange(0, take as int) =~= fp_prefix(env_id@));
        assert(out@ =~= namespace_spec(project@, job@, env_id@));
    }
    chars_to_string(&out)
}

/// Namespace shape: for project `x` and job `default`, the namespace
/// starts with the fixed prefix, contains the folded project and job
/// segments between underscores, and ends with the first twelve
/// characters of the fingerprint.
pub proof fn lemma_namespace_shape(f: Seq<char>)
    requires
        f.len() >= 12,
    ensures
        namespace_spec("x"@, "default"@, f).take(6) == "podci_"@,
        contains_seq(namespace_spec("x"@, "default"@, f), "_x_"@),
        contains_seq(namespace_spec("x"@, "default"@, f), "_default_"@),
        namespace_spec("x"@, "default"@, f).skip(16) == f.take(12),
{
    reveal_strlit("x");
    reveal_strlit("default");
    reveal_strlit("podci_");
    reveal_strlit("podci_x_default_");
    reveal_strlit("_x_");
    reveal_strlit("_default_");
    let ns = namespace_spec("x"@, "default"@, f);
    assert(safe_fold("x"@) =~= "x"@) by {
        assert(safe_char('x') == 'x');
        assert(safe_fold("x"@).len() == 1);
        assert(safe_fold("x"@)[0] == safe_char('x'));
    }
    assert(safe_fold("default"@) =~= "default"@) by {
        assert(safe_fold("default"@).len() == 7);
        assert(safe_char('d') == 'd' && safe_char('e') == 'e' && safe_char('f') == 'f'
            && safe_char('a') == 'a' && safe_char('u') == 'u' && safe_char('l') == 'l'
            && safe_char('t') == 't');
        assert(forall|i: int| 0 <= i < 7 ==> safe_fold("default"@)[i] == safe_char("default"@[i]));
    }
    assert(ns =~= "podci_x_default_"@ + f.take(12));
    assert(ns.take(6) =~= "podci_"@);
    assert(matches_at(ns, "_x_"@, 5)) by {
        assert(ns.subrange(5, 8) =~= "_x_"@);
    }
    assert(matches_at(ns, "_default_"@, 7)) by {
        assert(ns.subrange(7, 16) =~= "_default_"@);
    }
    assert(ns.skip(16) =~= f.take(12));
}

} // verus!
