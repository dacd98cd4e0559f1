//! The fingerprint engine.
//!
//! The environment identity of a run is the hash of a canonical
//! rendering of everything that determines it: config version,
//! project, job and profile names, container reference, profile
//! environment, step order and the steps themselves. The maps are
//! kept in canonical (sorted) form, so the rendering — and with it
//! the fingerprint — cannot depend on the order entries were
//! inserted.

use vstd::prelude::*;

use crate::config::Config;
use crate::config::ConfigError;
use crate::config::Job;
use crate::config::Profile;
use crate::config::Step;
use crate::dict::Dict;
use crate::dict::entries_sorted;
use crate::dict::has_pair;
use crate::dict::lemma_sorted_entries_canonical;
use crate::dict::lookup;
use crate::json::json_str;
use crate::json::opt_str_json;
use crate::json::push_json_str;
use crate::text::chars_to_string;
use crate::text::push_str_chars;
use crate::text::push_u64_dec;
use crate::text::u64_dec;

verus! {

/// Names the hex digest that blake3 assigns to the UTF-8 encoding of
/// a character sequence; the result depends on the characters alone.
pub uninterp spec fn blake3_hex_of(s: Seq<char>) -> Seq<char>;

/// Relies on blake3's `hash` and `Hash::to_hex`: the digest of the
/// input bytes, rendered as 64 lower-case hex characters.
#[verifier::external_body]
pub fn blake3_fingerprint(s: &str) -> (r: String)
    ensures
        r@ == blake3_hex_of(s@),
        r@.len() == 64,
{
    blake3::hash(s.as_bytes()).to_hex().as_str().to_owned()
}

/// The first `i` environment entries, rendered as JSON object
/// members.
pub open spec fn env_pairs_upto(s: Seq<(String, String)>, i: int) -> Seq<char>
    decreases i,
{
    if i <= 0 {
        Seq::empty()
    } else if i == 1 {
        json_str(s[0].0@) + seq![':'] + json_str(s[0].1@)
    } else {
        env_pairs_upto(s, i - 1) + seq![','] + json_str(s[i - 1].0@) + seq![':'] + json_str(
            s[i - 1].1@,
        )
    }
}

/// An environment map as a JSON object.
pub open spec fn env_json(s: Seq<(String, String)>) -> Seq<char> {
    seq!['{'] + env_pairs_upto(s, s.len() as int) + seq!['}']
}

/// The first `i` strings, rendered as JSON array elements.
pub open spec fn strs_items_upto(s: Seq<String>, i: int) -> Seq<char>
    decreases i,
{
    if i <= 0 {
        Seq::empty()
    } else if i == 1 {
        json_str(s[0]@)
    } else {
        strs_items_upto(s, i - 1) + seq![','] + json_str(s[i - 1]@)
    }
}

/// A list of strings as a JSON array.
pub open spec fn strs_arr_json(s: Seq<String>) -> Seq<char> {
    seq!['['] + strs_items_upto(s, s.len() as int) + seq![']']
}

/// One step, rendered with its run argv, working directory and
/// environment.
pub open spec fn step_fp_json(st: Step) -> Seq<char> {
    "{\"run\":"@ + strs_arr_json(st.run@) + ",\"workdir\":"@ + opt_str_json(
        match st.workdir {
            Some(w) => Some(w@),
            None => None,
        },
    ) + ",\"env\":"@ + env_json(st.env.pairs@) + "}"@
}

/// The first `i` steps, rendered as JSON object members keyed by
/// step name.
pub open spec fn steps_pairs_upto(s: Seq<(String, Step)>, i: int) -> Seq<char>
    decreases i,
{
    if i <= 0 {
        Seq::empty()
    } else if i == 1 {
        json_str(s[0].0@) + seq![':'] + step_fp_json(s[0].1)
    } else {
        steps_pairs_upto(s, i - 1) + seq![','] + json_str(s[i - 1].0@) + seq![':'] + step_fp_json(
            s[i - 1].1,
        )
    }
}

/// A step map as a JSON object.
pub open spec fn steps_json(s: Seq<(String, Step)>) -> Seq<char> {
    seq!['{'] + steps_pairs_upto(s, s.len() as int) + seq!['}']
}

/// The canonical rendering that the fingerprint hashes.
pub open spec fn fingerprint_text(
    c: Config,
    job_name: Seq<char>,
    profile_name: Seq<char>,
    job: Job,
    profile: Profile,
) -> Seq<char> {
    "{\"version\":"@ + u64_dec(c.version as int) + ",\"project\":"@ + json_str(c.project@)
        + ",\"job\":"@ + json_str(job_name) + ",\"profile\":"@ + json_str(profile_name)
        + ",\"container\":"@ + json_str(profile.container@) + ",\"profile_env\":"@ + env_json(
        profile.env.pairs@,
    ) + ",\"step_order\":"@ + strs_arr_json(job.step_order@) + ",\"steps\":"@ + steps_json(
        job.steps.pairs@,
    ) + "}"@
}

/// The environment identity of a job/profile pair in a
/// configuration, assuming both exist.
pub open spec fn env_id_spec(c: Config, job_name: Seq<char>, profile_name: Seq<char>) -> Seq<
    char,
>
    recommends
        lookup(c.jobs.pairs@, job_name) is Some,
        lookup(c.profiles.pairs@, profile_name) is Some,
{
    blake3_hex_of(
        fingerprint_text(
            c,
            job_name,
            profile_name,
            lookup(c.jobs.pairs@, job_name).unwrap(),
            lookup(c.profiles.pairs@, profile_name).unwrap(),
        ),
    )
}

/// Append an environment map as a JSON object.
fn push_env_json(out: &mut Vec<char>, env: &Dict<String>)
    ensures
        final(out)@ == old(out)@ + env_json(env.pairs@),
{
    out.push('{');
    let n = env.pairs.len();
    let mut i: usize = 0;
    while i < n
        invariant
            n == env.pairs@.len(),
            i <= n,
            out@ == old(out)@ + seq!['{'] + env_pairs_upto(env.pairs@, i as int),
        decreases n - i,
    {
        if i > 0 {
            out.push(',');
        }
        let p = &env.pairs[i];
        push_json_str(out, p.0.as_str());
        out.push(':');
        push_json_str(out, p.1.as_str());
        i = i + 1;
        proof {
            assert(out@ =~= old(out)@ + seq!['{'] + env_pairs_upto(env.pairs@, i as int));
        }
    }
    out.push('}');
    proof {
        assert(out@ =~= old(out)@ + env_json(env.pairs@));
    }
}

/// Append a list of strings as a JSON array.
fn push_strs_arr(out: &mut Vec<char>, v: &Vec<String>)
    ensures
        final(out)@ == old(out)@ + strs_arr_json(v@),
{
    out.push('[');
    let n = v.len();
    let mut i: usize = 0;
    while i < n
        invariant
            n == v@.len(),
            i <= n,
            out@ == old(out)@ + seq!['['] + strs_items_upto(v@, i as int),
        decreases n - i,
    {
        if i > 0 {
            out.push(',');
        }
        push_json_str(out, v[i].as_str());
        i = i + 1;
        proof {
            assert(out@ =~= old(out)@ + seq!['['] + strs_items_upto(v@, i as int));
        }
    }
    out.push(']');
    proof {
        assert(out@ =~= old(out)@ + strs_arr_json(v@));
    }
}

/// Append one step's fingerprint rendering.
fn push_step_fp(out: &mut Vec<char>, st: &Step)
    ensures
        final(out)@ == old(out)@ + step_fp_json(*st),
{
    push_str_chars(out, "{\"run\":");
    push_strs_arr(out, &st.run);
    push_str_chars(out, ",\"workdir\":");
    match &st.workdir {
        None => {
            push_str_chars(out, "null");
        },
        Some(w) => {
            push_json_str(out, w.as_str());
        },
    }
    push_str_chars(out, ",\"env\":");
    push_env_json(out, &st.env);
    push_str_chars(out, "}");
    proof {
        assert(out@ =~= old(out)@ + step_fp_json(*st));
    }
}

/// Append a step map as a JSON object keyed by step name.
fn push_steps_json(out: &mut Vec<char>, steps: &Dict<Step>)
    ensures
        final(out)@ == old(out)@ + steps_json(steps.pairs@),
{
    out.push('{');
    let n = steps.pairs.len();
    let mut i: usize = 0;
    while i < n
        invariant
            n == steps.pairs@.len(),
            i <= n,
            out@ == old(out)@ + seq!['{'] + steps_pairs_upto(steps.pairs@, i as int),
        decreases n - i,
    {
        if i > 0 {
            out.push(',');
        }
        let p = &steps.pairs[i];
        push_json_str(out, p.0.as_str());
        out.push(':');
        push_step_fp(out, &p.1);
        i = i + 1;
        proof {
            assert(out@ =~= old(out)@ + seq!['{'] + steps_pairs_upto(steps.pairs@, i as int));
        }
    }
    out.push('}');
    proof {
        assert(out@ =~= old(out)@ + steps_json(steps.pairs@));
    }
}

/// Compute the environment identity for a job under a profile: the
/// blake3 digest of the canonical fingerprint rendering. Fails
/// exactly when the job or the profile does not exist.
pub fn compute_env_id(cfg: &Config, job_name: &str, profile_name: &str) -> (r: Result<
    String,
    ConfigError,
>)
    ensures
        match r {
            Ok(id) => lookup(cfg.jobs.pairs@, job_name@) is Some && lookup(
                cfg.profiles.pairs@,
                profile_name@,
            ) is Some && id@ == env_id_spec(*cfg, job_name@, profile_name@) && id@.len() == 64,
            Err(e) => (lookup(cfg.jobs.pairs@, job_name@) is None && (e matches
                ConfigError::UnknownJob(s) && s@ == job_name@)) || (lookup(
                cfg.jobs.pairs@,
                job_name@,
            ) is Some && lookup(cfg.profiles.pairs@, profile_name@) is None && (e matches
                ConfigError::UnknownProfile(s) && s@ == profile_name@)),
        },
{
    let job = match cfg.job(job_name) {
        Ok(j) => j,
        Err(e) => {
            return Err(e);
        },
    };
    let profile = match cfg.profile(profile_name) {
        Ok(p) => p,
        Err(e) => {
            return Err(e);
        },
    };
    let mut out: Vec<char> = Vec::new();
    push_str_chars(&mut out, "{\"version\":");
    push_u64_dec(&mut out, cfg.version as u64);
    push_str_chars(&mut out, ",\"project\":");
    push_json_str(&mut out, cfg.project.as_str());
    push_str_chars(&mut out, ",\"job\":");
    push_json_str(&mut out, job_name);
    push_str_chars(&mut out, ",\"profile\":");
    push_json_str(&mut out, profile_name);
    push_str_chars(&mut out, ",\"container\":");
    push_json_str(&mut out, profile.container.as_str());
    push_str_chars(&mut out, ",\"profile_env\":");
    push_env_json(&mut out, &profile.env);
    push_str_chars(&mut out, ",\"step_order\":");
    push_strs_arr(&mut out, &job.step_order);
    push_str_chars(&mut out, ",\"steps\":");
    push_steps_json(&mut out, &job.steps);
    push_str_chars(&mut out, "}");
    proof {
        assert(out@ =~= fingerprint_text(*cfg, job_name@, profile_name@, *job, *profile));
    }
    let text = chars_to_string(&out);
    Ok(blake3_fingerprint(text.as_str()))
}

/// Fingerprint determinism: the environment identity is a function
/// of the configuration and the job and profile names alone; two
/// computations over the same inputs agree.
pub proof fn lemma_fingerprint_deterministic(
    c: Config,
    job_name: Seq<char>,
    profile_name: Seq<char>,
    r1: Seq<char>,
    r2: Seq<char>,
)
    requires
        r1 == env_id_spec(c, job_name, profile_name),
        r2 == env_id_spec(c, job_name, profile_name),
    ensures
        r1 == r2,
{
}

/// Pointwise-equal environment entries render identically.
proof fn lemma_env_pairs_pointwise(e1: Seq<(String, String)>, e2: Seq<(String, String)>, i: int)
    requires
        e1.len() == e2.len(),
        forall|k: int| 0 <= k < e1.len() ==> e1[k].0@ == e2[k].0@ && e1[k].1 == e2[k].1,
        i <= e1.len(),
    ensures
        env_pairs_upto(e1, i) == env_pairs_upto(e2, i),
    decreases i,
{
    if i > 0 {
        lemma_env_pairs_pointwise(e1, e2, i - 1);
    }
}

/// Two environment maps hold the same entries, as canonical
/// (sorted) dictionaries — however those entries were inserted.
pub open spec fn env_content_equiv(e1: Dict<String>, e2: Dict<String>) -> bool {
    &&& entries_sorted(e1.pairs@)
    &&& entries_sorted(e2.pairs@)
    &&& forall|k: Seq<char>, v: String|
        #[trigger] has_pair(e1.pairs@, k, v) <==> #[trigger] has_pair(e2.pairs@, k, v)
}

/// Content-equal canonical environment maps render identically.
pub proof fn lemma_env_json_content(e1: Dict<String>, e2: Dict<String>)
    requires
        env_content_equiv(e1, e2),
    ensures
        env_json(e1.pairs@) == env_json(e2.pairs@),
{
    lemma_sorted_entries_canonical(e1.pairs@, e2.pairs@);
    lemma_env_pairs_pointwise(e1.pairs@, e2.pairs@, e1.pairs@.len() as int);
}

/// Two steps agree on everything but possibly the insertion order of
/// their environment entries.
pub open spec fn step_env_equiv(s1: Step, s2: Step) -> bool {
    &&& s1.run == s2.run
    &&& s1.workdir == s2.workdir
    &&& env_content_equiv(s1.env, s2.env)
}

/// Steps that differ only in environment insertion order render
/// identically.
pub proof fn lemma_step_fp_content(s1: Step, s2: Step)
    requires
        step_env_equiv(s1, s2),
    ensures
        step_fp_json(s1) == step_fp_json(s2),
{
    lemma_env_json_content(s1.env, s2.env);
}

/// Pointwise env-equivalent step maps render identically.
proof fn lemma_steps_pairs_pointwise(st1: Seq<(String, Step)>, st2: Seq<(String, Step)>, i: int)
    requires
        st1.len() == st2.len(),
        forall|k: int|
            0 <= k < st1.len() ==> (#[trigger] st1[k]).0@ == st2[k].0@ && step_env_equiv(
                st1[k].1,
                st2[k].1,
            ),
        i <= st1.len(),
    ensures
        steps_pairs_upto(st1, i) == steps_pairs_upto(st2, i),
    decreases i,
{
    if i > 0 {
        lemma_steps_pairs_pointwise(st1, st2, i - 1);
        lemma_step_fp_content(st1[i - 1].1, st2[i - 1].1);
    }
}

/// Insertion-order independence of the fingerprint: if two
/// configurations agree on everything the fingerprint covers, and
/// every environment mapping (the profile's and each step's) holds
/// the same entries as a canonical map — however those entries were
/// inserted — then the environment identities are equal.
pub proof fn lemma_env_id_order_insensitive(
    c1: Config,
    c2: Config,
    job_name: Seq<char>,
    profile_name: Seq<char>,
)
    requires
        c1.version == c2.version,
        c1.project == c2.project,
        lookup(c1.jobs.pairs@, job_name) matches Some(j1) && lookup(
            c2.jobs.pairs@,
            job_name,
        ) matches Some(j2) && j1.step_order == j2.step_order && j1.steps.pairs@.len()
            == j2.steps.pairs@.len() && (forall|k: int|
            0 <= k < j1.steps.pairs@.len() ==> (#[trigger] j1.steps.pairs@[k]).0@
                == j2.steps.pairs@[k].0@ && step_env_equiv(
                j1.steps.pairs@[k].1,
                j2.steps.pairs@[k].1,
            )),
        lookup(c1.profiles.pairs@, profile_name) matches Some(p1) && lookup(
            c2.profiles.pairs@,
            profile_name,
        ) matches Some(p2) && p1.container == p2.container && env_content_equiv(p1.env, p2.env),
    ensures
        env_id_spec(c1, job_name, profile_name) == env_id_spec(c2, job_name, profile_name),
{
    let j1 = lookup(c1.jobs.pairs@, job_name).unwrap();
    let j2 = lookup(c2.jobs.pairs@, job_name).unwrap();
    let p1 = lookup(c1.profiles.pairs@, profile_name).unwrap();
    let p2 = lookup(c2.profiles.pairs@, profile_name).unwrap();
    lemma_env_json_content(p1.env, p2.env);
    lemma_steps_pairs_pointwise(j1.steps.pairs@, j2.steps.pairs@, j1.steps.pairs@.len() as int);
    assert(steps_json(j1.steps.pairs@) == steps_json(j2.steps.pairs@));
    assert(fingerprint_text(c1, job_name, profile_name, j1, p1) == fingerprint_text(
        c2,
        job_name,
        profile_name,
        j2,
        p2,
    ));
}

} // verus!
