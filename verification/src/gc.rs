//! The prune planner.
//!
//! Cache volumes are grouped by owning namespace; each namespace
//! becomes one resource stamped with the newest creation time among
//! its member volumes. Under a keep-N policy the newest N resources
//! survive, and the rest — optionally only those older than an age
//! cutoff — are selected for deletion.

use vstd::prelude::*;

use crate::dict::Dict;
use crate::dict::entries_insert;
use crate::text::str_eq;

verus! {

broadcast use vstd::seq_lib::group_to_multiset_ensures;


/// A named resource with a creation time in milliseconds since the
/// Unix epoch.
#[derive(Debug, Clone)]
pub struct Resource {
    pub name: String,
    pub created: i64,
}

/// The prune policy: how many newest resources to keep, and an
/// optional maximum age in days.
#[derive(Debug, Clone)]
pub struct PrunePolicy {
    pub keep: usize,
    pub older_than_days: Option<i64>,
}

/// One cache volume as reported by the engine: its name, the
/// namespace label it carries, and its creation time if known.
#[derive(Debug, Clone)]
pub struct VolumeMeta {
    pub name: String,
    pub namespace: String,
    pub created: Option<i64>,
}

/// Relies on chrono's `Utc::now` and `DateTime::timestamp_millis`:
/// the current time in milliseconds since the Unix epoch. The value
/// depends on the clock, so nothing is claimed about it.
#[verifier::external_body]
pub fn now_unix_millis() -> i64 {
    chrono::Utc::now().timestamp_millis()
}

/// Insert a resource into a newest-first list, after every entry at
/// least as new (so equal stamps keep their arrival order).
pub open spec fn insert_desc(s: Seq<Resource>, r: Resource) -> Seq<Resource>
    decreases s.len(),
{
    if s.len() == 0 {
        seq![r]
    } else if s[0].created >= r.created {
        seq![s[0]] + insert_desc(s.drop_first(), r)
    } else {
        seq![r] + s
    }
}

/// Stable newest-first sort, by repeated insertion.
pub open spec fn sort_desc(s: Seq<Resource>) -> Seq<Resource>
    decreases s.len(),
{
    if s.len() == 0 {
        Seq::empty()
    } else {
        insert_desc(sort_desc(s.drop_last()), s.last())
    }
}

/// Newest-first order.
pub open spec fn sorted_newest_first(s: Seq<Resource>) -> bool {
    forall|i: int, j: int| 0 <= i < j < s.len() ==> s[i].created >= s[j].created
}

/// Whether a resource at rank `i` is pruned: it is outside the kept
/// prefix and, if a cutoff is set, strictly older than it.
pub open spec fn selected(r: Resource, i: int, keep: int, cutoff: Option<int>) -> bool {
    i >= keep && match cutoff {
        Some(c) => (r.created as int) < c,
        None => true,
    }
}

/// The prune candidates among the first `i` entries of a
/// newest-first list.
pub open spec fn select_upto(s: Seq<Resource>, i: int, keep: int, cutoff: Option<int>) -> Seq<
    Resource,
>
    decreases i,
{
    if i <= 0 {
        Seq::empty()
    } else if selected(s[i - 1], i - 1, keep, cutoff) {
        select_upto(s, i - 1, keep, cutoff) + seq![s[i - 1]]
    } else {
        select_upto(s, i - 1, keep, cutoff)
    }
}

/// The age cutoff in epoch milliseconds, if a maximum age is set.
pub open spec fn cutoff_spec(now: int, older_than_days: Option<i64>) -> Option<int> {
    match older_than_days {
        Some(d) => Some(now - d * 86400000),
        None => None,
    }
}

/// The full prune selection: sort newest-first, keep the first
/// `keep`, select the rest subject to the cutoff.
pub open spec fn prune_candidates_spec(
    rs: Seq<Resource>,
    keep: int,
    cutoff: Option<int>,
) -> Seq<Resource> {
    select_upto(sort_desc(rs), sort_desc(rs).len() as int, keep, cutoff)
}

/// Positional characterization of `insert_desc`.
proof fn lemma_insert_desc_at(s: Seq<Resource>, r: Resource, pos: int)
    requires
        0 <= pos <= s.len(),
        forall|j: int| 0 <= j < pos ==> s[j].created >= r.created,
        pos < s.len() ==> s[pos].created < r.created,
    ensures
        insert_desc(s, r) =~= s.take(pos) + seq![r] + s.skip(pos),
    decreases pos,
{
    if s.len() == 0 {
    } else if pos == 0 {
    } else {
        lemma_insert_desc_at(s.drop_first(), r, pos - 1);
        assert(insert_desc(s, r) == seq![s[0]] + insert_desc(s.drop_first(), r));
        assert(insert_desc(s.drop_first(), r) =~= s.drop_first().take(pos - 1) + seq![r]
            + s.drop_first().skip(pos - 1));
        assert(seq![s[0]] + (s.drop_first().take(pos - 1) + seq![r] + s.drop_first().skip(pos - 1))
            =~= s.take(pos) + seq![r] + s.skip(pos));
    }
}

/// Inserting keeps the newest-first order and only adds the new
/// element.
proof fn lemma_insert_desc_sorted(s: Seq<Resource>, r: Resource)
    requires
        sorted_newest_first(s),
    ensures
        sorted_newest_first(insert_desc(s, r)),
        insert_desc(s, r).len() == s.len() + 1,
        insert_desc(s, r).to_multiset() == s.push(r).to_multiset(),
    decreases s.len(),
{
    if s.len() == 0 {
        assert(insert_desc(s, r) =~= s.push(r));
    } else if s[0].created >= r.created {
        let t = s.drop_first();
        assert(sorted_newest_first(t)) by {
            assert(forall|i: int, j: int|
                0 <= i < j < t.len() ==> t[i] == s[i + 1] && t[j] == s[j + 1]);
        }
        lemma_insert_desc_sorted(t, r);
        let it = insert_desc(t, r);
        let w = seq![s[0]] + it;
        assert(insert_desc(s, r) == w);
        assert forall|i: int, j: int| 0 <= i < j < w.len() implies w[i].created >= w[j].created by {
            if i > 0 {
                assert(w[i] == it[i - 1] && w[j] == it[j - 1]);
            } else {
                assert(w[j] == it[j - 1]);
                lemma_insert_desc_mem(t, r, j - 1);
            }
        }
        vstd::seq_lib::lemma_multiset_commutative(seq![s[0]], it);
        vstd::seq_lib::lemma_multiset_commutative(seq![s[0]], t.push(r));
        assert(it.to_multiset() == t.push(r).to_multiset());
        assert(w.to_multiset() == (seq![s[0]] + t.push(r)).to_multiset());
        assert(seq![s[0]] + t.push(r) =~= s.push(r));
    } else {
        assert(insert_desc(s, r) == seq![r] + s);
        let w = seq![r] + s;
        assert forall|i: int, j: int| 0 <= i < j < w.len() implies w[i].created >= w[j].created by {
            if i > 0 {
                assert(w[i] == s[i - 1] && w[j] == s[j - 1]);
            } else {
                assert(w[j] == s[j - 1]);
                assert(s[0].created < r.created);
                if j - 1 > 0 {
                    assert(s[0].created >= s[j - 1].created);
                }
            }
        }
        vstd::seq_lib::lemma_seq_union_to_multiset_commutative(seq![r], s);
        assert(s + seq![r] =~= s.push(r));
    }
}

/// Every element of an insertion result is the new element or an
/// element of the original.
proof fn lemma_insert_desc_mem(s: Seq<Resource>, r: Resource, i: int)
    requires
        0 <= i < insert_desc(s, r).len(),
    ensures
        insert_desc(s, r)[i] == r || (exists|j: int|
            0 <= j < s.len() && s[j] == insert_desc(s, r)[i]),
    decreases s.len(),
{
    if s.len() == 0 {
    } else if s[0].created >= r.created {
        if i > 0 {
            lemma_insert_desc_mem(s.drop_first(), r, i - 1);
            let it = insert_desc(s.drop_first(), r);
            if it[i - 1] != r {
                let j = choose|j: int| 0 <= j < s.drop_first().len() && s.drop_first()[j] == it[i
                    - 1];
                assert(s[j + 1] == it[i - 1]);
            }
        }
    }
}

/// The sort is a newest-first permutation of its input.
pub proof fn lemma_sort_desc_props(s: Seq<Resource>)
    ensures
        sorted_newest_first(sort_desc(s)),
        sort_desc(s).len() == s.len(),
        sort_desc(s).to_multiset() == s.to_multiset(),
    decreases s.len(),
{
    if s.len() == 0 {
    } else {
        let t = s.drop_last();
        lemma_sort_desc_props(t);
        lemma_insert_desc_sorted(sort_desc(t), s.last());
        sort_desc(t).to_multiset_ensures();
        t.to_multiset_ensures();
        assert(sort_desc(t).push(s.last()).to_multiset() == sort_desc(t).to_multiset().insert(
            s.last(),
        ));
        assert(t.push(s.last()).to_multiset() == t.to_multiset().insert(s.last()));
        assert(t.push(s.last()) =~= s);
    }
}

/// Without an age cutoff, exactly the resources beyond the kept
/// prefix are selected.
pub proof fn lemma_select_count(s: Seq<Resource>, i: int, keep: int)
    requires
        0 <= i <= s.len(),
        0 <= keep,
    ensures
        select_upto(s, i, keep, None).len() == if i >= keep {
            i - keep
        } else {
            0
        },
    decreases i,
{
    if i > 0 {
        lemma_select_count(s, i - 1, keep);
    }
}

/// Every selected candidate is at least as old as every kept
/// resource: the planner keeps the newest.
pub proof fn lemma_prune_keeps_newest(
    rs: Seq<Resource>,
    keep: int,
    cutoff: Option<int>,
    i: int,
    j: int,
)
    requires
        0 <= keep,
        0 <= i < prune_candidates_spec(rs, keep, cutoff).len(),
        0 <= j < keep,
        j < sort_desc(rs).len(),
    ensures
        sort_desc(rs)[j].created >= prune_candidates_spec(rs, keep, cutoff)[i].created,
{
    lemma_sort_desc_props(rs);
    let s = sort_desc(rs);
    lemma_select_idx(s, s.len() as int, keep, cutoff, i, j);
}

/// Selected candidates come from beyond the kept prefix of a sorted
/// list.
proof fn lemma_select_idx(
    s: Seq<Resource>,
    n: int,
    keep: int,
    cutoff: Option<int>,
    i: int,
    j: int,
)
    requires
        sorted_newest_first(s),
        0 <= n <= s.len(),
        0 <= i < select_upto(s, n, keep, cutoff).len(),
        0 <= j < keep,
        j < s.len(),
    ensures
        s[j].created >= select_upto(s, n, keep, cutoff)[i].created,
    decreases n,
{
    if n > 0 {
        let prev = select_upto(s, n - 1, keep, cutoff);
        if selected(s[n - 1], n - 1, keep, cutoff) {
            if i < prev.len() {
                lemma_select_idx(s, n - 1, keep, cutoff, i, j);
            } else {
                assert(select_upto(s, n, keep, cutoff)[i] == s[n - 1]);
                assert(j < keep <= n - 1);
            }
        } else {
            lemma_select_idx(s, n - 1, keep, cutoff, i, j);
        }
    }
}

/// Sort resources newest-first (stable insertion sort).
fn sort_resources(rs: Vec<Resource>) -> (r: Vec<Resource>)
    ensures
        r@ == sort_desc(rs@),
{
    let ghost orig = rs@;
    let mut rest = rs;
    let total = rest.len();
    let mut out: Vec<Resource> = Vec::new();
    let mut k: usize = 0;
    while rest.len() > 0
        invariant
            orig.len() == total,
            k <= orig.len(),
            rest@ =~= orig.skip(k as int),
            out@ == sort_desc(orig.take(k as int)),
        decreases rest@.len(),
    {
        let r = rest.remove(0);
        proof {
            assert(r == orig[k as int]);
            assert(rest@ =~= orig.skip(k as int + 1));
        }
        let n = out.len();
        let mut pos: usize = 0;
        while pos < n && out[pos].created >= r.created
            invariant
                n == out@.len(),
                pos <= n,
                forall|j: int| 0 <= j < pos ==> out@[j].created >= r.created,
            decreases n - pos,
        {
            pos = pos + 1;
        }
        proof {
            lemma_insert_desc_at(out@, r, pos as int);
        }
        out.insert(pos, r);
        k = k + 1;
        proof {
            assert(orig.take(k as int).drop_last() =~= orig.take(k as int - 1));
            assert(orig.take(k as int).last() == orig[k as int - 1]);
            assert(out@ =~= sort_desc(orig.take(k as int)));
        }
    }
    proof {
        assert(orig.take(orig.len() as int) =~= orig);
    }
    out
}

/// Select the prune candidates among `resources` under `policy`,
/// judged against the given current time.
pub fn select_prune_candidates_at(
    resources: Vec<Resource>,
    policy: &PrunePolicy,
    now_ms: i64,
) -> (r: Vec<Resource>)
    ensures
        r@ == prune_candidates_spec(
            resources@,
            policy.keep as int,
            cutoff_spec(now_ms as int, policy.older_than_days),
        ),
{
    let ghost rs0 = resources@;
    let sorted = sort_resources(resources);
    let ghost cut = cutoff_spec(now_ms as int, policy.older_than_days);
    let mut out: Vec<Resource> = Vec::new();
    let mut rest = sorted;
    let ghost ss = rest@;
    let total = rest.len();
    let mut i: usize = 0;
    while rest.len() > 0
        invariant
            ss.len() == total,
            ss == sort_desc(rs0),
            cut == cutoff_spec(now_ms as int, policy.older_than_days),
            i <= ss.len(),
            rest@ =~= ss.skip(i as int),
            out@ == select_upto(ss, i as int, policy.keep as int, cut),
        decreases rest@.len(),
    {
        let r = rest.remove(0);
        proof {
            assert(r == ss[i as int]);
            assert(rest@ =~= ss.skip(i as int + 1));
        }
        let passes_age: bool = match policy.older_than_days {
            Some(d) => {
                let cutoff: i128 = (now_ms as i128) - (d as i128) * 86400000;
                proof {
                    assert(cut == Some((now_ms as int) - (d as int) * 86400000));
                }
                (r.created as i128) < cutoff
            },
            None => true,
        };
        if i >= policy.keep && passes_age {
            out.push(r);
            proof {
                assert(selected(ss[i as int], i as int, policy.keep as int, cut));
                assert(out@ =~= select_upto(ss, i as int + 1, policy.keep as int, cut));
            }
        } else {
            proof {
                assert(!selected(ss[i as int], i as int, policy.keep as int, cut));
            }
        }
        i = i + 1;
    }
    proof {
        assert(i == ss.len());
    }
    out
}

/// Select the prune candidates under `policy`, judged against the
/// clock; the selection rule holds for whatever time was read.
pub fn select_prune_candidates(resources: Vec<Resource>, policy: &PrunePolicy) -> (r: Vec<
    Resource,
>)
    ensures
        exists|now: int|
            r@ == prune_candidates_spec(
                resources@,
                policy.keep as int,
                #[trigger] cutoff_spec(now, policy.older_than_days),
            ),
{
    let now = now_unix_millis();
    let r = select_prune_candidates_at(resources, policy, now);
    proof {
        assert(r@ == prune_candidates_spec(
            resources@,
            policy.keep as int,
            cutoff_spec(now as int, policy.older_than_days),
        ));
    }
    r
}

/// The distinct namespaces among the first `i` volumes, as a sorted
/// key set.
pub open spec fn ns_set_upto(vols: Seq<VolumeMeta>, i: int) -> Seq<(String, ())>
    decreases i,
{
    if i <= 0 {
        Seq::empty()
    } else {
        entries_insert(ns_set_upto(vols, i - 1), vols[i - 1].namespace, ())
    }
}

/// The newest creation time among the first `i` volumes of a
/// namespace, if any is known.
pub open spec fn max_created_upto(vols: Seq<VolumeMeta>, ns: Seq<char>, i: int) -> Option<i64>
    decreases i,
{
    if i <= 0 {
        None
    } else {
        let prev = max_created_upto(vols, ns, i - 1);
        if vols[i - 1].namespace@ == ns {
            match (prev, vols[i - 1].created) {
                (None, x) => x,
                (Some(m), None) => Some(m),
                (Some(m), Some(c)) => if c > m {
                    Some(c)
                } else {
                    Some(m)
                },
            }
        } else {
            prev
        }
    }
}

/// One resource per namespace, stamped with the newest member
/// creation time (or the current time, when none is known).
pub open spec fn bases_upto(
    pairs: Seq<(String, ())>,
    vols: Seq<VolumeMeta>,
    now: i64,
    i: int,
) -> Seq<Resource>
    decreases i,
{
    if i <= 0 {
        Seq::empty()
    } else {
        bases_upto(pairs, vols, now, i - 1) + seq![
            Resource {
                name: pairs[i - 1].0,
                created: match max_created_upto(vols, pairs[i - 1].0@, vols.len() as int) {
                    Some(c) => c,
                    None => now,
                },
            },
        ]
    }
}

/// The namespace-level resources of a volume listing.
pub open spec fn bases_spec(vols: Seq<VolumeMeta>, now: i64) -> Seq<Resource> {
    let pairs = ns_set_upto(vols, vols.len() as int);
    bases_upto(pairs, vols, now, pairs.len() as int)
}

/// The names of the first `j` volumes belonging to candidate `c`,
/// folded into a sorted name set.
pub open spec fn del_inner(
    acc: Seq<(String, ())>,
    c: Resource,
    vols: Seq<VolumeMeta>,
    j: int,
) -> Seq<(String, ())>
    decreases j,
{
    if j <= 0 {
        acc
    } else {
        let a2 = del_inner(acc, c, vols, j - 1);
        if vols[j - 1].namespace@ == c.name@ {
            entries_insert(a2, vols[j - 1].name, ())
        } else {
            a2
        }
    }
}

/// The volume names of the first `i` prune candidates, as a sorted
/// name set.
pub open spec fn del_upto(cands: Seq<Resource>, vols: Seq<VolumeMeta>, i: int) -> Seq<
    (String, ()),
>
    decreases i,
{
    if i <= 0 {
        Seq::empty()
    } else {
        del_inner(del_upto(cands, vols, i - 1), cands[i - 1], vols, vols.len() as int)
    }
}

/// The keys of a sorted key set, in order.
pub open spec fn keys_upto(pairs: Seq<(String, ())>, i: int) -> Seq<String>
    decreases i,
{
    if i <= 0 {
        Seq::empty()
    } else {
        keys_upto(pairs, i - 1) + seq![pairs[i - 1].0]
    }
}

/// Plan a prune against a given current time: group the volumes by
/// namespace, select candidate namespaces under the policy, and list
/// their member volumes (sorted, without duplicates) for deletion.
pub fn plan_prune_volumes_at(
    vols: &Vec<VolumeMeta>,
    keep: usize,
    older_than_days: Option<i64>,
    now_ms: i64,
) -> (r: (Vec<Resource>, Vec<String>))
    ensures
        r.0@ == prune_candidates_spec(
            bases_spec(vols@, now_ms),
            keep as int,
            cutoff_spec(now_ms as int, older_than_days),
        ),
        r.1@ == keys_upto(
            del_upto(r.0@, vols@, r.0@.len() as int),
            del_upto(r.0@, vols@, r.0@.len() as int).len() as int,
        ),
{
    let n = vols.len();
    let mut nsd: Dict<()> = Dict::new();
    let mut i: usize = 0;
    while i < n
        invariant
            n == vols@.len(),
            i <= n,
            nsd.wf(),
            nsd.pairs@ == ns_set_upto(vols@, i as int),
        decreases n - i,
    {
        nsd.insert(vols[i].namespace.clone(), ());
        i = i + 1;
    }
    let m = nsd.pairs.len();
    let mut bases: Vec<Resource> = Vec::new();
    let mut i: usize = 0;
    while i < m
        invariant
            n == vols@.len(),
            m == nsd.pairs@.len(),
            i <= m,
            nsd.pairs@ == ns_set_upto(vols@, vols@.len() as int),
            bases@ == bases_upto(nsd.pairs@, vols@, now_ms, i as int),
        decreases m - i,
    {
        let ns = &nsd.pairs[i].0;
        let mut acc: Option<i64> = None;
        let mut j: usize = 0;
        while j < n
            invariant
                n == vols@.len(),
                i < m == nsd.pairs@.len(),
                j <= n,
                *ns == nsd.pairs@[i as int].0,
                acc == max_created_upto(vols@, ns@, j as int),
            decreases n - j,
        {
            let v = &vols[j];
            if str_eq(v.namespace.as_str(), ns.as_str()) {
                acc = match (acc, v.created) {
                    (None, x) => x,
                    (Some(mx), None) => Some(mx),
                    (Some(mx), Some(c)) => if c > mx {
                        Some(c)
                    } else {
                        Some(mx)
                    },
                };
            }
            j = j + 1;
        }
        let created = match acc {
            Some(c) => c,
            None => now_ms,
        };
        bases.push(Resource { name: ns.clone(), created });
        i = i + 1;
        proof {
            assert(bases@ =~= bases_upto(nsd.pairs@, vols@, now_ms, i as int));
        }
    }
    proof {
        assert(bases@ == bases_spec(vols@, now_ms));
    }
    let policy = PrunePolicy { keep, older_than_days };
    let candidates = select_prune_candidates_at(bases, &policy, now_ms);
    let cn = candidates.len();
    let mut deld: Dict<()> = Dict::new();
    let mut i: usize = 0;
    while i < cn
        invariant
            n == vols@.len(),
            cn == candidates@.len(),
            i <= cn,
            deld.wf(),
            deld.pairs@ == del_upto(candidates@, vols@, i as int),
        decreases cn - i,
    {
        let c = &candidates[i];
        let ghost base = deld.pairs@;
        let mut j: usize = 0;
        while j < n
            invariant
                n == vols@.len(),
                i < cn == candidates@.len(),
                j <= n,
                *c == candidates@[i as int],
                deld.wf(),
                deld.pairs@ == del_inner(base, *c, vols@, j as int),
            decreases n - j,
        {
            let v = &vols[j];
            if str_eq(v.namespace.as_str(), c.name.as_str()) {
                deld.insert(v.name.clone(), ());
            }
            j = j + 1;
        }
        i = i + 1;
    }
    let dn = deld.pairs.len();
    let mut to_delete: Vec<String> = Vec::new();
    let mut i: usize = 0;
    while i < dn
        invariant
            dn == deld.pairs@.len(),
            i <= dn,
            deld.pairs@ == del_upto(candidates@, vols@, candidates@.len() as int),
            to_delete@ == keys_upto(deld.pairs@, i as int),
        decreases dn - i,
    {
        to_delete.push(deld.pairs[i].0.clone());
        i = i + 1;
        proof {
            assert(to_delete@ =~= keys_upto(deld.pairs@, i as int));
        }
    }
    (candidates, to_delete)
}

/// Plan a prune, judged against the clock; the plan rule holds for
/// whatever time was read.
pub fn plan_prune_volumes(
    vols: &Vec<VolumeMeta>,
    keep: usize,
    older_than_days: Option<i64>,
) -> (r: (Vec<Resource>, Vec<String>))
    ensures
        exists|now: i64|
            r.0@ == prune_candidates_spec(
                bases_spec(vols@, now),
                keep as int,
                #[trigger] cutoff_spec(now as int, older_than_days),
            ) && r.1@ == keys_upto(
                del_upto(r.0@, vols@, r.0@.len() as int),
                del_upto(r.0@, vols@, r.0@.len() as int).len() as int,
            ),
{
    let now = now_unix_millis();
    let r = plan_prune_volumes_at(vols, keep, older_than_days, now);
    proof {
        assert(r.0@ == prune_candidates_spec(
            bases_spec(vols@, now),
            keep as int,
            cutoff_spec(now as int, older_than_days),
        ));
    }
    r
}

} // verus!
