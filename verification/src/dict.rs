//! A key-ordered association list.
//!
//! Configuration maps (profiles, jobs, steps, environments) are kept
//! sorted by key and free of duplicates. This gives them a canonical
//! form: two dictionaries holding the same entries are identical
//! sequences, however the entries were inserted. The fingerprint
//! engine relies on that canonical form for insertion-order
//! independence.

use vstd::prelude::*;

use crate::text::lemma_str_lt_asym;
use crate::text::lemma_str_lt_connected;
use crate::text::lemma_str_lt_irrefl;
use crate::text::lemma_str_lt_trans;
use crate::text::str_eq;
use crate::text::str_less;
use crate::text::str_lt;

verus! {

/// The entries are strictly sorted by key, hence free of duplicates.
pub open spec fn entries_sorted<V>(s: Seq<(String, V)>) -> bool {
    forall|i: int, j: int| 0 <= i < j < s.len() ==> str_lt(s[i].0@, s[j].0@)
}

/// Some entry has this key.
pub open spec fn has_key<V>(s: Seq<(String, V)>, k: Seq<char>) -> bool {
    exists|i: int| 0 <= i < s.len() && s[i].0@ == k
}

/// Some entry holds exactly this key and value.
pub open spec fn has_pair<V>(s: Seq<(String, V)>, k: Seq<char>, v: V) -> bool {
    exists|i: int| 0 <= i < s.len() && s[i].0@ == k && s[i].1 == v
}

/// The value of the first entry with key `k`, scanning from `i`.
pub open spec fn lookup_from<V>(s: Seq<(String, V)>, k: Seq<char>, i: int) -> Option<V>
    decreases s.len() - i,
{
    if i < 0 || i >= s.len() {
        None
    } else if s[i].0@ == k {
        Some(s[i].1)
    } else {
        lookup_from(s, k, i + 1)
    }
}

/// The value stored under key `k`, if any.
pub open spec fn lookup<V>(s: Seq<(String, V)>, k: Seq<char>) -> Option<V> {
    lookup_from(s, k, 0)
}

/// The entries after inserting `(k, v)`, keeping the sort order and
/// replacing an existing entry with the same key.
pub open spec fn entries_insert<V>(s: Seq<(String, V)>, k: String, v: V) -> Seq<(String, V)>
    decreases s.len(),
{
    if s.len() == 0 {
        seq![(k, v)]
    } else if str_lt(k@, s[0].0@) {
        seq![(k, v)] + s
    } else if k@ == s[0].0@ {
        seq![(k, v)] + s.drop_first()
    } else {
        seq![s[0]] + entries_insert(s.drop_first(), k, v)
    }
}

/// A string-keyed map with a canonical (sorted, duplicate-free)
/// representation.
pub struct Dict<V> {
    pub pairs: Vec<(String, V)>,
}

impl<V> Dict<V> {
    /// The representation invariant: entries strictly sorted by key.
    pub open spec fn wf(&self) -> bool {
        entries_sorted(self.pairs@)
    }

    /// The empty dictionary.
    pub fn new() -> (r: Self)
        ensures
            r.pairs@.len() == 0,
            r.wf(),
    {
        Dict { pairs: Vec::new() }
    }

    /// The number of entries.
    pub fn len(&self) -> (r: usize)
        ensures
            r == self.pairs@.len(),
    {
        self.pairs.len()
    }

    /// Whether no entry is present.
    pub fn is_empty(&self) -> (r: bool)
        ensures
            r == (self.pairs@.len() == 0),
    {
        self.pairs.len() == 0
    }

    /// The value stored under `k`, if any.
    pub fn get(&self, k: &str) -> (r: Option<&V>)
        ensures
            match r {
                Some(v) => lookup(self.pairs@, k@) == Some(*v),
                None => lookup(self.pairs@, k@) is None,
            },
    {
        let n = self.pairs.len();
        let mut i: usize = 0;
        while i < n
            invariant
                n == self.pairs@.len(),
                i <= n,
                lookup(self.pairs@, k@) == lookup_from(self.pairs@, k@, i as int),
            decreases n - i,
        {
            let p = &self.pairs[i];
            if str_eq(p.0.as_str(), k) {
                return Some(&p.1);
            }
            i = i + 1;
        }
        None
    }

    /// Whether an entry with key `k` is present.
    pub fn contains_key(&self, k: &str) -> (r: bool)
        ensures
            r == has_key(self.pairs@, k@),
    {
        let n = self.pairs.len();
        let mut i: usize = 0;
        while i < n
            invariant
                n == self.pairs@.len(),
                i <= n,
                forall|j: int| 0 <= j < i ==> self.pairs@[j].0@ != k@,
            decreases n - i,
        {
            let p = &self.pairs[i];
            if str_eq(p.0.as_str(), k) {
                return true;
            }
            i = i + 1;
        }
        false
    }

    /// Insert `(k, v)`, replacing any entry with the same key and
    /// keeping the entries sorted.
    pub fn insert(&mut self, k: String, v: V)
        requires
            old(self).wf(),
        ensures
            final(self).pairs@ == entries_insert(old(self).pairs@, k, v),
            final(self).wf(),
    {
        let ghost s0 = self.pairs@;
        let n = self.pairs.len();
        let pos = find_pos(&self.pairs, k.as_str());
        let replace = pos < n && str_eq(self.pairs[pos].0.as_str(), k.as_str());
        proof {
            lemma_entries_insert_at(s0, k, v, pos as int);
            if pos < s0.len() && !replace {
                lemma_str_lt_connected(k@, s0[pos as int].0@);
            }
        }
        if replace {
            self.pairs.remove(pos);
            self.pairs.insert(pos, (k, v));
            proof {
                assert(self.pairs@ =~= s0.take(pos as int) + seq![(k, v)] + s0.skip(
                    pos as int + 1,
                ));
                lemma_insert_keeps_sorted(s0, k, v, pos as int, true);
            }
        } else {
            self.pairs.insert(pos, (k, v));
            proof {
                assert(self.pairs@ =~= s0.take(pos as int) + seq![(k, v)] + s0.skip(pos as int));
                lemma_insert_keeps_sorted(s0, k, v, pos as int, false);
            }
        }
    }
}

/// The first position whose key does not sort strictly below `k`.
fn find_pos<V>(pairs: &Vec<(String, V)>, k: &str) -> (pos: usize)
    ensures
        pos <= pairs@.len(),
        forall|j: int| 0 <= j < pos ==> str_lt(pairs@[j].0@, k@),
        pos < pairs@.len() ==> !str_lt(pairs@[pos as int].0@, k@),
{
    let n = pairs.len();
    let mut i: usize = 0;
    while i < n
        invariant
            n == pairs@.len(),
            i <= n,
            forall|j: int| 0 <= j < i ==> str_lt(pairs@[j].0@, k@),
        decreases n - i,
    {
        let p = &pairs[i];
        if !str_less(p.0.as_str(), k) {
            return i;
        }
        i = i + 1;
    }
    i
}

/// Positional characterization of `entries_insert`: if everything
/// before `pos` sorts below `k` and the entry at `pos` (if any) does
/// not, the insertion happens exactly at `pos`.
pub proof fn lemma_entries_insert_at<V>(s: Seq<(String, V)>, k: String, v: V, pos: int)
    requires
        entries_sorted(s),
        0 <= pos <= s.len(),
        forall|j: int| 0 <= j < pos ==> str_lt(s[j].0@, k@),
        pos < s.len() ==> !str_lt(s[pos].0@, k@),
    ensures
        pos < s.len() && s[pos].0@ == k@ ==> entries_insert(s, k, v) =~= s.take(pos) + seq![(k, v)]
            + s.skip(pos + 1),
        !(pos < s.len() && s[pos].0@ == k@) ==> entries_insert(s, k, v) =~= s.take(pos) + seq![
            (k, v),
        ] + s.skip(pos),
    decreases s.len(),
{
    if s.len() == 0 {
        assert(entries_insert(s, k, v) =~= s.take(0) + seq![(k, v)] + s.skip(0));
    } else if pos == 0 {
        if s[0].0@ == k@ {
            assert(entries_insert(s, k, v) =~= s.take(0) + seq![(k, v)] + s.skip(1));
        } else {
            lemma_str_lt_connected(k@, s[0].0@);
            assert(str_lt(k@, s[0].0@));
            assert(entries_insert(s, k, v) =~= s.take(0) + seq![(k, v)] + s.skip(0));
        }
    } else {
        assert(str_lt(s[0].0@, k@));
        lemma_str_lt_irrefl(k@);
        lemma_str_lt_asym(k@, s[0].0@);
        let t = s.drop_first();
        assert(entries_sorted(t)) by {
            assert(forall|i: int, j: int|
                0 <= i < j < t.len() ==> t[i] == s[i + 1] && t[j] == s[j + 1]);
        }
        lemma_entries_insert_at(t, k, v, pos - 1);
        if pos < s.len() && s[pos].0@ == k@ {
            assert(entries_insert(s, k, v) =~= s.take(pos) + seq![(k, v)] + s.skip(pos + 1)) by {
                assert(entries_insert(s, k, v) == seq![s[0]] + entries_insert(t, k, v));
                assert(entries_insert(t, k, v) =~= t.take(pos - 1) + seq![(k, v)] + t.skip(pos));
            }
        } else {
            assert(entries_insert(s, k, v) =~= s.take(pos) + seq![(k, v)] + s.skip(pos)) by {
                assert(entries_insert(s, k, v) == seq![s[0]] + entries_insert(t, k, v));
                assert(entries_insert(t, k, v) =~= t.take(pos - 1) + seq![(k, v)] + t.skip(
                    pos - 1,
                ));
            }
        }
    }
}

/// Inserting at the found position keeps the entries strictly sorted.
pub proof fn lemma_insert_keeps_sorted<V>(
    s: Seq<(String, V)>,
    k: String,
    v: V,
    pos: int,
    replace: bool,
)
    requires
        entries_sorted(s),
        0 <= pos <= s.len(),
        forall|j: int| 0 <= j < pos ==> str_lt(s[j].0@, k@),
        replace ==> pos < s.len() && s[pos].0@ == k@,
        !replace && pos < s.len() ==> str_lt(k@, s[pos].0@),
    ensures
        replace ==> entries_sorted(s.take(pos) + seq![(k, v)] + s.skip(pos + 1)),
        !replace ==> entries_sorted(s.take(pos) + seq![(k, v)] + s.skip(pos)),
{
    if replace {
        let r = s.take(pos) + seq![(k, v)] + s.skip(pos + 1);
        assert forall|i: int, j: int| 0 <= i < j < r.len() implies str_lt(r[i].0@, r[j].0@) by {
            if i < pos {
                assert(r[i] == s[i]);
            }
            if j < pos {
                assert(r[j] == s[j]);
            }
            if i > pos {
                assert(r[i] == s[i]);
            }
            if j > pos {
                assert(r[j] == s[j]);
            }
            if i == pos {
                assert(r[i].0@ == k@);
            }
            if j == pos {
                assert(r[j].0@ == k@);
            }
        }
    } else {
        let r = s.take(pos) + seq![(k, v)] + s.skip(pos);
        assert forall|i: int, j: int| 0 <= i < j < r.len() implies str_lt(r[i].0@, r[j].0@) by {
            if i < pos {
                assert(r[i] == s[i]);
            }
            if j < pos {
                assert(r[j] == s[j]);
            }
            if i > pos {
                assert(r[i] == s[i - 1]);
            }
            if j > pos {
                assert(r[j] == s[j - 1]);
            }
            if i == pos {
                assert(r[i].0@ == k@);
                if j > pos && j - 1 > pos {
                    lemma_str_lt_trans(k@, s[pos].0@, s[j - 1].0@);
                }
            }
            if j == pos {
                assert(r[j].0@ == k@);
            }
            if i < pos && j > pos && j - 1 >= pos && j - 1 < s.len() && pos < s.len() {
                if j - 1 == pos {
                } else {
                    assert(str_lt(s[i].0@, s[j - 1].0@));
                }
            }
        }
    }
}

/// Canonical form: two sorted, duplicate-free entry lists that hold
/// the same pairs are the same list (up to the string views of their
/// keys). This is what makes the fingerprint independent of the order
/// in which a configuration's maps were built.
pub proof fn lemma_sorted_entries_canonical<V>(a: Seq<(String, V)>, b: Seq<(String, V)>)
    requires
        entries_sorted(a),
        entries_sorted(b),
        forall|k: Seq<char>, v: V| #[trigger] has_pair(a, k, v) <==> #[trigger] has_pair(b, k, v),
    ensures
        a.len() == b.len(),
        forall|i: int| 0 <= i < a.len() ==> a[i].0@ == b[i].0@ && a[i].1 == b[i].1,
    decreases a.len(),
{
    if a.len() == 0 {
        if b.len() > 0 {
            assert(has_pair(b, b[0].0@, b[0].1));
            assert(has_pair(a, b[0].0@, b[0].1));
            assert(false);
        }
    } else if b.len() == 0 {
        assert(has_pair(a, a[0].0@, a[0].1));
        assert(has_pair(b, a[0].0@, a[0].1));
        assert(false);
    } else {
        let ka = a[0].0@;
        let va = a[0].1;
        let kb = b[0].0@;
        let vb = b[0].1;
        assert(has_pair(a, ka, va));
        assert(has_pair(b, ka, va));
        let ib = choose|i: int| 0 <= i < b.len() && b[i].0@ == ka && b[i].1 == va;
        assert(has_pair(b, kb, vb));
        assert(has_pair(a, kb, vb));
        let ia = choose|i: int| 0 <= i < a.len() && a[i].0@ == kb && a[i].1 == vb;
        if ib > 0 && ia > 0 {
            assert(str_lt(kb, b[ib].0@));
            assert(str_lt(ka, a[ia].0@));
            lemma_str_lt_asym(ka, kb);
            assert(false);
        }
        assert(a[0].0@ == b[0].0@ && a[0].1 == b[0].1);
        let at = a.drop_first();
        let bt = b.drop_first();
        assert(entries_sorted(at)) by {
            assert(forall|i: int, j: int|
                0 <= i < j < at.len() ==> at[i] == a[i + 1] && at[j] == a[j + 1]);
        }
        assert(entries_sorted(bt)) by {
            assert(forall|i: int, j: int|
                0 <= i < j < bt.len() ==> bt[i] == b[i + 1] && bt[j] == b[j + 1]);
        }
        assert forall|k: Seq<char>, v: V| #[trigger] has_pair(at, k, v) implies #[trigger]
        has_pair(bt, k, v) by {
            let i = choose|i: int| 0 <= i < at.len() && at[i].0@ == k && at[i].1 == v;
            assert(at[i] == a[i + 1]);
            assert(str_lt(a[0].0@, k));
            lemma_str_lt_irrefl(k);
            assert(has_pair(a, k, v));
            assert(has_pair(b, k, v));
            let j = choose|j: int| 0 <= j < b.len() && b[j].0@ == k && b[j].1 == v;
            assert(j > 0);
            assert(bt[j - 1] == b[j]);
            assert(has_pair(bt, k, v));
        }
        assert forall|k: Seq<char>, v: V| #[trigger] has_pair(bt, k, v) implies #[trigger]
        has_pair(at, k, v) by {
            let i = choose|i: int| 0 <= i < bt.len() && bt[i].0@ == k && bt[i].1 == v;
            assert(bt[i] == b[i + 1]);
            assert(str_lt(b[0].0@, k));
            lemma_str_lt_irrefl(k);
            assert(has_pair(b, k, v));
            assert(has_pair(a, k, v));
            let j = choose|j: int| 0 <= j < a.len() && a[j].0@ == k && a[j].1 == v;
            assert(j > 0);
            assert(at[j - 1] == a[j]);
            assert(has_pair(at, k, v));
        }
        lemma_sorted_entries_canonical(at, bt);
        assert forall|i: int| 0 <= i < a.len() implies a[i].0@ == b[i].0@ && a[i].1 == b[i].1 by {
            if i > 0 {
                assert(at[i - 1] == a[i]);
                assert(bt[i - 1] == b[i]);
            }
        }
    }
}

} // verus!
