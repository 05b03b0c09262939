//! Ranking: the deterministic, stable, descending sort of a snapshot's
//! process table by the chosen metric.
//!
//! The functional specification `sort_desc` pins the result completely:
//! each element is inserted after every earlier element whose key is at
//! least as large, so ties keep their original enumeration order.

use vstd::prelude::*;
use vstd::multiset::Multiset;

use crate::snapshot::{ProcessSample, Snapshot};
use crate::text::str_eq;

verus! {

broadcast use vstd::seq_lib::group_to_multiset_ensures, vstd::multiset::group_multiset_axioms, vstd::seq_lib::lemma_multiset_commutative;

/// The metric a report is ordered by.
#[derive(Clone, Copy, PartialEq, Eq, Structural, Debug)]
pub enum SortKey {
    Cpu,
    Memory,
}

/// The sort key named by a string: `"cpu"` selects the CPU metric, any
/// other value falls back to the memory metric.
pub open spec fn sort_key_of(s: Seq<char>) -> SortKey {
    if s == "cpu"@ {
        SortKey::Cpu
    } else {
        SortKey::Memory
    }
}

/// Parses a sort-key name, falling back to the memory metric for any
/// unrecognized value.
pub fn parse_sort_key(s: &str) -> (k: SortKey)
    ensures
        k == sort_key_of(s@),
{
    if str_eq(s, "cpu") {
        SortKey::Cpu
    } else {
        SortKey::Memory
    }
}

/// The metric of a process under the given sort key.
pub open spec fn key_of(p: ProcessSample, k: SortKey) -> u64 {
    match k {
        SortKey::Cpu => p.cpu_centi_percent,
        SortKey::Memory => p.memory_kb,
    }
}

/// The metric of a process under the given sort key.
pub fn key_val(p: &ProcessSample, k: SortKey) -> (v: u64)
    ensures
        v == key_of(*p, k),
{
    match k {
        SortKey::Cpu => p.cpu_centi_percent,
        SortKey::Memory => p.memory_kb,
    }
}

/// Non-increasing order in the chosen metric.
pub open spec fn sorted_desc(s: Seq<ProcessSample>, k: SortKey) -> bool {
    forall|i: int, j: int| 0 <= i <= j < s.len() ==> key_of(s[i], k) >= key_of(s[j], k)
}

/// `p` placed after every leading element of `s` whose key is at least
/// `p`'s key.
pub open spec fn insert_desc(s: Seq<ProcessSample>, p: ProcessSample, k: SortKey) -> Seq<
    ProcessSample,
>
    decreases s.len(),
{
    if s.len() == 0 {
        seq![p]
    } else if key_of(s[0], k) >= key_of(p, k) {
        seq![s[0]] + insert_desc(s.drop_first(), p, k)
    } else {
        seq![p] + s
    }
}

/// The stable descending sort of `s` by the chosen metric: each element
/// in turn is inserted behind its equal-or-greater predecessors.
pub open spec fn sort_desc(s: Seq<ProcessSample>, k: SortKey) -> Seq<ProcessSample>
    decreases s.len(),
{
    if s.len() == 0 {
        Seq::empty()
    } else {
        insert_desc(sort_desc(s.drop_last(), k), s.last(), k)
    }
}

proof fn lemma_insert_desc_len(s: Seq<ProcessSample>, p: ProcessSample, k: SortKey)
    ensures
        insert_desc(s, p, k).len() == s.len() + 1,
    decreases s.len(),
{
    if s.len() != 0 && key_of(s[0], k) >= key_of(p, k) {
        lemma_insert_desc_len(s.drop_first(), p, k);
    }
}

proof fn lemma_insert_desc_multiset(s: Seq<ProcessSample>, p: ProcessSample, k: SortKey)
    ensures
        insert_desc(s, p, k).to_multiset() == s.to_multiset().insert(p),
    decreases s.len(),
{
    if s.len() == 0 {
        assert(seq![p] =~= Seq::<ProcessSample>::empty().push(p));
        assert(s =~= Seq::<ProcessSample>::empty());
        assert(insert_desc(s, p, k).to_multiset() =~= s.to_multiset().insert(p));
    } else if key_of(s[0], k) >= key_of(p, k) {
        lemma_insert_desc_multiset(s.drop_first(), p, k);
        assert(s =~= seq![s[0]] + s.drop_first());
        assert((seq![s[0]] + insert_desc(s.drop_first(), p, k)).to_multiset() =~= seq![
            s[0],
        ].to_multiset().add(insert_desc(s.drop_first(), p, k).to_multiset()));
        assert((seq![s[0]] + s.drop_first()).to_multiset() =~= seq![s[0]].to_multiset().add(
            s.drop_first().to_multiset(),
        ));
        assert(insert_desc(s, p, k).to_multiset() =~= s.to_multiset().insert(p));
    } else {
        assert((seq![p] + s).to_multiset() =~= seq![p].to_multiset().add(s.to_multiset()));
        assert(seq![p] =~= Seq::<ProcessSample>::empty().push(p));
        assert(seq![p].to_multiset() =~= Multiset::<ProcessSample>::empty().insert(p));
        assert(insert_desc(s, p, k).to_multiset() =~= s.to_multiset().insert(p));
    }
}

proof fn lemma_insert_desc_bound(s: Seq<ProcessSample>, p: ProcessSample, k: SortKey, b: u64)
    requires
        key_of(p, k) <= b,
        forall|i: int| 0 <= i < s.len() ==> key_of(s[i], k) <= b,
    ensures
        forall|i: int| 0 <= i < insert_desc(s, p, k).len() ==> key_of(insert_desc(s, p, k)[i], k)
            <= b,
    decreases s.len(),
{
    if s.len() == 0 {
        assert(insert_desc(s, p, k) == seq![p]);
        assert(key_of(insert_desc(s, p, k)[0], k) <= b);
    } else if key_of(s[0], k) >= key_of(p, k) {
        let rest = s.drop_first();
        assert(forall|i: int| 0 <= i < rest.len() ==> key_of(rest[i], k) <= b) by {
            assert(forall|i: int| 0 <= i < rest.len() ==> rest[i] == s[i + 1]);
        }
        lemma_insert_desc_bound(rest, p, k, b);
        let t = seq![s[0]] + insert_desc(rest, p, k);
        assert forall|i: int| 0 <= i < t.len() implies key_of(t[i], k) <= b by {
            if i > 0 {
                assert(t[i] == insert_desc(rest, p, k)[i - 1]);
            }
        }
    } else {
        let t = seq![p] + s;
        assert forall|i: int| 0 <= i < t.len() implies key_of(t[i], k) <= b by {
            if i > 0 {
                assert(t[i] == s[i - 1]);
            }
        }
    }
}

proof fn lemma_insert_desc_sorted(s: Seq<ProcessSample>, p: ProcessSample, k: SortKey)
    requires
        sorted_desc(s, k),
    ensures
        sorted_desc(insert_desc(s, p, k), k),
    decreases s.len(),
{
    if s.len() == 0 {
    } else if key_of(s[0], k) >= key_of(p, k) {
        let rest = s.drop_first();
        assert(forall|i: int, j: int|
            0 <= i <= j < rest.len() ==> key_of(rest[i], k) >= key_of(rest[j], k)) by {
            assert(forall|i: int| 0 <= i < rest.len() ==> rest[i] == s[i + 1]);
        }
        lemma_insert_desc_sorted(rest, p, k);
        assert(forall|i: int| 0 <= i < rest.len() ==> key_of(rest[i], k) <= key_of(s[0], k)) by {
            assert(forall|i: int| 0 <= i < rest.len() ==> rest[i] == s[i + 1]);
        }
        lemma_insert_desc_bound(rest, p, k, key_of(s[0], k));
        let t = seq![s[0]] + insert_desc(rest, p, k);
        assert forall|i: int, j: int| 0 <= i <= j < t.len() implies key_of(t[i], k) >= key_of(
            t[j],
            k,
        ) by {
            if i > 0 {
                assert(t[i] == insert_desc(rest, p, k)[i - 1]);
                assert(t[j] == insert_desc(rest, p, k)[j - 1]);
            } else if j > 0 {
                assert(t[j] == insert_desc(rest, p, k)[j - 1]);
            }
        }
    } else {
        let t = seq![p] + s;
        assert forall|i: int, j: int| 0 <= i <= j < t.len() implies key_of(t[i], k) >= key_of(
            t[j],
            k,
        ) by {
            if i > 0 {
                assert(t[i] == s[i - 1]);
                assert(t[j] == s[j - 1]);
            } else if j > 0 {
                assert(t[j] == s[j - 1]);
                assert(key_of(s[0], k) >= key_of(s[j - 1], k));
            }
        }
    }
}

/// Splitting law for `insert_desc`: past a prefix of equal-or-greater
/// keys ending at the insertion point, the insertion is a plain
/// `Seq::insert`.
proof fn lemma_insert_desc_split(s: Seq<ProcessSample>, p: ProcessSample, k: SortKey, j: int)
    requires
        0 <= j <= s.len(),
        forall|i: int| 0 <= i < j ==> key_of(s[i], k) >= key_of(p, k),
        j < s.len() ==> key_of(s[j], k) < key_of(p, k),
    ensures
        insert_desc(s, p, k) == s.insert(j, p),
    decreases j,
{
    if j == 0 {
        if s.len() == 0 {
            assert(insert_desc(s, p, k) =~= s.insert(0, p));
        } else {
            assert(insert_desc(s, p, k) =~= s.insert(0, p));
        }
    } else {
        let rest = s.drop_first();
        assert(forall|i: int| 0 <= i < j - 1 ==> rest[i] == s[i + 1]);
        assert(j - 1 < rest.len() ==> rest[j - 1] == s[j]);
        lemma_insert_desc_split(rest, p, k, j - 1);
        assert(insert_desc(s, p, k) == seq![s[0]] + rest.insert(j - 1, p));
        assert(seq![s[0]] + rest.insert(j - 1, p) =~= s.insert(j, p));
    }
}

/// The stable descending sort is sorted under the chosen metric.
pub proof fn lemma_sort_desc_sorted(s: Seq<ProcessSample>, k: SortKey)
    ensures
        sorted_desc(sort_desc(s, k), k),
    decreases s.len(),
{
    if s.len() != 0 {
        lemma_sort_desc_sorted(s.drop_last(), k);
        lemma_insert_desc_sorted(sort_desc(s.drop_last(), k), s.last(), k);
    }
}

/// The stable descending sort is a permutation of its input.
pub proof fn lemma_sort_desc_permutes(s: Seq<ProcessSample>, k: SortKey)
    ensures
        sort_desc(s, k).to_multiset() == s.to_multiset(),
        sort_desc(s, k).len() == s.len(),
    decreases s.len(),
{
    if s.len() == 0 {
    } else {
        lemma_sort_desc_permutes(s.drop_last(), k);
        lemma_insert_desc_multiset(sort_desc(s.drop_last(), k), s.last(), k);
        lemma_insert_desc_len(sort_desc(s.drop_last(), k), s.last(), k);
        assert(s =~= s.drop_last().push(s.last()));
        assert(s.drop_last().push(s.last()).to_multiset() =~= s.drop_last().to_multiset().insert(
            s.last(),
        ));
    }
}

/// Every prefix of a sorted table is sorted.
pub proof fn lemma_sorted_desc_take(s: Seq<ProcessSample>, k: SortKey, n: int)
    requires
        sorted_desc(s, k),
        0 <= n <= s.len(),
    ensures
        sorted_desc(s.take(n), k),
{
    assert(forall|i: int| 0 <= i < n ==> s.take(n)[i] == s[i]);
}

fn insert_sorted(out: &mut Vec<ProcessSample>, p: ProcessSample, k: SortKey)
    ensures
        final(out)@ == insert_desc(old(out)@, p, k),
{
    let ghost s0 = out@;
    let pk = key_val(&p, k);
    let mut j: usize = 0;
    while j < out.len() && key_val(&out[j], k) >= pk
        invariant
            j <= out@.len(),
            out@ == s0,
            pk == key_of(p, k),
            forall|i: int| 0 <= i < j ==> key_of(out@[i], k) >= key_of(p, k),
        decreases out@.len() - j,
    {
        j = j + 1;
    }
    proof {
        lemma_insert_desc_split(s0, p, k, j as int);
    }
    out.insert(j, p);
}

/// Sorts a process table descending by the chosen metric; ties keep
/// their original order.
pub fn sort_processes(procs: Vec<ProcessSample>, k: SortKey) -> (r: Vec<ProcessSample>)
    ensures
        r@ == sort_desc(procs@, k),
        sorted_desc(r@, k),
        r@.to_multiset() == procs@.to_multiset(),
        r@.len() == procs@.len(),
{
    let ghost orig = procs@;
    let n = procs.len();
    let mut src = procs;
    let mut out: Vec<ProcessSample> = Vec::new();
    let mut i: usize = 0;
    proof {
        assert(orig.take(0) =~= Seq::<ProcessSample>::empty());
        assert(orig.skip(0) =~= orig);
    }
    while src.len() > 0
        invariant
            i <= n,
            n == orig.len(),
            i + src@.len() == orig.len(),
            src@ == orig.skip(i as int),
            out@ == sort_desc(orig.take(i as int), k),
        decreases src@.len(),
    {
        let ghost pre = src@;
        let p = src.remove(0);
        proof {
            assert(p == orig[i as int]);
            assert(src@ =~= orig.skip(i as int + 1));
        }
        insert_sorted(&mut out, p, k);
        proof {
            assert(orig.take(i as int + 1).drop_last() =~= orig.take(i as int));
            assert(orig.take(i as int + 1).last() == orig[i as int]);
        }
        i = i + 1;
    }
    proof {
        assert(orig.take(i as int) =~= orig);
        lemma_sort_desc_sorted(orig, k);
        lemma_sort_desc_permutes(orig, k);
    }
    out
}

/// The snapshot's process table, sorted descending by the chosen metric.
pub fn rank(snapshot: &Snapshot, k: SortKey) -> (r: Vec<ProcessSample>)
    ensures
        r@ == sort_desc(snapshot.processes@, k),
        sorted_desc(r@, k),
        r@.to_multiset() == snapshot.processes@.to_multiset(),
        r@.len() == snapshot.processes@.len(),
{
    let copy = clone_processes(&snapshot.processes);
    sort_processes(copy, k)
}

fn clone_processes(v: &Vec<ProcessSample>) -> (r: Vec<ProcessSample>)
    ensures
        r@ == v@,
{
    let r = v.clone();
    proof {
        assert forall|i: int| 0 <= i < v@.len() implies r@[i] == v@[i] by {
            assert(cloned::<ProcessSample>(v@[i], r@[i]));
        }
        assert(r@ =~= v@);
    }
    r
}

} // verus!
