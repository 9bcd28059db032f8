//! Tree flattening: the hierarchical view, a pre-order traversal of the
//! parent/child forest with roots and children ordered by pid.

use vstd::prelude::*;
use crate::record::ProcessRecord;
use crate::view::{SortBy, SortOrder, sort_recs, sort_records};

verus! {

/// Some record in `s` carries this pid.
pub open spec fn has_pid(s: Seq<ProcessRecord>, pid: u32) -> bool {
    exists|i: int| 0 <= i < s.len() && s[i].pid == pid
}

/// A record is a root when it declares no parent, or its declared parent
/// is absent from the snapshot (it exited between samples).
pub open spec fn is_root_in(s: Seq<ProcessRecord>, r: ProcessRecord) -> bool {
    r.ppid == 0 || !has_pid(s, r.ppid)
}

/// The roots of `s`, in the order of `s`.
pub open spec fn roots_in(s: Seq<ProcessRecord>) -> Seq<ProcessRecord> {
    s.filter(|r: ProcessRecord| is_root_in(s, r))
}

/// The children of the process with this pid, in the order of `s`. A pid
/// of 0 never collects children: a record with parent 0 is a root.
pub open spec fn children_of(s: Seq<ProcessRecord>, pid: u32) -> Seq<ProcessRecord> {
    if pid == 0 {
        Seq::empty()
    } else {
        s.filter(|r: ProcessRecord| r.ppid == pid)
    }
}

/// `s` without the records carrying this pid.
pub open spec fn without_pid(s: Seq<ProcessRecord>, pid: u32) -> Seq<ProcessRecord> {
    s.filter(|r: ProcessRecord| r.pid != pid)
}

/// The pre-order rows of the subtree rooted at `p`: `p` itself at this
/// depth, then the rows of its children one deeper. Children are looked
/// up in the sequence with `p` removed, so each step works on a strictly
/// smaller sequence; with unique pids this removes only records that are
/// already emitted.
pub open spec fn subtree_rows(s: Seq<ProcessRecord>, p: ProcessRecord, depth: nat) -> Seq<
    (nat, ProcessRecord),
>
    decreases s.len(), 0nat, 0nat,
{
    let rest = without_pid(s, p.pid);
    if rest.len() < s.len() {
        seq![(depth, p)] + forest_rows(rest, children_of(rest, p.pid), depth + 1)
    } else {
        seq![(depth, p)]
    }
}

/// The pre-order rows of the subtrees rooted at `nodes`, in order.
pub open spec fn forest_rows(s: Seq<ProcessRecord>, nodes: Seq<ProcessRecord>, depth: nat) -> Seq<
    (nat, ProcessRecord),
>
    decreases s.len(), 1nat, nodes.len(),
{
    if nodes.len() == 0 {
        Seq::empty()
    } else {
        subtree_rows(s, nodes[0], depth) + forest_rows(s, nodes.skip(1), depth)
    }
}

/// The whole tree view: sort all records ascending by pid, then emit the
/// pre-order traversal starting from the roots. The active filter plays
/// no part here: the tree always shows every process.
pub open spec fn tree_rows(recs: Seq<ProcessRecord>) -> Seq<(nat, ProcessRecord)> {
    let s = sort_recs(SortBy::PID, SortOrder::Asc, recs);
    forest_rows(s, roots_in(s), 0)
}

/// Exec rows carry a machine-sized depth; they match the spec rows
/// element for element.
pub open spec fn rows_match(v: Seq<(usize, ProcessRecord)>, s: Seq<(nat, ProcessRecord)>) -> bool {
    v.len() == s.len() && forall|i: int|
        0 <= i < v.len() ==> (#[trigger] v[i]).0 as nat == s[i].0 && v[i].1 == s[i].1
}

proof fn lemma_rows_match_concat(
    a: Seq<(usize, ProcessRecord)>,
    b: Seq<(usize, ProcessRecord)>,
    sa: Seq<(nat, ProcessRecord)>,
    sb: Seq<(nat, ProcessRecord)>,
)
    requires
        rows_match(a, sa),
        rows_match(b, sb),
    ensures
        rows_match(a + b, sa + sb),
{
    assert forall|i: int| 0 <= i < (a + b).len() implies (#[trigger] (a + b)[i]).0 as nat == (sa
        + sb)[i].0 && (a + b)[i].1 == (sa + sb)[i].1 by {
        if i < a.len() {
            assert((a + b)[i] == a[i]);
            assert((sa + sb)[i] == sa[i]);
        } else {
            assert((a + b)[i] == b[i - a.len()]);
            assert((sa + sb)[i] == sb[i - a.len()]);
        }
    }
}

/// Is some record in `s` carrying this pid?
pub fn has_pid_exec(s: &Vec<ProcessRecord>, pid: u32) -> (b: bool)
    ensures
        b == has_pid(s@, pid),
{
    let n = s.len();
    for i in 0..n
        invariant
            n == s@.len(),
            forall|j: int| 0 <= j < i ==> s@[j].pid != pid,
    {
        if s[i].pid == pid {
            return true;
        }
    }
    false
}

/// The roots of the snapshot, in the order of `s`.
fn roots_exec(s: &Vec<ProcessRecord>) -> (out: Vec<ProcessRecord>)
    ensures
        out@ == roots_in(s@),
{
    let ghost pred = |r: ProcessRecord| is_root_in(s@, r);
    let mut out: Vec<ProcessRecord> = Vec::new();
    proof {
        reveal(Seq::filter);
        assert(s@.subrange(0, 0) =~= Seq::<ProcessRecord>::empty());
    }
    let n = s.len();
    for i in 0..n
        invariant
            n == s@.len(),
            out@ == s@.subrange(0, i as int).filter(pred),
            pred == (|r: ProcessRecord| is_root_in(s@, r)),
    {
        let r = &s[i];
        let root = r.ppid == 0 || !has_pid_exec(s, r.ppid);
        assert(root == pred(s@[i as int]));
        if root {
            out.push(r.clone());
        }
        proof {
            lemma_rec_filter_push(s@.subrange(0, i as int), pred, s@[i as int]);
            assert(s@.subrange(0, i as int + 1) =~= s@.subrange(0, i as int).push(s@[i as int]));
        }
    }
    proof {
        assert(s@.subrange(0, n as int) =~= s@);
    }
    out
}

/// Filtering distributes over appending one element at the back.
pub proof fn lemma_rec_filter_push(
    s: Seq<ProcessRecord>,
    pred: spec_fn(ProcessRecord) -> bool,
    x: ProcessRecord,
)
    ensures
        s.push(x).filter(pred) == if pred(x) {
            s.filter(pred).push(x)
        } else {
            s.filter(pred)
        },
{
    reveal(Seq::filter);
    assert(s.push(x).drop_last() =~= s);
    assert(s.push(x).last() == x);
}

/// The children of `pid`, in the order of `s`.
fn children_exec(s: &Vec<ProcessRecord>, pid: u32) -> (out: Vec<ProcessRecord>)
    ensures
        out@ == children_of(s@, pid),
{
    let mut out: Vec<ProcessRecord> = Vec::new();
    if pid == 0 {
        return out;
    }
    let ghost pred = |r: ProcessRecord| r.ppid == pid;
    proof {
        reveal(Seq::filter);
        assert(s@.subrange(0, 0) =~= Seq::<ProcessRecord>::empty());
    }
    let n = s.len();
    for i in 0..n
        invariant
            n == s@.len(),
            pid != 0,
            out@ == s@.subrange(0, i as int).filter(pred),
            pred == (|r: ProcessRecord| r.ppid == pid),
    {
        let r = &s[i];
        if r.ppid == pid {
            out.push(r.clone());
        }
        proof {
            lemma_rec_filter_push(s@.subrange(0, i as int), pred, s@[i as int]);
            assert(s@.subrange(0, i as int + 1) =~= s@.subrange(0, i as int).push(s@[i as int]));
        }
    }
    proof {
        assert(s@.subrange(0, n as int) =~= s@);
    }
    out
}

/// `s` without the records carrying this pid.
fn without_pid_exec(s: &Vec<ProcessRecord>, pid: u32) -> (out: Vec<ProcessRecord>)
    ensures
        out@ == without_pid(s@, pid),
{
    let ghost pred = |r: ProcessRecord| r.pid != pid;
    let mut out: Vec<ProcessRecord> = Vec::new();
    proof {
        reveal(Seq::filter);
        assert(s@.subrange(0, 0) =~= Seq::<ProcessRecord>::empty());
    }
    let n = s.len();
    for i in 0..n
        invariant
            n == s@.len(),
            out@ == s@.subrange(0, i as int).filter(pred),
            pred == (|r: ProcessRecord| r.pid != pid),
    {
        let r = &s[i];
        if r.pid != pid {
            out.push(r.clone());
        }
        proof {
            lemma_rec_filter_push(s@.subrange(0, i as int), pred, s@[i as int]);
            assert(s@.subrange(0, i as int + 1) =~= s@.subrange(0, i as int).push(s@[i as int]));
        }
    }
    proof {
        assert(s@.subrange(0, n as int) =~= s@);
    }
    out
}

/// Appends the rows of `src` to `dst`.
fn append_rows(dst: &mut Vec<(usize, ProcessRecord)>, src: &Vec<(usize, ProcessRecord)>)
    ensures
        final(dst)@ == old(dst)@ + src@,
{
    let n = src.len();
    for i in 0..n
        invariant
            n == src@.len(),
            dst@ == old(dst)@ + src@.subrange(0, i as int),
    {
        let row = &src[i];
        dst.push((row.0, row.1.clone()));
        proof {
            assert(old(dst)@ + src@.subrange(0, i as int + 1) =~= (old(dst)@ + src@.subrange(
                0,
                i as int,
            )).push(src@[i as int]));
        }
    }
    proof {
        assert(old(dst)@ + src@.subrange(0, n as int) =~= old(dst)@ + src@);
    }
}

/// Emits the subtree rooted at `p` in pre-order.
fn subtree_exec(s: &Vec<ProcessRecord>, p: &ProcessRecord, depth: usize) -> (out: Vec<
    (usize, ProcessRecord),
>)
    requires
        depth + s@.len() <= usize::MAX,
    ensures
        rows_match(out@, subtree_rows(s@, *p, depth as nat)),
    decreases s@.len(), 0nat, 0nat,
{
    let mut out: Vec<(usize, ProcessRecord)> = Vec::new();
    out.push((depth, p.clone()));
    let rest = without_pid_exec(s, p.pid);
    if rest.len() < s.len() {
        let kids = children_exec(&rest, p.pid);
        let sub = forest_exec(&rest, &kids, 0, depth + 1);
        proof {
            assert(kids@.skip(0) =~= kids@);
            lemma_rows_match_concat(
                out@,
                sub@,
                seq![((depth as nat), *p)],
                forest_rows(rest@, children_of(rest@, p.pid), depth as nat + 1),
            );
        }
        append_rows(&mut out, &sub);
    }
    out
}

/// Emits the subtrees of `nodes[from..]` in order.
fn forest_exec(s: &Vec<ProcessRecord>, nodes: &Vec<ProcessRecord>, from: usize, depth: usize) -> (out: Vec<
    (usize, ProcessRecord),
>)
    requires
        depth + s@.len() <= usize::MAX,
        from <= nodes@.len(),
    ensures
        rows_match(out@, forest_rows(s@, nodes@.skip(from as int), depth as nat)),
    decreases s@.len(), 1nat, nodes@.len() - from,
{
    if from >= nodes.len() {
        Vec::new()
    } else {
        let mut out = subtree_exec(s, &nodes[from], depth);
        let rest = forest_exec(s, nodes, from + 1, depth);
        proof {
            lemma_rows_match_concat(
                out@,
                rest@,
                subtree_rows(s@, nodes@[from as int], depth as nat),
                forest_rows(s@, nodes@.skip(from as int + 1), depth as nat),
            );
            assert(nodes@.skip(from as int).skip(1) =~= nodes@.skip(from as int + 1));
            assert(nodes@.skip(from as int)[0] == nodes@[from as int]);
        }
        append_rows(&mut out, &rest);
        out
    }
}

/// Computes the tree view of the snapshot: every record, pid-sorted
/// roots first, each subtree in pre-order with its true depth.
pub fn tree_view(recs: &Vec<ProcessRecord>) -> (out: Vec<(usize, ProcessRecord)>)
    ensures
        rows_match(out@, tree_rows(recs@)),
{
    let sorted = sort_records(SortBy::PID, SortOrder::Asc, recs);
    let roots = roots_exec(&sorted);
    let n = sorted.len();
    proof {
        assert(sorted@.len() == n as nat);
        assert(roots@.skip(0) =~= roots@);
    }
    forest_exec(&sorted, &roots, 0, 0)
}

} // verus!
