//! The view transform engine: the sort comparator, the case-insensitive
//! command filter, and the tree flattening, all pure functions of a
//! snapshot plus the current sort and filter settings.

use vstd::prelude::*;
use crate::record::ProcessRecord;
use crate::text::{lex_le, lemma_lex_le_total, lex_le_exec, contains_seq, lower_of, lowercase, contains_exec};

verus! {

/// The column a view is sorted by.
#[derive(Clone, Copy, PartialEq, Eq, Structural, Debug)]
pub enum SortBy {
    PID,
    User,
    CPU,
    MEM,
    Time,
    Command,
}

/// Ascending or descending.
#[derive(Clone, Copy, PartialEq, Eq, Structural, Debug)]
pub enum SortOrder {
    Asc,
    Desc,
}

/// `a` comes no later than `b` under the given key: numeric order for
/// numeric columns, lexicographic order for string columns.
pub open spec fn key_le(k: SortBy, a: ProcessRecord, b: ProcessRecord) -> bool {
    match k {
        SortBy::PID => a.pid <= b.pid,
        SortBy::User => lex_le(a.user@, b.user@),
        SortBy::CPU => a.cpu_millipct <= b.cpu_millipct,
        SortBy::MEM => a.mem_millipct <= b.mem_millipct,
        SortBy::Time => a.cpu_time <= b.cpu_time,
        SortBy::Command => lex_le(a.command@, b.command@),
    }
}

/// The active comparator: the key order, reversed when descending.
pub open spec fn record_le(k: SortBy, o: SortOrder, a: ProcessRecord, b: ProcessRecord) -> bool {
    match o {
        SortOrder::Asc => key_le(k, a, b),
        SortOrder::Desc => key_le(k, b, a),
    }
}

/// The comparator is total.
pub proof fn lemma_record_le_total(k: SortBy, o: SortOrder, a: ProcessRecord, b: ProcessRecord)
    ensures
        record_le(k, o, a, b) || record_le(k, o, b, a),
{
    match k {
        SortBy::User => lemma_lex_le_total(a.user@, b.user@),
        SortBy::Command => lemma_lex_le_total(a.command@, b.command@),
        _ => (),
    }
}

/// Decides `record_le`.
pub fn record_le_exec(k: SortBy, o: SortOrder, a: &ProcessRecord, b: &ProcessRecord) -> (r: bool)
    ensures
        r == record_le(k, o, *a, *b),
{
    let (x, y) = match o {
        SortOrder::Asc => (a, b),
        SortOrder::Desc => (b, a),
    };
    match k {
        SortBy::PID => x.pid <= y.pid,
        SortBy::User => lex_le_exec(x.user.as_str(), y.user.as_str()),
        SortBy::CPU => x.cpu_millipct <= y.cpu_millipct,
        SortBy::MEM => x.mem_millipct <= y.mem_millipct,
        SortBy::Time => x.cpu_time <= y.cpu_time,
        SortBy::Command => lex_le_exec(x.command.as_str(), y.command.as_str()),
    }
}

/// Each record comes no later than its successor.
pub open spec fn sorted_by(k: SortBy, o: SortOrder, s: Seq<ProcessRecord>) -> bool {
    forall|i: int| 0 <= i < s.len() - 1 ==> record_le(k, o, #[trigger] s[i], s[i + 1])
}

/// `r` placed in front of the first element of `s` it precedes or ties
/// with; the placement a stable sort gives an element inserted into an
/// already sorted suffix.
pub open spec fn insert_sorted(k: SortBy, o: SortOrder, r: ProcessRecord, s: Seq<ProcessRecord>) -> Seq<
    ProcessRecord,
>
    decreases s.len(),
{
    if s.len() == 0 {
        seq![r]
    } else if record_le(k, o, r, s[0]) {
        seq![r] + s
    } else {
        seq![s[0]] + insert_sorted(k, o, r, s.skip(1))
    }
}

/// The stable sort of `s` under `(k, o)`: what the view shows.
pub open spec fn sort_recs(k: SortBy, o: SortOrder, s: Seq<ProcessRecord>) -> Seq<ProcessRecord>
    decreases s.len(),
{
    if s.len() == 0 {
        s
    } else {
        insert_sorted(k, o, s[0], sort_recs(k, o, s.skip(1)))
    }
}

/// Inserting into a sorted sequence keeps it sorted and grows it by one.
pub proof fn lemma_insert_sorted(k: SortBy, o: SortOrder, r: ProcessRecord, s: Seq<ProcessRecord>)
    requires
        sorted_by(k, o, s),
    ensures
        sorted_by(k, o, insert_sorted(k, o, r, s)),
        insert_sorted(k, o, r, s).len() == s.len() + 1,
    decreases s.len(),
{
    if s.len() == 0 {
    } else if record_le(k, o, r, s[0]) {
        let t = seq![r] + s;
        assert forall|i: int| 0 <= i < t.len() - 1 implies record_le(k, o, #[trigger] t[i], t[i + 1]) by {
            if i > 0 {
                assert(t[i] == s[i - 1]);
                assert(t[i + 1] == s[i]);
            }
        }
    } else {
        let s1 = s.skip(1);
        assert(sorted_by(k, o, s1)) by {
            assert forall|i: int| 0 <= i < s1.len() - 1 implies record_le(k, o, #[trigger] s1[i], s1[i + 1]) by {
                assert(s1[i] == s[i + 1]);
                assert(s1[i + 1] == s[i + 2]);
            }
        }
        lemma_insert_sorted(k, o, r, s1);
        lemma_record_le_total(k, o, r, s[0]);
        let rest = insert_sorted(k, o, r, s1);
        // The head of `rest` is `r` or the old head of `s1`; either way
        // `s[0]` precedes it.
        assert(rest.len() > 0);
        assert(rest[0] == r || (s1.len() > 0 && rest[0] == s1[0]));
        assert(s1.len() > 0 ==> record_le(k, o, s[0], s1[0])) by {
            if s1.len() > 0 {
                assert(s1[0] == s[1]);
            }
        }
        let t = seq![s[0]] + rest;
        assert forall|i: int| 0 <= i < t.len() - 1 implies record_le(k, o, #[trigger] t[i], t[i + 1]) by {
            if i == 0 {
                assert(t[1] == rest[0]);
            } else {
                assert(t[i] == rest[i - 1]);
                assert(t[i + 1] == rest[i]);
            }
        }
    }
}

/// The sort yields a sorted sequence of the same length.
pub proof fn lemma_sort_recs_sorted(k: SortBy, o: SortOrder, s: Seq<ProcessRecord>)
    ensures
        sorted_by(k, o, sort_recs(k, o, s)),
        sort_recs(k, o, s).len() == s.len(),
    decreases s.len(),
{
    if s.len() > 0 {
        lemma_sort_recs_sorted(k, o, s.skip(1));
        lemma_insert_sorted(k, o, s[0], sort_recs(k, o, s.skip(1)));
    }
}

/// Inserting a record adds exactly that record to the sequence's
/// contents.
pub proof fn lemma_insert_sorted_multiset(
    k: SortBy,
    o: SortOrder,
    r: ProcessRecord,
    s: Seq<ProcessRecord>,
)
    ensures
        insert_sorted(k, o, r, s).to_multiset() == s.to_multiset().insert(r),
    decreases s.len(),
{
    broadcast use vstd::seq_lib::group_to_multiset_ensures;

    if s.len() == 0 {
        assert(seq![r] =~= Seq::<ProcessRecord>::empty().push(r));
    } else if record_le(k, o, r, s[0]) {
        vstd::seq_lib::lemma_multiset_commutative(seq![r], s);
        assert(seq![r] =~= Seq::<ProcessRecord>::empty().push(r));
        assert((seq![r] + s).to_multiset() =~= s.to_multiset().insert(r));
    } else {
        let s1 = s.skip(1);
        lemma_insert_sorted_multiset(k, o, r, s1);
        vstd::seq_lib::lemma_multiset_commutative(seq![s[0]], insert_sorted(k, o, r, s1));
        assert(s =~= seq![s[0]] + s1);
        vstd::seq_lib::lemma_multiset_commutative(seq![s[0]], s1);
        assert(insert_sorted(k, o, r, s).to_multiset() =~= s.to_multiset().insert(r));
    }
}

/// The sort is a permutation: it neither drops, adds nor duplicates a
/// record.
pub proof fn lemma_sort_recs_multiset(k: SortBy, o: SortOrder, s: Seq<ProcessRecord>)
    ensures
        sort_recs(k, o, s).to_multiset() == s.to_multiset(),
    decreases s.len(),
{
    broadcast use vstd::seq_lib::group_to_multiset_ensures;

    if s.len() > 0 {
        let s1 = s.skip(1);
        lemma_sort_recs_multiset(k, o, s1);
        lemma_insert_sorted_multiset(k, o, s[0], sort_recs(k, o, s1));
        vstd::seq_lib::lemma_multiset_commutative(seq![s[0]], s1);
        assert(s =~= seq![s[0]] + s1);
        assert(sort_recs(k, o, s).to_multiset() =~= s.to_multiset());
    }
}

/// Inserting at the position the first `record_le` hit gives is exactly
/// `insert_sorted`.
proof fn lemma_insert_sorted_at(
    k: SortBy,
    o: SortOrder,
    r: ProcessRecord,
    s: Seq<ProcessRecord>,
    p: int,
)
    requires
        0 <= p <= s.len(),
        forall|j: int| 0 <= j < p ==> !record_le(k, o, r, s[j]),
        p < s.len() ==> record_le(k, o, r, s[p]),
    ensures
        insert_sorted(k, o, r, s) == s.insert(p, r),
    decreases s.len(),
{
    if s.len() == 0 {
        assert(insert_sorted(k, o, r, s) =~= s.insert(0, r));
    } else if record_le(k, o, r, s[0]) {
        assert(p == 0);
        assert(seq![r] + s =~= s.insert(0, r));
    } else {
        assert(p > 0);
        let s1 = s.skip(1);
        assert(forall|j: int| 0 <= j < p - 1 ==> !record_le(k, o, r, s1[j]));
        lemma_insert_sorted_at(k, o, r, s1, p - 1);
        assert(seq![s[0]] + s1.insert(p - 1, r) =~= s.insert(p, r));
    }
}

/// Inserts a record at the position a stable sort gives it.
fn insert_record(k: SortBy, o: SortOrder, r: ProcessRecord, out: &mut Vec<ProcessRecord>)
    requires
        old(out)@.len() < usize::MAX,
    ensures
        final(out)@ == insert_sorted(k, o, r, old(out)@),
{
    let n = out.len();
    let mut p: usize = 0;
    let mut found = false;
    while !found && p < n
        invariant
            p <= n,
            n == out@.len(),
            out@ == old(out)@,
            forall|j: int| 0 <= j < p ==> !record_le(k, o, r, out@[j]),
            found ==> p < n && record_le(k, o, r, out@[p as int]),
        decreases n - p + (if found { 0int } else { 1int }),
    {
        if record_le_exec(k, o, &r, &out[p]) {
            found = true;
        } else {
            p += 1;
        }
    }
    proof {
        lemma_insert_sorted_at(k, o, r, out@, p as int);
    }
    out.insert(p, r);
}

/// Sorts the records stably under `(k, o)`.
pub fn sort_records(k: SortBy, o: SortOrder, recs: &Vec<ProcessRecord>) -> (out: Vec<ProcessRecord>)
    ensures
        out@ == sort_recs(k, o, recs@),
{
    let n = recs.len();
    let mut out: Vec<ProcessRecord> = Vec::new();
    proof {
        assert(recs@.skip(n as int) =~= Seq::<ProcessRecord>::empty());
    }
    let mut i: usize = n;
    while i > 0
        invariant
            i <= n,
            n == recs@.len(),
            out@ == sort_recs(k, o, recs@.skip(i as int)),
            out@.len() <= n - i,
        decreases i,
    {
        proof {
            lemma_sort_recs_sorted(k, o, recs@.skip(i as int));
            lemma_insert_sorted(k, o, recs@[i - 1], out@);
        }
        i -= 1;
        insert_record(k, o, recs[i].clone(), &mut out);
        proof {
            assert(recs@.skip(i as int).skip(1) =~= recs@.skip(i as int + 1));
            assert(recs@.skip(i as int)[0] == recs@[i as int]);
        }
    }
    proof {
        assert(recs@.skip(0) =~= recs@);
    }
    out
}

/// The active filter as a character sequence; `None` lets everything pass.
pub open spec fn filter_view(f: Option<String>) -> Option<Seq<char>> {
    match f {
        Option::None => Option::None,
        Option::Some(s) => Option::Some(s@),
    }
}

/// A record passes the filter when its lower-cased command line contains
/// the lower-cased pattern.
pub open spec fn record_passes(r: ProcessRecord, f: Option<Seq<char>>) -> bool {
    match f {
        Option::None => true,
        Option::Some(p) => contains_seq(lower_of(r.command@), lower_of(p)),
    }
}

/// `record_passes` as a predicate over records.
pub open spec fn passes_pred(f: Option<Seq<char>>) -> spec_fn(ProcessRecord) -> bool {
    |r: ProcessRecord| record_passes(r, f)
}

/// The records that pass the filter, in snapshot order.
pub open spec fn filtered_recs(s: Seq<ProcessRecord>, f: Option<Seq<char>>) -> Seq<ProcessRecord> {
    s.filter(passes_pred(f))
}

/// Filtering distributes over appending one element at the back.
proof fn lemma_filter_push(s: Seq<ProcessRecord>, pred: spec_fn(ProcessRecord) -> bool, x: ProcessRecord)
    ensures
        s.push(x).filter(pred) == if pred(x) {
            s.filter(pred).push(x)
        } else {
            s.filter(pred)
        },
{
    reveal(Seq::filter);
    assert(s.push(x).drop_last() =~= s);
    assert(s.push(x).last() == x);
}

/// The lowered pattern agrees with the filter.
spec fn lowered_matches(pat: Option<String>, f: Option<Seq<char>>) -> bool {
    match (pat, f) {
        (Option::None, Option::None) => true,
        (Option::Some(pl), Option::Some(fv)) => pl@ == lower_of(fv),
        _ => false,
    }
}

/// Keeps the records whose lower-cased command line contains the
/// lower-cased pattern, in snapshot order.
pub fn filter_records(recs: &Vec<ProcessRecord>, filter: &Option<String>) -> (out: Vec<ProcessRecord>)
    ensures
        out@ == filtered_recs(recs@, filter_view(*filter)),
{
    let ghost f = filter_view(*filter);
    let ghost pred = passes_pred(f);
    let pat: Option<String> = match filter {
        Option::None => Option::None,
        Option::Some(p) => Option::Some(lowercase(p.as_str())),
    };
    let mut out: Vec<ProcessRecord> = Vec::new();
    proof {
        reveal(Seq::filter);
        assert(recs@.subrange(0, 0) =~= Seq::<ProcessRecord>::empty());
    }
    let n = recs.len();
    for i in 0..n
        invariant
            n == recs@.len(),
            lowered_matches(pat, f),
            pred == passes_pred(f),
            out@ == recs@.subrange(0, i as int).filter(pred),
    {
        let r = &recs[i];
        let passes = match &pat {
            Option::None => true,
            Option::Some(pl) => {
                let cl = lowercase(r.command.as_str());
                contains_exec(cl.as_str(), pl.as_str())
            },
        };
        assert(passes == pred(recs@[i as int]));
        if passes {
            out.push(r.clone());
        }
        proof {
            lemma_filter_push(recs@.subrange(0, i as int), pred, recs@[i as int]);
            assert(recs@.subrange(0, i as int + 1) =~= recs@.subrange(0, i as int).push(
                recs@[i as int],
            ));
        }
    }
    proof {
        assert(recs@.subrange(0, n as int) =~= recs@);
    }
    out
}

/// The flat view: the records that pass the filter, stably sorted under
/// the active key and direction.
pub open spec fn flat_rows(
    s: Seq<ProcessRecord>,
    k: SortBy,
    o: SortOrder,
    f: Option<Seq<char>>,
) -> Seq<ProcessRecord> {
    sort_recs(k, o, filtered_recs(s, f))
}

/// Computes the flat view.
pub fn flat_view(recs: &Vec<ProcessRecord>, k: SortBy, o: SortOrder, filter: &Option<String>) -> (out: Vec<
    ProcessRecord,
>)
    ensures
        out@ == flat_rows(recs@, k, o, filter_view(*filter)),
{
    let kept = filter_records(recs, filter);
    sort_records(k, o, &kept)
}

} // verus!

