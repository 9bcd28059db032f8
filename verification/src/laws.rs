//! The laws the view engine, the selection controller and the state
//! machine obey, stated over the spec functions their contracts use.

use vstd::prelude::*;
use vstd::arithmetic::div_mod::{lemma_add_mod_noop_right, lemma_small_mod, lemma_mod_self_0};
use crate::record::ProcessRecord;
use crate::view::{
    SortBy, SortOrder, flat_rows, filtered_recs, sorted_by, lemma_sort_recs_sorted, sort_recs,
    lemma_sort_recs_multiset, record_passes,
};
use crate::state::{
    App, Event, Action, InputMode, wrap_next, wrap_prev, page_down_cursor, page_up_cursor, steps_to,
    sort_selected,
};
use crate::tree::{subtree_rows, forest_rows, children_of, roots_in, is_root_in, tree_rows, without_pid};

verus! {

/// The flat view holds exactly the records that pass the filter — the
/// same contents, so also the same length — and consecutive rows are
/// ordered by the active key and direction.
pub proof fn lemma_flat_view_shape(
    recs: Seq<ProcessRecord>,
    k: SortBy,
    o: SortOrder,
    f: Option<Seq<char>>,
)
    ensures
        flat_rows(recs, k, o, f).to_multiset() == filtered_recs(recs, f).to_multiset(),
        flat_rows(recs, k, o, f).len() == filtered_recs(recs, f).len(),
        sorted_by(k, o, flat_rows(recs, k, o, f)),
        forall|i: int|
            0 <= i < flat_rows(recs, k, o, f).len() ==> record_passes(
                #[trigger] flat_rows(recs, k, o, f)[i],
                f,
            ),
{
    broadcast use vstd::seq_lib::group_to_multiset_ensures;
    broadcast use vstd::seq_lib::group_filter_ensures;

    let kept = filtered_recs(recs, f);
    lemma_sort_recs_sorted(k, o, kept);
    lemma_sort_recs_multiset(k, o, kept);
    let rows = flat_rows(recs, k, o, f);
    assert forall|i: int| 0 <= i < rows.len() implies record_passes(#[trigger] rows[i], f) by {
        assert(rows.to_multiset().count(rows[i]) > 0);
        assert(kept.contains(rows[i]));
        let m = choose|m: int| 0 <= m < kept.len() && kept[m] == rows[i];
        assert(record_passes(kept[m], f));
    }
}

/// The cursor after `n` single steps down.
pub open spec fn iterate_next(c: Option<usize>, len: nat, n: nat) -> Option<usize>
    decreases n,
{
    if n == 0 {
        c
    } else {
        iterate_next(wrap_next(c, len), len, (n - 1) as nat)
    }
}

/// After `n` steps from row `i`, the cursor stands on `(i + n) % len`.
proof fn lemma_iterate_next_mod(i: usize, len: nat, n: nat)
    requires
        0 < len <= usize::MAX,
        i < len,
    ensures
        iterate_next(Option::Some(i), len, n) == Option::Some((((i + n) % (len as int)) as usize)),
    decreases n,
{
    if n == 0 {
        lemma_small_mod(i as nat, len);
    } else {
        let j: usize = if i + 1 >= len {
            0usize
        } else {
            (i + 1) as usize
        };
        assert(wrap_next(Option::Some(i), len) == Option::Some(j));
        assert(j == (i + 1) % (len as int)) by {
            if i + 1 >= len {
                lemma_mod_self_0(len as int);
            } else {
                lemma_small_mod((i + 1) as nat, len);
            }
        }
        lemma_iterate_next_mod(j, len, (n - 1) as nat);
        lemma_add_mod_noop_right(n - 1, i + 1, len as int);
    }
}

/// Stepping down as many times as the view is long returns the cursor to
/// where it started.
pub proof fn lemma_move_next_wraps(i: usize, len: nat)
    requires
        0 < len <= usize::MAX,
        i < len,
    ensures
        iterate_next(Option::Some(i), len, len) == Option::Some(i),
{
    lemma_iterate_next_mod(i, len, len);
    lemma_add_mod_noop_right(i as int, len as int, len as int);
    lemma_mod_self_0(len as int);
    lemma_small_mod(i as nat, len);
}

/// Whenever the view is non-empty, a single step in either direction
/// from a valid position lands on a valid row.
pub proof fn lemma_wrap_in_range(c: Option<usize>, len: nat)
    requires
        len > 0,
        c matches Some(i) ==> i < len,
    ensures
        wrap_next(c, len) matches Some(i) && i < len,
        wrap_prev(c, len) matches Some(i) && i < len,
{
}

/// Paging down never leaves the view: the cursor lands strictly below
/// the length.
pub proof fn lemma_page_down_in_range(c: Option<usize>, len: nat, page: nat)
    requires
        len > 0,
    ensures
        page_down_cursor(c, len, page) matches Some(i) && i < len,
{
}

/// Paging up never leaves the view upward: the cursor lands on a valid
/// row whenever it started on one.
pub proof fn lemma_page_up_in_range(c: Option<usize>, len: nat, page: nat)
    requires
        len > 0,
        c matches Some(i) ==> i < len,
    ensures
        page_up_cursor(c, len, page) matches Some(i) && i < len,
{
}

/// Selecting a sort key always returns the cursor to the top; selecting
/// the key already active flips the direction and keeps the key.
pub proof fn lemma_sort_select_resets(pre: App, k: SortBy)
    ensures
        sort_selected(pre, k).cursor == Option::Some(0usize),
        pre.sort_by == k ==> sort_selected(pre, k).sort_by == k && sort_selected(pre, k).sort_order
            != pre.sort_order,
        pre.sort_by != k ==> sort_selected(pre, k).sort_by == k && sort_selected(pre, k).sort_order
            == SortOrder::Desc,
{
}

/// Toggling the view mode always returns the cursor to the top.
pub proof fn lemma_toggle_tree_resets(pre: App, page: nat, post: App, act: Action)
    requires
        pre.input_mode == InputMode::Normal,
        steps_to(pre, Event::ToggleTree, page, post, act),
    ensures
        post.cursor == Option::Some(0usize),
        post.tree_view == !pre.tree_view,
{
}

/// The kill menu can only be entered from normal mode by the open event,
/// only while some process is selected, and it always opens on the
/// catalog's first entry.
pub proof fn lemma_kill_menu_entry(pre: App, ev: Event, page: nat, post: App, act: Action)
    requires
        steps_to(pre, ev, page, post, act),
        pre.input_mode != InputMode::KillMenu,
        post.input_mode == InputMode::KillMenu,
    ensures
        pre.input_mode == InputMode::Normal,
        ev == Event::OpenKillMenu,
        pre.selected_pid_spec() is Some,
        post.sig_index == 0,
{
}

/// Row `j` is the parent row of row `i`: one level shallower, carrying
/// the pid the child declares, with no row between them rising back to
/// the parent's level — so the child sits inside its parent's subtree
/// and before any later subtree at the parent's depth.
pub open spec fn parent_link(rows: Seq<(nat, ProcessRecord)>, i: int, j: int) -> bool {
    0 <= j < i && rows[j].0 + 1 == rows[i].0 && rows[i].1.ppid == rows[j].1.pid && (forall|k: int|
        j < k < i ==> (#[trigger] rows[k]).0 > rows[j].0)
}

/// Every row deeper than `d` has a parent row within the sequence.
pub open spec fn preorder_linked(rows: Seq<(nat, ProcessRecord)>, d: nat) -> bool {
    forall|i: int|
        0 <= i < rows.len() && (#[trigger] rows[i]).0 > d ==> exists|j: int| parent_link(rows, i, j)
}

proof fn lemma_subtree_shape(s: Seq<ProcessRecord>, p: ProcessRecord, d: nat)
    ensures
        subtree_rows(s, p, d).len() >= 1,
        subtree_rows(s, p, d)[0] == ((d, p)),
        forall|i: int|
            1 <= i < subtree_rows(s, p, d).len() ==> (#[trigger] subtree_rows(s, p, d)[i]).0 > d,
        preorder_linked(subtree_rows(s, p, d), d),
    decreases s.len(), 0nat, 0nat,
{
    broadcast use vstd::seq_lib::group_filter_ensures;

    let rest = without_pid(s, p.pid);
    let rows = subtree_rows(s, p, d);
    if rest.len() < s.len() {
        let kids = children_of(rest, p.pid);
        lemma_forest_shape(rest, kids, d + 1);
        let sub = forest_rows(rest, kids, d + 1);
        assert(rows == seq![((d), p)] + sub);
        assert forall|i: int| 1 <= i < rows.len() implies (#[trigger] rows[i]).0 > d by {
            assert(rows[i] == sub[i - 1]);
        }
        assert forall|i: int| 0 <= i < rows.len() && (#[trigger] rows[i]).0 > d implies exists|j: int|
            parent_link(rows, i, j) by {
            assert(i >= 1);
            let i1 = i - 1;
            assert(rows[i] == sub[i1]);
            if sub[i1].0 == d + 1 {
                // A row one level below the subtree root is one of the
                // children, so its declared parent is `p` itself.
                assert(kids.contains(sub[i1].1));
                let m = choose|m: int| 0 <= m < kids.len() && kids[m] == sub[i1].1;
                assert(p.pid != 0 && kids == rest.filter(|r: ProcessRecord| r.ppid == p.pid)) by {
                    if p.pid == 0 {
                        assert(kids.len() == 0);
                    }
                }
                assert(sub[i1].1.ppid == p.pid);
                assert(parent_link(rows, i, 0)) by {
                    assert(rows[0] == ((d), p));
                    assert forall|k: int| 0 < k < i implies (#[trigger] rows[k]).0 > rows[0].0 by {
                        assert(rows[k] == sub[k - 1]);
                    }
                }
            } else {
                // Deeper rows inherit their link from the child forest.
                assert(sub[i1].0 > d + 1);
                let j1 = choose|j1: int| parent_link(sub, i1, j1);
                assert(parent_link(rows, i, j1 + 1)) by {
                    assert(rows[j1 + 1] == sub[j1]);
                    assert forall|k: int| j1 + 1 < k < i implies (#[trigger] rows[k]).0 > rows[j1
                        + 1].0 by {
                        assert(rows[k] == sub[k - 1]);
                        assert(sub[k - 1].0 > sub[j1].0);
                    }
                }
            }
        }
    } else {
        assert(rows == seq![((d), p)]);
    }
}

proof fn lemma_forest_shape(s: Seq<ProcessRecord>, nodes: Seq<ProcessRecord>, d: nat)
    ensures
        forall|i: int|
            0 <= i < forest_rows(s, nodes, d).len() ==> (#[trigger] forest_rows(s, nodes, d)[i]).0
                >= d,
        forall|i: int|
            0 <= i < forest_rows(s, nodes, d).len() && (#[trigger] forest_rows(s, nodes, d)[i]).0
                == d ==> nodes.contains(forest_rows(s, nodes, d)[i].1),
        preorder_linked(forest_rows(s, nodes, d), d),
    decreases s.len(), 1nat, nodes.len(),
{
    if nodes.len() == 0 {
    } else {
        lemma_subtree_shape(s, nodes[0], d);
        lemma_forest_shape(s, nodes.skip(1), d);
        let a = subtree_rows(s, nodes[0], d);
        let b = forest_rows(s, nodes.skip(1), d);
        let rows = forest_rows(s, nodes, d);
        assert(rows == a + b);
        assert forall|i: int| 0 <= i < rows.len() implies (#[trigger] rows[i]).0 >= d by {
            if i < a.len() {
                assert(rows[i] == a[i]);
            } else {
                assert(rows[i] == b[i - a.len()]);
            }
        }
        assert forall|i: int| 0 <= i < rows.len() && (#[trigger] rows[i]).0 == d implies
            nodes.contains(rows[i].1) by {
            if i < a.len() {
                assert(rows[i] == a[i]);
                assert(i == 0);
                assert(nodes[0] == rows[i].1);
            } else {
                assert(rows[i] == b[i - a.len()]);
                assert(nodes.skip(1).contains(rows[i].1));
                let m = choose|m: int| 0 <= m < nodes.skip(1).len() && nodes.skip(1)[m] == rows[i].1;
                assert(nodes[m + 1] == rows[i].1);
            }
        }
        assert forall|i: int| 0 <= i < rows.len() && (#[trigger] rows[i]).0 > d implies exists|j: int|
            parent_link(rows, i, j) by {
            if i < a.len() {
                assert(rows[i] == a[i]);
                let j = choose|j: int| parent_link(a, i, j);
                assert(parent_link(rows, i, j)) by {
                    assert(rows[j] == a[j]);
                    assert forall|k: int| j < k < i implies (#[trigger] rows[k]).0 > rows[j].0 by {
                        assert(rows[k] == a[k]);
                    }
                }
            } else {
                let i1 = i - a.len();
                assert(rows[i] == b[i1]);
                let j1 = choose|j1: int| parent_link(b, i1, j1);
                assert(parent_link(rows, i, j1 + a.len())) by {
                    assert(rows[j1 + a.len()] == b[j1]);
                    assert forall|k: int| j1 + a.len() < k < i implies (#[trigger] rows[k]).0 > rows[j1
                        + a.len()].0 by {
                        assert(rows[k] == b[k - a.len()]);
                        assert(b[k - a.len()].0 > b[j1].0);
                    }
                }
            }
        }
    }
}

/// Two sequences with the same contents hold the same pids.
proof fn lemma_has_pid_permutation(a: Seq<ProcessRecord>, b: Seq<ProcessRecord>, x: u32)
    requires
        a.to_multiset() == b.to_multiset(),
    ensures
        crate::tree::has_pid(a, x) == crate::tree::has_pid(b, x),
{
    broadcast use vstd::seq_lib::group_to_multiset_ensures;

    if crate::tree::has_pid(a, x) {
        let i = choose|i: int| 0 <= i < a.len() && a[i].pid == x;
        assert(a.contains(a[i]));
        assert(a.to_multiset().count(a[i]) > 0);
        assert(b.to_multiset().count(a[i]) > 0);
        assert(b.contains(a[i]));
        let j = choose|j: int| 0 <= j < b.len() && b[j] == a[i];
        assert(crate::tree::has_pid(b, x));
    }
    if crate::tree::has_pid(b, x) {
        let i = choose|i: int| 0 <= i < b.len() && b[i].pid == x;
        assert(b.contains(b[i]));
        assert(b.to_multiset().count(b[i]) > 0);
        assert(a.to_multiset().count(b[i]) > 0);
        assert(a.contains(b[i]));
        let j = choose|j: int| 0 <= j < a.len() && a[j] == b[i];
        assert(crate::tree::has_pid(a, x));
    }
}

/// The tree view is a valid pre-order traversal: every row below the
/// surface has its parent row earlier in the sequence, one level up,
/// with no intervening row at or above the parent's level; and every
/// surface row is a root of the snapshot — its declared parent is 0 or
/// absent, so a record whose parent exited appears as a further root.
pub proof fn lemma_tree_preorder(recs: Seq<ProcessRecord>)
    ensures
        preorder_linked(tree_rows(recs), 0),
        forall|i: int|
            0 <= i < tree_rows(recs).len() && (#[trigger] tree_rows(recs)[i]).0 == 0
                ==> is_root_in(recs, tree_rows(recs)[i].1),
{
    broadcast use vstd::seq_lib::group_filter_ensures;

    let s = sort_recs(SortBy::PID, SortOrder::Asc, recs);
    lemma_sort_recs_multiset(SortBy::PID, SortOrder::Asc, recs);
    lemma_forest_shape(s, roots_in(s), 0);
    let rows = tree_rows(recs);
    assert forall|i: int| 0 <= i < rows.len() && (#[trigger] rows[i]).0 == 0 implies is_root_in(
        recs,
        rows[i].1,
    ) by {
        assert(roots_in(s).contains(rows[i].1));
        let m = choose|m: int| 0 <= m < roots_in(s).len() && roots_in(s)[m] == rows[i].1;
        assert(roots_in(s) == s.filter(|r: ProcessRecord| is_root_in(s, r)));
        assert(is_root_in(s, rows[i].1));
        lemma_has_pid_permutation(s, recs, rows[i].1.ppid);
    }
}

} // verus!
