use procview::record::ProcessRecord;
use procview::view::{flat_view, filter_records, sort_records, SortBy, SortOrder};
use procview::tree::tree_view;

fn rec(pid: u32, ppid: u32, user: &str, cpu: u64, mem: u64, time: u64, command: &str) -> ProcessRecord {
    ProcessRecord {
        pid,
        ppid,
        user: user.to_string(),
        status: "S".to_string(),
        cpu_millipct: cpu,
        mem_millipct: mem,
        virtual_mem: 1024 * 1024,
        cpu_time: time,
        command: command.to_string(),
    }
}

fn five_records() -> Vec<ProcessRecord> {
    vec![
        rec(5, 0, "root", 12_000, 1_000, 50, "init"),
        rec(2, 5, "alice", 3_000, 9_000, 10, "emacs"),
        rec(9, 5, "bob", 47_000, 2_500, 900, "cargo"),
        rec(1, 5, "carol", 500, 30_000, 5, "postgres"),
        rec(7, 5, "dave", 21_000, 15_000, 70, "firefox"),
    ]
}

#[test]
fn flat_view_sorts_by_cpu_descending() {
    let recs = five_records();
    let rows = flat_view(&recs, SortBy::CPU, SortOrder::Desc, &None);
    assert_eq!(rows.len(), 5);
    let pids: Vec<u32> = rows.iter().map(|r| r.pid).collect();
    assert_eq!(pids, vec![9, 7, 5, 2, 1]);
}

#[test]
fn flat_view_sorts_by_memory_ascending() {
    let recs = five_records();
    let rows = flat_view(&recs, SortBy::MEM, SortOrder::Asc, &None);
    let pids: Vec<u32> = rows.iter().map(|r| r.pid).collect();
    assert_eq!(pids, vec![5, 9, 2, 7, 1]);
}

#[test]
fn flat_view_sorts_by_pid_and_by_user() {
    let recs = five_records();
    let by_pid: Vec<u32> = flat_view(&recs, SortBy::PID, SortOrder::Asc, &None)
        .iter()
        .map(|r| r.pid)
        .collect();
    assert_eq!(by_pid, vec![1, 2, 5, 7, 9]);
    let by_user: Vec<String> = flat_view(&recs, SortBy::User, SortOrder::Asc, &None)
        .iter()
        .map(|r| r.user.clone())
        .collect();
    assert_eq!(by_user, vec!["alice", "bob", "carol", "dave", "root"]);
}

#[test]
fn flat_view_length_matches_filter_count() {
    let recs = five_records();
    let filter = Some("a".to_string());
    let kept = filter_records(&recs, &filter);
    let rows = flat_view(&recs, SortBy::Time, SortOrder::Desc, &filter);
    assert_eq!(rows.len(), kept.len());
    // "cargo" and "emacs" contain an 'a'.
    assert_eq!(rows.len(), 2);
}

#[test]
fn filter_keeps_both_chromium_variants() {
    let recs = vec![
        rec(1, 0, "a", 1, 1, 1, "chrome --type=renderer"),
        rec(2, 0, "b", 2, 2, 2, "chromium-browser"),
        rec(3, 0, "c", 3, 3, 3, "bash"),
    ];
    // "chrom" is a substring of both browser command lines but not of
    // "bash"; "chrome" is a substring of the first alone.
    let rows = flat_view(&recs, SortBy::PID, SortOrder::Asc, &Some("chrom".to_string()));
    let pids: Vec<u32> = rows.iter().map(|r| r.pid).collect();
    assert_eq!(pids, vec![1, 2]);
    let rows = flat_view(&recs, SortBy::PID, SortOrder::Asc, &Some("chrome".to_string()));
    let pids: Vec<u32> = rows.iter().map(|r| r.pid).collect();
    assert_eq!(pids, vec![1]);
}

#[test]
fn filter_is_case_insensitive_both_ways() {
    let recs = vec![
        rec(1, 0, "a", 1, 1, 1, "CHROME --type=renderer"),
        rec(2, 0, "b", 2, 2, 2, "chromium-browser"),
        rec(3, 0, "c", 3, 3, 3, "bash"),
    ];
    let rows = flat_view(&recs, SortBy::PID, SortOrder::Asc, &Some("ChRoM".to_string()));
    let pids: Vec<u32> = rows.iter().map(|r| r.pid).collect();
    assert_eq!(pids, vec![1, 2]);
}

#[test]
fn tree_ignores_filter_and_shows_everything() {
    let recs = vec![
        rec(1, 0, "a", 1, 1, 1, "chrome --type=renderer"),
        rec(2, 0, "b", 2, 2, 2, "chromium-browser"),
        rec(3, 0, "c", 3, 3, 3, "bash"),
    ];
    // The tree pays no attention to any filter: all three appear.
    let rows = tree_view(&recs);
    assert_eq!(rows.len(), 3);
    let pids: Vec<u32> = rows.iter().map(|r| r.1.pid).collect();
    assert_eq!(pids, vec![1, 2, 3]);
}

#[test]
fn tree_preorder_with_chain_and_orphan() {
    let recs = vec![
        rec(40, 999, "d", 4, 4, 4, "orphan"),
        rec(30, 20, "c", 3, 3, 3, "grandchild"),
        rec(10, 0, "a", 1, 1, 1, "root"),
        rec(20, 10, "b", 2, 2, 2, "child"),
    ];
    let rows = tree_view(&recs);
    let shape: Vec<(usize, u32)> = rows.iter().map(|r| (r.0, r.1.pid)).collect();
    // Pre-order: the root chain first with true depths, then the orphan
    // (whose declared parent 999 is absent) as a further root.
    assert_eq!(shape, vec![(0, 10), (1, 20), (2, 30), (0, 40)]);
}

#[test]
fn tree_orders_roots_and_children_by_pid() {
    let recs = vec![
        rec(8, 0, "a", 1, 1, 1, "b-root"),
        rec(3, 0, "a", 1, 1, 1, "a-root"),
        rec(9, 3, "a", 1, 1, 1, "second-child"),
        rec(4, 3, "a", 1, 1, 1, "first-child"),
    ];
    let rows = tree_view(&recs);
    let shape: Vec<(usize, u32)> = rows.iter().map(|r| (r.0, r.1.pid)).collect();
    assert_eq!(shape, vec![(0, 3), (1, 4), (1, 9), (0, 8)]);
}

#[test]
fn sort_is_stable_on_ties() {
    let recs = vec![
        rec(4, 0, "a", 7, 1, 1, "first"),
        rec(6, 0, "a", 7, 2, 2, "second"),
        rec(2, 0, "a", 7, 3, 3, "third"),
    ];
    // All CPU values tie: the snapshot order must survive the sort.
    let rows = sort_records(SortBy::CPU, SortOrder::Asc, &recs);
    let pids: Vec<u32> = rows.iter().map(|r| r.pid).collect();
    assert_eq!(pids, vec![4, 6, 2]);
}

#[test]
fn empty_snapshot_yields_empty_views() {
    let recs: Vec<ProcessRecord> = Vec::new();
    assert_eq!(flat_view(&recs, SortBy::CPU, SortOrder::Desc, &None).len(), 0);
    assert_eq!(tree_view(&recs).len(), 0);
}
