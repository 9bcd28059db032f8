//! The process snapshot data model: one immutable record per process,
//! a full vector of them per sampling instant.

use vstd::prelude::*;

verus! {

/// One process at sample time. CPU and memory usage are carried as
/// thousandths of a percent so that the core never touches floating
/// point; the shell converts on the way in and out.
pub struct ProcessRecord {
    /// OS-assigned id, unique within a snapshot.
    pub pid: u32,
    /// Parent id; 0 when the process has no parent.
    pub ppid: u32,
    /// Owner name, "?" when it could not be resolved.
    pub user: String,
    /// Single-letter status code.
    pub status: String,
    /// CPU usage, normalized by core count, in thousandths of a percent.
    pub cpu_millipct: u64,
    /// Memory usage in thousandths of a percent of total memory.
    pub mem_millipct: u64,
    /// Virtual memory size in bytes.
    pub virtual_mem: u64,
    /// Cumulative CPU time in seconds.
    pub cpu_time: u64,
    /// Full command line, or the executable name as a fallback.
    pub command: String,
}

impl Clone for ProcessRecord {
    fn clone(&self) -> (r: Self)
        ensures
            r == *self,
    {
        ProcessRecord {
            pid: self.pid,
            ppid: self.ppid,
            user: self.user.clone(),
            status: self.status.clone(),
            cpu_millipct: self.cpu_millipct,
            mem_millipct: self.mem_millipct,
            virtual_mem: self.virtual_mem,
            cpu_time: self.cpu_time,
            command: self.command.clone(),
        }
    }
}

/// Pids are unique within one snapshot.
pub open spec fn pids_unique(s: Seq<ProcessRecord>) -> bool {
    forall|i: int, j: int|
        0 <= i < s.len() && 0 <= j < s.len() && i != j ==> s[i].pid != s[j].pid
}

/// Checks that no two records share a pid.
pub fn has_unique_pids(recs: &Vec<ProcessRecord>) -> (b: bool)
    ensures
        b == pids_unique(recs@),
{
    let n = recs.len();
    for i in 0..n
        invariant
            n == recs@.len(),
            forall|a: int, b: int|
                0 <= a < i && 0 <= b < recs@.len() && a != b ==> recs@[a].pid != recs@[b].pid,
    {
        for j in 0..n
            invariant
                n == recs@.len(),
                i < n,
                forall|a: int, b: int|
                    0 <= a < i && 0 <= b < recs@.len() && a != b ==> recs@[a].pid != recs@[b].pid,
                forall|b: int| 0 <= b < j && b != i ==> recs@[i as int].pid != recs@[b].pid,
        {
            if j != i && recs[i].pid == recs[j].pid {
                return false;
            }
        }
    }
    true
}

} // verus!
