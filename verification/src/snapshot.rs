//! One completed sampling pass.
use std::collections::HashMap;
use vstd::prelude::*;
use vstd::std_specs::hash::*;
use crate::counters::{IoCounters, Memory, ThreadInfo};
use crate::Pid;

verus! {

broadcast use group_hash_axioms;

/// What one sampling pass measured of the system and of the process as a
/// whole.
#[derive(Debug, Clone, Copy, PartialEq, Eq, Structural)]
pub struct Sample {
    /// Wall-clock time of the pass, in milliseconds since the Unix epoch.
    pub timestamp: u64,
    /// Reading of a monotonic clock at the pass, in milliseconds.
    pub instant: u64,
    /// System uptime in hundredths of a second.
    pub uptime: u64,
    /// Idle time of the system in hundredths of a second, summed over its
    /// CPUs.
    pub idle_time: u64,
    /// CPU time of the process.
    pub process: ThreadInfo,
    /// Memory use of the process.
    pub memory: Memory,
    /// I/O of the process.
    pub io: IoCounters,
}

/// One sampling pass: what it measured of the process, and the CPU time of
/// each thread that was tracked.
#[derive(Debug)]
pub struct Snapshot {
    /// The measures of the system and of the process.
    pub sample: Sample,
    /// The CPU time of each tracked thread, by thread id.
    pub threads: HashMap<Pid, ThreadInfo>,
}

/// The mathematical value of a snapshot.
pub struct SnapshotView {
    pub sample: Sample,
    pub threads: Map<Pid, ThreadInfo>,
}

impl View for Snapshot {
    type V = SnapshotView;

    open spec fn view(&self) -> SnapshotView {
        SnapshotView { sample: self.sample, threads: self.threads@ }
    }
}

impl Sample {
    /// The measures of a pass at the given times that has read nothing yet:
    /// every counter is zero.
    pub open spec fn blank(timestamp: u64, instant: u64) -> Sample {
        Sample {
            timestamp,
            instant,
            uptime: 0,
            idle_time: 0,
            process: ThreadInfo::zero(),
            memory: Memory::zero(),
            io: IoCounters::zero(),
        }
    }

    /// The measures of a pass at the given times that has read nothing yet.
    pub fn new(timestamp: u64, instant: u64) -> (r: Sample)
        ensures
            r == Sample::blank(timestamp, instant),
    {
        Sample {
            timestamp,
            instant,
            uptime: 0,
            idle_time: 0,
            process: ThreadInfo::new(),
            memory: Memory::new(),
            io: IoCounters::new(),
        }
    }
}

impl Snapshot {
    /// A snapshot at the given times with every counter at zero, for the
    /// threads that `threads` names.
    pub fn new(threads: &HashMap<Pid, String>, timestamp: u64, instant: u64) -> (r: Snapshot)
        ensures
            r@.sample == Sample::blank(timestamp, instant),
            r@.threads.dom() == threads@.dom(),
            forall|tid: Pid| #[trigger]
                r@.threads.contains_key(tid) ==> r@.threads[tid] == ThreadInfo::zero(),
    {
        let mut map: HashMap<Pid, ThreadInfo> = HashMap::new();
        for tid in it: threads.keys()
            invariant
                it.seq().unref().to_set() == threads@.dom(),
                forall|j: int| 0 <= j < it.index() ==> map@.contains_key(*#[trigger] it.seq()[j]),
                forall|k: Pid| #[trigger] map@.contains_key(k) ==> threads@.contains_key(k),
                forall|k: Pid| #[trigger] map@.contains_key(k) ==> map@[k] == ThreadInfo::zero(),
        {
            proof {
                assert(it.seq().unref()[it.index()] == *tid);
                assert(it.seq().unref().to_set().contains(*tid));
            }
            map.insert(*tid, ThreadInfo::new());
        }
        assert forall|k: Pid| threads@.contains_key(k) implies map@.contains_key(k) by {
            assert(threads@.dom().contains(k));
        }
        assert(map@.dom() =~= threads@.dom());
        Snapshot { sample: Sample::new(timestamp, instant), threads: map }
    }
}

} // verus!
