//! The meter: the registry of tracked threads and the bounded history of
//! snapshots.
use std::collections::HashMap;
use std::collections::VecDeque;
use std::time::Duration;
use vstd::prelude::*;
use vstd::std_specs::hash::*;
use vstd::std_specs::vecdeque::*;
use vstd::string::*;
use crate::counters::{IoCounters, Memory, ThreadInfo};
use crate::error::Error;
use crate::report::{names_of, report_of, thread_entries, Report, ThreadEntry, ThreadReportIter};
use crate::scan::{Scan, ScanView, Stage};
use crate::snapshot::{Sample, Snapshot, SnapshotView};
use crate::Pid;

verus! {

broadcast use {group_hash_axioms, group_vec_dequeue_axioms};

/// The number of snapshots that a meter retains.
pub const HISTORY_CAPACITY: usize = 10;

/// Measures the resource use of the process between the sampling passes
/// that its owner runs.
#[derive(Debug)]
pub struct Meter {
    scan_interval: Duration,
    num_cpus: u32,
    num_snapshots: usize,
    start_time: u64,
    snapshots: VecDeque<Snapshot>,
    thread_names: HashMap<Pid, String>,
    memory_rss_peak: u64,
    memory_swap_peak: u64,
}

/// The mathematical value of a meter.
pub struct MeterView {
    /// The interval between two passes that the owner announced.
    pub scan_interval: Duration,
    /// The number of CPUs of the system.
    pub cpus: nat,
    /// The largest number of snapshots that are retained.
    pub capacity: nat,
    /// When the meter was made, in milliseconds since the Unix epoch.
    pub start_time: u64,
    /// The retained snapshots, oldest first.
    pub history: Seq<SnapshotView>,
    /// The tracked threads: the name of each, by thread id.
    pub threads: Map<Pid, Seq<char>>,
    /// The largest resident set size that any committed pass has seen.
    pub rss_peak: u64,
    /// The largest swap size that any committed pass has seen.
    pub swap_peak: u64,
}

impl MeterView {
    /// Validity of a meter: the history is within its capacity, the number
    /// of CPUs is positive and fits in 32 bits, no snapshot holds a thread
    /// that is not tracked, and no retained snapshot exceeds a peak.
    pub open spec fn wf(self) -> bool {
        &&& self.capacity >= 1
        &&& self.history.len() <= self.capacity
        &&& 1 <= self.cpus <= u32::MAX
        &&& forall|i: int, tid: Pid|
            0 <= i < self.history.len() && #[trigger] self.history[i].threads.contains_key(tid)
                ==> self.threads.contains_key(tid)
        &&& forall|i: int|
            0 <= i < self.history.len() ==> (#[trigger] self.history[i]).sample.memory.rss
                <= self.rss_peak
        &&& forall|i: int|
            0 <= i < self.history.len() ==> (#[trigger] self.history[i]).sample.memory.swap
                <= self.swap_peak
    }

    /// The memory counters that a new pass starts from: those of the oldest
    /// snapshot where the history is full, zero otherwise.
    pub open spec fn base_memory(self) -> Memory {
        if self.history.len() >= self.capacity {
            self.history[0].sample.memory
        } else {
            Memory::zero()
        }
    }

    /// The I/O counters that a new pass starts from: those of the oldest
    /// snapshot where the history is full, zero otherwise.
    pub open spec fn base_io(self) -> IoCounters {
        if self.history.len() >= self.capacity {
            self.history[0].sample.io
        } else {
            IoCounters::zero()
        }
    }

    /// The pass that starts at the given times and reads the threads `ids`:
    /// it wants the uptime source, and every thread counter is zero.
    pub open spec fn pass(self, timestamp: u64, instant: u64, ids: Seq<Pid>) -> ScanView {
        ScanView {
            stage: Stage::Uptime,
            sample: Sample {
                memory: self.base_memory(),
                io: self.base_io(),
                ..Sample::blank(timestamp, instant)
            },
            threads: Map::new(|tid: Pid| ids.contains(tid), |tid: Pid| ThreadInfo::zero()),
            ids,
            next: 0,
        }
    }

    /// The snapshot that a pass leaves in a meter: what the pass measured,
    /// with the threads that the meter still tracks.
    pub open spec fn snapshot_of(self, scan: ScanView) -> SnapshotView {
        SnapshotView { sample: scan.sample, threads: scan.threads.restrict(self.threads.dom()) }
    }

    /// The history that makes room for one more snapshot: without its oldest
    /// snapshot where it is full.
    pub open spec fn room(self) -> Seq<SnapshotView> {
        if self.history.len() >= self.capacity {
            self.history.skip(1)
        } else {
            self.history
        }
    }

    /// The meter after it took in a completed pass: the snapshot of the pass
    /// is the newest of the history, the oldest one has left where the
    /// history was full, and the peaks have risen to what the pass saw.
    pub open spec fn committed(self, scan: ScanView) -> MeterView {
        MeterView {
            history: self.room().push(self.snapshot_of(scan)),
            rss_peak: if scan.sample.memory.rss > self.rss_peak {
                scan.sample.memory.rss
            } else {
                self.rss_peak
            },
            swap_peak: if scan.sample.memory.swap > self.swap_peak {
                scan.sample.memory.swap
            } else {
                self.swap_peak
            },
            ..self
        }
    }

    /// The newest snapshot.
    pub open spec fn last(self) -> SnapshotView
        recommends
            self.history.len() >= 1,
    {
        self.history[self.history.len() - 1]
    }

    /// The snapshot before the newest one.
    pub open spec fn prev(self) -> SnapshotView
        recommends
            self.history.len() >= 2,
    {
        self.history[self.history.len() - 2]
    }

    /// The uptime that passed between the two most recent snapshots, in
    /// hundredths of a second.
    pub open spec fn interval(self) -> int
        recommends
            self.history.len() >= 2,
    {
        self.last().sample.uptime - self.prev().sample.uptime
    }

    /// What the meter reports of the process: the report of the interval
    /// between its two most recent snapshots.
    pub open spec fn report(self) -> Report
        recommends
            self.history.len() >= 2,
    {
        report_of(
            self.last(),
            self.prev(),
            self.cpus,
            self.start_time,
            self.rss_peak,
            self.swap_peak,
        )
    }

    /// What the meter reports of its threads when it walks over them in the
    /// order `ids`: an entry for each tracked thread that both of the two
    /// most recent snapshots hold.
    pub open spec fn thread_report(self, ids: Seq<Pid>) -> Seq<ThreadEntry>
        recommends
            self.history.len() >= 2,
    {
        thread_entries(
            ids,
            self.threads,
            self.last().threads,
            self.prev().threads,
            self.interval(),
        )
    }

    /// A snapshot without the thread `tid`.
    pub open spec fn forget(s: SnapshotView, tid: Pid) -> SnapshotView {
        SnapshotView { threads: s.threads.remove(tid), ..s }
    }

    /// The meter after it stopped tracking `tid`: the thread has left the
    /// registry and every retained snapshot.
    pub open spec fn untracked(self, tid: Pid) -> MeterView {
        MeterView {
            threads: self.threads.remove(tid),
            history: Seq::new(self.history.len(), |i: int| Self::forget(self.history[i], tid)),
            ..self
        }
    }
}

impl View for Meter {
    type V = MeterView;

    closed spec fn view(&self) -> MeterView {
        MeterView {
            scan_interval: self.scan_interval,
            cpus: self.num_cpus as nat,
            capacity: self.num_snapshots as nat,
            start_time: self.start_time,
            history: Seq::new(self.snapshots@.len(), |i: int| self.snapshots@[i]@),
            threads: names_of(self.thread_names@),
            rss_peak: self.memory_rss_peak,
            swap_peak: self.memory_swap_peak,
        }
    }
}

/// Asks `num_cpus::get` for the number of logical CPUs that the process may
/// use. The count depends on the machine and on the limits set for the
/// process. The one thing claimed of it is what the documentation of
/// `num_cpus::get` promises: it is at least one.
#[verifier::external_body]
fn cpu_count() -> (n: usize)
    ensures
        n >= 1,
{
    num_cpus::get()
}

/// Lists the threads that `names` holds, each once, in the order in which the
/// map hands them out.
fn thread_ids(names: &HashMap<Pid, String>) -> (ids: Vec<Pid>)
    ensures
        ids@.no_duplicates(),
        ids@.to_set() == names@.dom(),
{
    let mut ids: Vec<Pid> = Vec::new();
    for tid in it: names.keys()
        invariant
            it.seq().unref().to_set() == names@.dom(),
            it.seq().no_duplicates(),
            ids@.len() == it.index(),
            forall|j: int| 0 <= j < it.index() ==> ids@[j] == *#[trigger] it.seq()[j],
            forall|j: int| 0 <= j < it.index() ==> ids@.contains(*#[trigger] it.seq()[j]),
            forall|k: Pid| #[trigger] ids@.contains(k) ==> names@.contains_key(k),
            ids@.no_duplicates(),
    {
        proof {
            assert(it.seq().unref()[it.index()] == *tid);
            assert(it.seq().unref().to_set().contains(*tid));
        }
        let ghost before = ids@;
        proof {
            assert forall|j: int| 0 <= j < before.len() implies before[j] != *tid by {
                assert(it.seq()[j] != it.seq()[it.index()]);
            }
        }
        ids.push(*tid);
        proof {
            assert forall|j: int| 0 <= j <= it.index() implies ids@.contains(
                *#[trigger] it.seq()[j],
            ) by {
                assert(ids@[j] == *it.seq()[j]);
            }
            assert forall|k: Pid| #[trigger] ids@.contains(k) implies names@.contains_key(k) by {
                let j = choose|j: int| 0 <= j < ids@.len() && ids@[j] == k;
                if j < before.len() {
                    assert(before[j] == k);
                    assert(before.contains(k));
                }
            }
        }
    }
    assert forall|k: Pid| names@.contains_key(k) implies ids@.contains(k) by {
        assert(names@.dom().contains(k));
    }
    assert(ids@.to_set() =~= names@.dom());
    ids
}

impl Meter {
    /// Validity of the meter, which every constructor establishes and every
    /// method keeps.
    pub open spec fn wf(&self) -> bool {
        self@.wf()
    }

    /// A meter for a system with `cpus` CPUs, with an empty history and no
    /// tracked thread. A count of zero or beyond 32 bits is refused.
    pub fn with_cpus(scan_interval: Duration, start_time: u64, cpus: usize) -> (r: Result<
        Meter,
        Error,
    >)
        ensures
            match r {
                Ok(m) => {
                    &&& 1 <= cpus <= u32::MAX
                    &&& m.wf()
                    &&& m@ == (MeterView {
                        scan_interval,
                        cpus: cpus as nat,
                        capacity: HISTORY_CAPACITY as nat,
                        start_time,
                        history: Seq::empty(),
                        threads: Map::empty(),
                        rss_peak: 0,
                        swap_peak: 0,
                    })
                },
                Err(e) => (cpus == 0 || cpus > u32::MAX) && e == Error::Cpu(cpus),
            },
    {
        if cpus == 0 || cpus > u32::MAX as usize {
            return Err(Error::Cpu(cpus));
        }
        let m = Meter {
            scan_interval,
            num_cpus: cpus as u32,
            num_snapshots: HISTORY_CAPACITY,
            start_time,
            snapshots: VecDeque::with_capacity(HISTORY_CAPACITY),
            thread_names: HashMap::new(),
            memory_rss_peak: 0,
            memory_swap_peak: 0,
        };
        assert(m@.history =~= Seq::empty());
        assert(m@.threads =~= Map::empty());
        Ok(m)
    }

    /// A meter for this system, made at `start_time` (milliseconds since the
    /// Unix epoch), with an empty history and no tracked thread. The number
    /// of CPUs is discovered; the meter is made when that number is
    /// positive and fits in 32 bits.
    pub fn new(scan_interval: Duration, start_time: u64) -> (r: Result<Meter, Error>)
        ensures
            match r {
                Ok(m) => {
                    &&& m.wf()
                    &&& m@.scan_interval == scan_interval
                    &&& m@.start_time == start_time
                    &&& m@.capacity == HISTORY_CAPACITY
                    &&& m@.history == Seq::<SnapshotView>::empty()
                    &&& m@.threads == Map::<Pid, Seq<char>>::empty()
                    &&& m@.rss_peak == 0
                    &&& m@.swap_peak == 0
                },
                Err(e) => e matches Error::Cpu(count) && count > u32::MAX,
            },
    {
        Meter::with_cpus(scan_interval, start_time, cpu_count())
    }

    /// Starts to track the thread `tid` under `name`, or renames it where it
    /// is tracked already.
    pub fn track_thread(&mut self, tid: Pid, name: &str)
        requires
            old(self).wf(),
        ensures
            final(self).wf(),
            final(self)@ == (MeterView {
                threads: old(self)@.threads.insert(tid, name@),
                ..old(self)@
            }),
    {
        self.thread_names.insert(tid, name.to_owned());
        assert(self@.threads =~= old(self)@.threads.insert(tid, name@));
        assert(self@.history =~= old(self)@.history);
    }

    /// Stops to track the thread `tid`: it leaves the registry and every
    /// retained snapshot.
    pub fn untrack_thread(&mut self, tid: Pid)
        requires
            old(self).wf(),
        ensures
            final(self).wf(),
            final(self)@ == old(self)@.untracked(tid),
    {
        self.thread_names.remove(&tid);
        let n = self.snapshots.len();
        let ghost before = self.snapshots@;
        let mut i: usize = 0;
        while i < n
            invariant
                i <= n,
                n == before.len(),
                self.snapshots@.len() == n,
                forall|j: int| 0 <= j < n - i ==> self.snapshots@[j] == before[i + j],
                forall|j: int|
                    n - i <= j < n ==> (#[trigger] self.snapshots@[j])@ == MeterView::forget(
                        before[j - (n - i)]@,
                        tid,
                    ),
                self.scan_interval == old(self).scan_interval,
                self.num_cpus == old(self).num_cpus,
                self.num_snapshots == old(self).num_snapshots,
                self.start_time == old(self).start_time,
                self.memory_rss_peak == old(self).memory_rss_peak,
                self.memory_swap_peak == old(self).memory_swap_peak,
                self.thread_names@ == old(self).thread_names@.remove(tid),
            decreases n - i,
        {
            let popped = self.snapshots.pop_front();
            let mut s = popped.unwrap();
            s.threads.remove(&tid);
            self.snapshots.push_back(s);
            i = i + 1;
        }
        assert(self@.threads =~= old(self)@.threads.remove(tid));
        assert(self@.history =~= old(self)@.untracked(tid).history);
    }

    /// Starts a sampling pass at the wall-clock time `timestamp`
    /// (milliseconds since the Unix epoch) and the monotonic clock reading
    /// `instant` (milliseconds). The pass reads the threads that are tracked
    /// now. The meter itself stays as it is until the pass is committed.
    pub fn scan(&self, timestamp: u64, instant: u64) -> (r: Scan)
        requires
            self.wf(),
        ensures
            r@.wf(),
            r@.ids.to_set() == self@.threads.dom(),
            r@ == self@.pass(timestamp, instant, r@.ids),
    {
        let mut snapshot = Snapshot::new(&self.thread_names, timestamp, instant);
        if self.snapshots.len() >= self.num_snapshots {
            let oldest = &self.snapshots[0];
            snapshot.sample.memory = oldest.sample.memory;
            snapshot.sample.io = oldest.sample.io;
        }
        let ids = thread_ids(&self.thread_names);
        proof {
            assert(self@.threads.dom() =~= self.thread_names@.dom());
            assert(snapshot@.threads =~= self@.pass(timestamp, instant, ids@).threads);
        }
        Scan::begin(snapshot, ids)
    }

    /// Takes in a pass. A pass that is complete leaves its snapshot as the
    /// newest of the history, and the peaks rise to what it saw. Any other
    /// pass is dropped and the meter stays as it is. Says whether the pass
    /// was complete.
    pub fn commit(&mut self, scan: Scan) -> (committed: bool)
        requires
            old(self).wf(),
            scan@.wf(),
        ensures
            final(self).wf(),
            committed == (scan@.stage is Complete),
            committed ==> final(self)@ == old(self)@.committed(scan@),
            !committed ==> final(self)@ == old(self)@,
    {
        if !scan.is_complete() {
            return false;
        }
        let (mut snapshot, ids) = scan.into_snapshot();
        let ghost filled = snapshot@.threads;
        let mut i: usize = 0;
        while i < ids.len()
            invariant
                i <= ids@.len(),
                snapshot@.sample == scan@.sample,
                filled.dom() == ids@.to_set(),
                forall|tid: Pid| #[trigger]
                    snapshot@.threads.contains_key(tid) <==> filled.contains_key(tid) && (
                    self.thread_names@.contains_key(tid) || !ids@.take(i as int).contains(tid)),
                forall|tid: Pid| #[trigger]
                    snapshot@.threads.contains_key(tid) ==> snapshot@.threads[tid] == filled[tid],
            decreases ids@.len() - i,
        {
            let tid = ids[i];
            let ghost earlier = snapshot@.threads;
            let known = self.thread_names.contains_key(&tid);
            if !known {
                snapshot.threads.remove(&tid);
            }
            proof {
                let shorter = ids@.take(i as int);
                let longer = ids@.take(i + 1);
                assert(longer =~= shorter.push(tid));
                assert(known == self.thread_names@.contains_key(tid));
                assert(snapshot@.threads == if known { earlier } else { earlier.remove(tid) });
                assert forall|t: Pid| #[trigger]
                    longer.contains(t) <==> shorter.contains(t) || t == tid by {
                    if shorter.contains(t) {
                        let j = choose|j: int| 0 <= j < shorter.len() && shorter[j] == t;
                        assert(longer[j] == t);
                    }
                    if t == tid {
                        assert(longer[i as int] == t);
                    }
                    if longer.contains(t) {
                        let j = choose|j: int| 0 <= j < longer.len() && longer[j] == t;
                        if j < i {
                            assert(shorter[j] == t);
                        }
                    }
                }
                assert forall|t: Pid| #[trigger]
                    snapshot@.threads.contains_key(t) <==> filled.contains_key(t) && (
                    self.thread_names@.contains_key(t) || !longer.contains(t)) by {
                    assert(earlier.contains_key(t) <==> filled.contains_key(t) && (
                    self.thread_names@.contains_key(t) || !shorter.contains(t)));
                    assert(longer.contains(t) <==> shorter.contains(t) || t == tid);
                }
            }
            i = i + 1;
        }
        proof {
            assert(ids@.take(ids@.len() as int) =~= ids@);
            assert(snapshot@.threads =~= filled.restrict(old(self)@.threads.dom())) by {
                assert forall|tid: Pid| snapshot@.threads.contains_key(tid) <==> filled.restrict(
                    old(self)@.threads.dom(),
                ).contains_key(tid) by {
                    if filled.contains_key(tid) {
                        assert(ids@.to_set().contains(tid));
                    }
                }
            }
        }
        if snapshot.sample.memory.rss > self.memory_rss_peak {
            self.memory_rss_peak = snapshot.sample.memory.rss;
        }
        if snapshot.sample.memory.swap > self.memory_swap_peak {
            self.memory_swap_peak = snapshot.sample.memory.swap;
        }
        if self.snapshots.len() >= self.num_snapshots {
            self.snapshots.pop_front();
        }
        self.snapshots.push_back(snapshot);
        proof {
            assert(self@.threads =~= old(self)@.threads);
            assert(self@.history =~= old(self)@.committed(scan@).history);
        }
        true
    }

    /// The report of the process between the two most recent snapshots.
    /// There is none before the history holds two snapshots.
    pub fn report(&self) -> (r: Option<Report>)
        requires
            self.wf(),
        ensures
            match r {
                Some(report) => self@.history.len() >= 2 && report == self@.report(),
                None => self@.history.len() < 2,
            },
    {
        let n = self.snapshots.len();
        if n < 2 {
            return None;
        }
        let last = &self.snapshots[n - 1];
        let prev = &self.snapshots[n - 2];
        Some(
            Report::compute(
                last,
                prev,
                self.num_cpus,
                self.start_time,
                self.memory_rss_peak,
                self.memory_swap_peak,
            ),
        )
    }

    /// The CPU usage of the tracked threads between the two most recent
    /// snapshots. There is none before the history holds two snapshots. The
    /// report walks over the threads that are tracked now, each once, and
    /// passes over a thread that one of the two snapshots does not hold.
    pub fn thread_report(&self) -> (r: Option<ThreadReportIter<'_>>)
        requires
            self.wf(),
        ensures
            match r {
                Some(it) => {
                    &&& self@.history.len() >= 2
                    &&& it.wf()
                    &&& it.ids().no_duplicates()
                    &&& it.ids().to_set() == self@.threads.dom()
                    &&& it.entries() == self@.thread_report(it.ids())
                },
                None => self@.history.len() < 2,
            },
    {
        let n = self.snapshots.len();
        if n < 2 {
            return None;
        }
        let last = &self.snapshots[n - 1];
        let prev = &self.snapshots[n - 2];
        let ids = thread_ids(&self.thread_names);
        proof {
            assert(self@.threads.dom() =~= self.thread_names@.dom());
        }
        Some(ThreadReportIter::new(ids, &self.thread_names, last, prev))
    }

    /// The interval between two passes that the owner announced when making
    /// the meter. The meter does not sample by itself.
    pub fn get_scan_interval(&self) -> (r: Duration)
        ensures
            r == self@.scan_interval,
    {
        self.scan_interval
    }

    /// The number of snapshots that the meter holds.
    pub fn snapshot_count(&self) -> (r: usize)
        ensures
            r == self@.history.len(),
    {
        self.snapshots.len()
    }

    /// The number of threads that the meter tracks.
    pub fn thread_count(&self) -> (r: usize)
        ensures
            r == self@.threads.dom().len(),
    {
        assert(self@.threads.dom() =~= self.thread_names@.dom());
        self.thread_names.len()
    }
}

} // verus!
