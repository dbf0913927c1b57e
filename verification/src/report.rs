//! The figures that a meter derives from its two most recent snapshots.
//!
//! Every derived figure is an exact fraction of two integers. A figure
//! stands for one hundred times its fraction: a CPU usage in percent, or,
//! where the numerator counts bytes or calls and the denominator hundredths
//! of a second, a rate per second. Where two snapshots are no further apart
//! than the resolution of the system's clock, the denominator is zero and
//! the figure has no value; nothing is put in its place.
use std::collections::HashMap;
use vstd::prelude::*;
use vstd::std_specs::hash::*;
use vstd::string::*;
use crate::counters::ThreadInfo;
use crate::snapshot::{Snapshot, SnapshotView};
use crate::Pid;

verus! {

broadcast use group_hash_axioms;

/// A fraction of two integers. As a figure of a report it stands for one
/// hundred times the fraction.
#[derive(Debug, Clone, Copy, PartialEq, Eq, Structural)]
pub struct Ratio {
    /// The numerator.
    pub num: i128,
    /// The denominator. Zero where the interval of the report is empty.
    pub den: i128,
}

impl Ratio {
    /// Whether the figure is not below zero, nor negative without bound.
    pub open spec fn non_negative(self) -> bool {
        if self.den >= 0 {
            self.num >= 0
        } else {
            self.num <= 0
        }
    }
}

/// CPU usage of a single thread.
#[derive(Debug, Clone, Copy, PartialEq, Eq, Structural)]
pub struct ThreadUsage {
    /// The thread's own CPU usage. 100% is a single core.
    pub cpu_usage: Ratio,
    /// The thread's CPU usage with the children it waited for. 100% is a
    /// single core.
    pub cpu_usage_with_children: Ratio,
}

/// CPU usage of a single tracked thread between two snapshots.
#[derive(Debug, Clone, Copy, PartialEq, Eq, Structural)]
pub struct ThreadReport {
    /// The thread's own CPU usage. 100% is a single core.
    pub cpu_usage: Ratio,
    /// The thread's own CPU usage in kernel mode. 100% is a single core.
    pub system_cpu: Ratio,
    /// The thread's own CPU usage in user mode. 100% is a single core.
    pub user_cpu: Ratio,
}

/// What a meter reports of the process between its two most recent
/// snapshots.
#[derive(Debug, Clone, Copy, PartialEq, Eq, Structural)]
pub struct Report {
    /// Wall-clock time of the newer snapshot, in milliseconds since the Unix
    /// epoch.
    pub timestamp: u64,
    /// The time between the two snapshots by the monotonic clock, in
    /// milliseconds.
    pub duration: u64,
    /// When the meter was made, in milliseconds since the Unix epoch.
    pub start_time: u64,
    /// The uptime of the system at the newer snapshot, in milliseconds.
    pub system_uptime: u128,
    /// CPU usage of the whole system. 100% is all cores. Never negative.
    pub global_cpu_usage: Ratio,
    /// The process's own CPU usage. 100% is a single core.
    pub process_cpu_usage: Ratio,
    /// The process's CPU usage with the children it waited for. 100% is a
    /// single core.
    pub gross_cpu_usage: Ratio,
    /// Resident set size at the newer snapshot, in bytes.
    pub memory_rss: u64,
    /// Size of the virtual address space at the newer snapshot, in bytes.
    pub memory_virtual: u64,
    /// Size of what is swapped out at the newer snapshot, in bytes.
    pub memory_swap: u64,
    /// The largest resident set size that any committed pass has seen.
    pub memory_rss_peak: u64,
    /// The largest size of the virtual address space, as the system tracks
    /// it.
    pub memory_virtual_peak: u64,
    /// The largest swap size that any committed pass has seen.
    pub memory_swap_peak: u64,
    /// Bytes per second fetched from block devices.
    pub disk_read: Ratio,
    /// Bytes per second sent to block devices.
    pub disk_write: Ratio,
    /// Bytes per second whose write-out was cancelled.
    pub disk_cancelled: Ratio,
    /// Bytes per second read, whatever they were read from.
    pub io_read: Ratio,
    /// Bytes per second written, whatever they were written to.
    pub io_write: Ratio,
    /// Read system calls per second.
    pub io_read_ops: Ratio,
    /// Write system calls per second.
    pub io_write_ops: Ratio,
}

/// The time from the monotonic clock reading `prev` to the reading `last`,
/// in milliseconds. Where the clock was handed over in the wrong order the
/// time is zero.
pub open spec fn elapsed(last: u64, prev: u64) -> u64 {
    if last >= prev {
        (last - prev) as u64
    } else {
        0
    }
}

/// The fraction `num / den` of two integers.
pub open spec fn ratio(num: int, den: int) -> Ratio {
    Ratio { num: num as i128, den: den as i128 }
}

/// The CPU usage of the whole system over an interval of `interval`
/// hundredths of a second in which its `cpus` CPUs idled for `idle`
/// hundredths of a second: the share of the CPU time that was not idle.
/// A usage below zero is reported as zero.
pub open spec fn global_cpu(interval: int, idle: int, cpus: int) -> Ratio {
    let capacity = interval * cpus;
    let busy = capacity - idle;
    if (busy < 0 && capacity >= 0) || (busy > 0 && capacity < 0) {
        Ratio { num: 0, den: 1 }
    } else {
        ratio(busy, capacity)
    }
}

/// The report of the interval between the snapshot `prev` and the snapshot
/// `last` that follows it, on a system with `cpus` CPUs.
///
/// With `interval` the uptime that passed between the two, in hundredths of
/// a second: the CPU usage of the process is the fraction of its ticks by
/// the interval; every rate is the fraction of its counter's growth by the
/// interval; the memory figures are those of `last`. The duration is the
/// time between the two readings of the monotonic clock, and the uptime of
/// the system is that of `last`, ten milliseconds to the hundredth.
pub open spec fn report_of(
    last: SnapshotView,
    prev: SnapshotView,
    cpus: nat,
    start_time: u64,
    rss_peak: u64,
    swap_peak: u64,
) -> Report {
    let l = last.sample;
    let p = prev.sample;
    let interval = l.uptime - p.uptime;
    Report {
        timestamp: l.timestamp,
        duration: elapsed(l.instant, p.instant),
        start_time,
        system_uptime: (l.uptime * 10) as u128,
        global_cpu_usage: global_cpu(interval, l.idle_time - p.idle_time, cpus as int),
        process_cpu_usage: ratio(l.process.own_ticks() - p.process.own_ticks(), interval),
        gross_cpu_usage: ratio(l.process.gross_ticks() - p.process.gross_ticks(), interval),
        memory_rss: l.memory.rss,
        memory_virtual: l.memory.virtual_size,
        memory_swap: l.memory.swap,
        memory_rss_peak: rss_peak,
        memory_virtual_peak: l.memory.virtual_peak,
        memory_swap_peak: swap_peak,
        disk_read: ratio(l.io.read_disk_bytes - p.io.read_disk_bytes, interval),
        disk_write: ratio(l.io.write_disk_bytes - p.io.write_disk_bytes, interval),
        disk_cancelled: ratio(l.io.write_cancelled_bytes - p.io.write_cancelled_bytes, interval),
        io_read: ratio(l.io.read_bytes - p.io.read_bytes, interval),
        io_write: ratio(l.io.write_bytes - p.io.write_bytes, interval),
        io_read_ops: ratio(l.io.read_ops - p.io.read_ops, interval),
        io_write_ops: ratio(l.io.write_ops - p.io.write_ops, interval),
    }
}

/// The growth of a counter from `prev` to `last`.
fn growth(last: u64, prev: u64) -> (r: i128)
    ensures
        r == last - prev,
{
    last as i128 - prev as i128
}

/// The CPU usage of the whole system.
fn compute_global_cpu(interval: i128, idle: i128, cpus: u32) -> (r: Ratio)
    requires
        -0x1_0000_0000_0000_0000 < interval < 0x1_0000_0000_0000_0000,
        -0x1_0000_0000_0000_0000 < idle < 0x1_0000_0000_0000_0000,
    ensures
        r == global_cpu(interval as int, idle as int, cpus as int),
{
    assert(-0x1_0000_0000_0000_0000_0000_0000 < interval * cpus
        < 0x1_0000_0000_0000_0000_0000_0000) by (nonlinear_arith)
        requires
            -0x1_0000_0000_0000_0000 < interval < 0x1_0000_0000_0000_0000,
            0 <= cpus < 0x1_0000_0000,
    ;
    let capacity: i128 = interval * (cpus as i128);
    let busy: i128 = capacity - idle;
    if (busy < 0 && capacity >= 0) || (busy > 0 && capacity < 0) {
        Ratio { num: 0, den: 1 }
    } else {
        Ratio { num: busy, den: capacity }
    }
}

impl Report {
    /// Derives the report of the interval between the snapshot `prev` and
    /// the snapshot `last` that follows it.
    pub fn compute(
        last: &Snapshot,
        prev: &Snapshot,
        cpus: u32,
        start_time: u64,
        rss_peak: u64,
        swap_peak: u64,
    ) -> (r: Report)
        ensures
            r == report_of(last@, prev@, cpus as nat, start_time, rss_peak, swap_peak),
    {
        let l = &last.sample;
        let p = &prev.sample;
        let interval = growth(l.uptime, p.uptime);
        let own = (l.process.user_time as i128 + l.process.system_time as i128) - (
        p.process.user_time as i128 + p.process.system_time as i128);
        let gross = (l.process.user_time as i128 + l.process.system_time as i128
            + l.process.child_user_time as i128 + l.process.child_system_time as i128) - (
        p.process.user_time as i128 + p.process.system_time as i128
            + p.process.child_user_time as i128 + p.process.child_system_time as i128);
        let passed = if l.instant >= p.instant {
            l.instant - p.instant
        } else {
            0
        };
        Report {
            timestamp: l.timestamp,
            duration: passed,
            start_time,
            system_uptime: l.uptime as u128 * 10,
            global_cpu_usage: compute_global_cpu(
                interval,
                growth(l.idle_time, p.idle_time),
                cpus,
            ),
            process_cpu_usage: Ratio { num: own, den: interval },
            gross_cpu_usage: Ratio { num: gross, den: interval },
            memory_rss: l.memory.rss,
            memory_virtual: l.memory.virtual_size,
            memory_swap: l.memory.swap,
            memory_rss_peak: rss_peak,
            memory_virtual_peak: l.memory.virtual_peak,
            memory_swap_peak: swap_peak,
            disk_read: Ratio {
                num: growth(l.io.read_disk_bytes, p.io.read_disk_bytes),
                den: interval,
            },
            disk_write: Ratio {
                num: growth(l.io.write_disk_bytes, p.io.write_disk_bytes),
                den: interval,
            },
            disk_cancelled: Ratio {
                num: growth(l.io.write_cancelled_bytes, p.io.write_cancelled_bytes),
                den: interval,
            },
            io_read: Ratio { num: growth(l.io.read_bytes, p.io.read_bytes), den: interval },
            io_write: Ratio { num: growth(l.io.write_bytes, p.io.write_bytes), den: interval },
            io_read_ops: Ratio { num: growth(l.io.read_ops, p.io.read_ops), den: interval },
            io_write_ops: Ratio { num: growth(l.io.write_ops, p.io.write_ops), den: interval },
        }
    }
}

/// The names of a registry of threads as plain text, by thread id.
pub open spec fn names_of(names: Map<Pid, String>) -> Map<Pid, Seq<char>> {
    Map::new(|tid: Pid| names.contains_key(tid), |tid: Pid| names[tid]@)
}

/// The CPU usage of a thread whose counters grew from `prev` to `last` over
/// an interval of `interval` hundredths of a second.
pub open spec fn thread_report_of(last: ThreadInfo, prev: ThreadInfo, interval: int)
    -> ThreadReport {
    ThreadReport {
        cpu_usage: ratio(last.own_ticks() - prev.own_ticks(), interval),
        system_cpu: ratio(last.system_time - prev.system_time, interval),
        user_cpu: ratio(last.user_time - prev.user_time, interval),
    }
}

/// One entry of a thread report: a tracked thread, its name and its usage.
pub struct ThreadEntry {
    pub tid: Pid,
    pub name: Seq<char>,
    pub report: ThreadReport,
}

/// The entries of a thread report over the threads `ids`, in their order.
/// A thread has an entry where it has a name and both snapshots hold it;
/// any other thread is passed over.
pub open spec fn thread_entries(
    ids: Seq<Pid>,
    names: Map<Pid, Seq<char>>,
    last: Map<Pid, ThreadInfo>,
    prev: Map<Pid, ThreadInfo>,
    interval: int,
) -> Seq<ThreadEntry>
    decreases ids.len(),
{
    if ids.len() == 0 {
        Seq::empty()
    } else {
        let tid = ids[0];
        let rest = thread_entries(ids.skip(1), names, last, prev, interval);
        if names.contains_key(tid) && last.contains_key(tid) && prev.contains_key(tid) {
            seq![
                ThreadEntry {
                    tid,
                    name: names[tid],
                    report: thread_report_of(last[tid], prev[tid], interval),
                },
            ] + rest
        } else {
            rest
        }
    }
}

/// The CPU usage of each tracked thread between two snapshots, handed out
/// one thread at a time.
#[derive(Debug)]
pub struct ThreadReportIter<'a> {
    ids: Vec<Pid>,
    pos: usize,
    names: &'a HashMap<Pid, String>,
    last: &'a Snapshot,
    prev: &'a Snapshot,
    centisecs: i128,
}

impl<'a> ThreadReportIter<'a> {
    /// The threads that the report walks over, in its order, from the first
    /// to the last.
    pub closed spec fn ids(&self) -> Seq<Pid> {
        self.ids@
    }

    /// The entries that the report has yet to hand out.
    pub closed spec fn entries(&self) -> Seq<ThreadEntry> {
        thread_entries(
            self.ids@.skip(self.pos as int),
            names_of(self.names@),
            self.last@.threads,
            self.prev@.threads,
            self.centisecs as int,
        )
    }

    /// Validity of the report: it has not walked past its last thread, and
    /// its interval is the difference of two uptimes.
    pub closed spec fn wf(&self) -> bool {
        &&& self.pos <= self.ids@.len()
        &&& -0x1_0000_0000_0000_0000 < self.centisecs < 0x1_0000_0000_0000_0000
    }

    /// The report over the threads `ids`, with their names from `names`,
    /// between the snapshot `prev` and the snapshot `last` that follows it.
    pub fn new(
        ids: Vec<Pid>,
        names: &'a HashMap<Pid, String>,
        last: &'a Snapshot,
        prev: &'a Snapshot,
    ) -> (r: ThreadReportIter<'a>)
        ensures
            r.wf(),
            r.ids() == ids@,
            r.entries() == thread_entries(
                ids@,
                names_of(names@),
                last@.threads,
                prev@.threads,
                last@.sample.uptime - prev@.sample.uptime,
            ),
    {
        let centisecs = growth(last.sample.uptime, prev.sample.uptime);
        assert(ids@.skip(0) =~= ids@);
        ThreadReportIter { ids, pos: 0, names, last, prev, centisecs }
    }

    /// Hands out the next entry: the name of a thread and its usage. After
    /// the last entry there is none.
    pub fn next(&mut self) -> (r: Option<(&'a str, ThreadReport)>)
        requires
            old(self).wf(),
        ensures
            final(self).wf(),
            final(self).ids() == old(self).ids(),
            match r {
                Some((name, report)) => {
                    &&& old(self).entries().len() > 0
                    &&& name@ == old(self).entries()[0].name
                    &&& report == old(self).entries()[0].report
                    &&& final(self).entries() == old(self).entries().skip(1)
                },
                None => old(self).entries().len() == 0 && final(self).entries().len() == 0,
            },
    {
        while self.pos < self.ids.len()
            invariant
                self.wf(),
                self.ids == old(self).ids,
                self.names == old(self).names,
                self.last == old(self).last,
                self.prev == old(self).prev,
                self.centisecs == old(self).centisecs,
                self.entries() == old(self).entries(),
            decreases self.ids@.len() - self.pos,
        {
            let tid = self.ids[self.pos];
            let ghost here = self.ids@.skip(self.pos as int);
            proof {
                assert(here[0] == tid);
                assert(here.skip(1) =~= self.ids@.skip(self.pos + 1));
            }
            self.pos = self.pos + 1;
            let names: &'a HashMap<Pid, String> = self.names;
            let last: &'a Snapshot = self.last;
            let prev: &'a Snapshot = self.prev;
            match (names.get(&tid), last.threads.get(&tid), prev.threads.get(&tid)) {
                (Some(name), Some(lth), Some(pth)) => {
                    let udelta = growth(lth.user_time, pth.user_time);
                    let sdelta = growth(lth.system_time, pth.system_time);
                    let report = ThreadReport {
                        cpu_usage: Ratio { num: udelta + sdelta, den: self.centisecs },
                        system_cpu: Ratio { num: sdelta, den: self.centisecs },
                        user_cpu: Ratio { num: udelta, den: self.centisecs },
                    };
                    proof {
                        let rest = thread_entries(
                            here.skip(1),
                            names_of(names@),
                            last@.threads,
                            prev@.threads,
                            self.centisecs as int,
                        );
                        assert(old(self).entries() =~= seq![
                            ThreadEntry {
                                tid,
                                name: name@,
                                report,
                            },
                        ] + rest);
                        assert(old(self).entries().skip(1) =~= rest);
                    }
                    return Some((name.as_str(), report));
                },
                _ => {},
            }
        }
        None
    }
}

} // verus!
