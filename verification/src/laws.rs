//! What holds of the library whatever it is given, stated over the
//! mathematical values of its types.
use vstd::prelude::*;
use crate::counters::ThreadInfo;
use crate::error::UptimeError;
use crate::meter::MeterView;
use crate::parse::uptime_value;
use crate::report::{global_cpu, report_of, thread_entries, thread_report_of};
use crate::scan::{ScanView, Stage};
use crate::snapshot::SnapshotView;
use crate::Pid;

verus! {

/// Text without a dot, text that begins with its dot, and text with no
/// byte or more than two bytes behind its first dot is a bad format.
pub proof fn lemma_uptime_bad_format(v: Seq<u8>)
    ensures
        !v.contains(0x2e) ==> uptime_value(v) == Err::<u64, UptimeError>(UptimeError::BadFormat),
        match v.index_of_first(0x2e) {
            Some(dot) => dot == 0 || v.len() - dot - 1 == 0 || v.len() - dot - 1 > 2
                ==> uptime_value(v) == Err::<u64, UptimeError>(UptimeError::BadFormat),
            None => true,
        },
{
    v.index_of_first_ensures(0x2e);
}

/// The history of a valid meter is within its capacity.
pub proof fn lemma_history_bounded(m: MeterView)
    requires
        m.wf(),
    ensures
        m.history.len() <= m.capacity,
{
}

/// Every snapshot of a meter that took in a pass, the newest excepted, was
/// in the history before, and no snapshot that was there has changed.
pub proof fn lemma_committed_keeps_snapshots(m: MeterView, scan: ScanView, i: int)
    requires
        m.wf(),
        0 <= i < m.committed(scan).history.len() - 1,
    ensures
        m.history.len() < m.capacity ==> i < m.history.len() && m.committed(scan).history[i]
            == m.history[i],
        m.history.len() == m.capacity ==> i + 1 < m.history.len() && m.committed(
            scan,
        ).history[i] == m.history[i + 1],
{
}

/// A meter that takes in a pass stays valid, so its history stays within
/// its capacity. The history grows by one snapshot until it is full and
/// keeps its length from then on.
pub proof fn lemma_commit_keeps_capacity(m: MeterView, scan: ScanView)
    requires
        m.wf(),
    ensures
        m.committed(scan).wf(),
        m.committed(scan).capacity == m.capacity,
        m.committed(scan).history.len() <= m.capacity,
        m.committed(scan).history.len() == if m.history.len() < m.capacity {
            m.history.len() + 1
        } else {
            m.capacity
        },
{
    let after = m.committed(scan);
    assert forall|i: int| 0 <= i < after.history.len() - 1 implies m.history.contains(
        #[trigger] after.history[i],
    ) by {
        lemma_committed_keeps_snapshots(m, scan, i);
    }
}

/// The snapshot of a pass that a meter takes in becomes the newest one.
/// Where the history had room, every snapshot keeps its place. Where the
/// history was full, the oldest snapshot leaves and every other one moves
/// up by one place: the first in is the first out.
pub proof fn lemma_commit_evicts_oldest(m: MeterView, scan: ScanView)
    requires
        m.wf(),
    ensures
        m.committed(scan).last() == m.snapshot_of(scan),
        m.history.len() < m.capacity ==> forall|i: int|
            0 <= i < m.history.len() ==> #[trigger] m.committed(scan).history[i] == m.history[i],
        m.history.len() == m.capacity ==> forall|i: int|
            0 <= i < m.history.len() - 1 ==> #[trigger] m.committed(scan).history[i]
                == m.history[i + 1],
{
}

/// The meter after it was offered the passes `passes` one after the other:
/// it took in those that were complete and dropped the others.
pub open spec fn after_passes(m: MeterView, passes: Seq<ScanView>) -> MeterView
    decreases passes.len(),
{
    if passes.len() == 0 {
        m
    } else {
        let before = after_passes(m, passes.drop_last());
        if passes.last().stage is Complete {
            before.committed(passes.last())
        } else {
            before
        }
    }
}

/// Whatever passes a valid meter is offered, and however many, its history
/// never exceeds its capacity, and its capacity never changes.
pub proof fn lemma_history_bounded_forever(m: MeterView, passes: Seq<ScanView>)
    requires
        m.wf(),
    ensures
        after_passes(m, passes).wf(),
        after_passes(m, passes).capacity == m.capacity,
        after_passes(m, passes).history.len() <= m.capacity,
    decreases passes.len(),
{
    if passes.len() > 0 {
        lemma_history_bounded_forever(m, passes.drop_last());
        lemma_commit_keeps_capacity(after_passes(m, passes.drop_last()), passes.last());
    }
}

/// A pass that has failed stays failed whatever it is fed, and a pass that
/// is complete stays complete: the outcome of a pass is final.
pub proof fn lemma_pass_outcome_is_final(scan: ScanView, reading: Result<Seq<u8>, std::io::Error>)
    ensures
        scan.stage is Failed ==> scan.advance(reading).0 == scan,
        scan.stage is Complete ==> scan.advance(reading).0 == scan,
{
}

/// A step of a pass reports an error exactly when it ends the pass in
/// failure, and a failure leaves everything but the stage as it was.
pub proof fn lemma_pass_fails_with_error(scan: ScanView, reading: Result<Seq<u8>, std::io::Error>)
    requires
        !(scan.stage is Failed),
    ensures
        scan.advance(reading).1 is Err <==> scan.advance(reading).0.stage is Failed,
        scan.advance(reading).1 is Err ==> scan.advance(reading).0 == scan.failed(),
{
}

/// A step keeps a valid pass valid.
pub proof fn lemma_pass_stays_valid(scan: ScanView, reading: Result<Seq<u8>, std::io::Error>)
    requires
        scan.wf(),
    ensures
        scan.advance(reading).0.wf(),
{
    let after = scan.advance(reading).0;
    if scan.stage is Threads && after.stage != Stage::Failed {
        let tid = scan.ids[scan.next as int];
        assert(scan.ids.to_set().contains(tid));
        assert(after.threads.dom() =~= scan.threads.dom());
    }
}

/// A meter that stops tracking a thread stays valid; the thread has left
/// the registry and every retained snapshot, and nothing else has changed.
pub proof fn lemma_untracked_forgets(m: MeterView, tid: Pid)
    requires
        m.wf(),
    ensures
        m.untracked(tid).wf(),
        !m.untracked(tid).threads.contains_key(tid),
        m.untracked(tid).history.len() == m.history.len(),
        forall|i: int|
            0 <= i < m.history.len() ==> #[trigger] m.untracked(tid).history[i]
                == MeterView::forget(m.history[i], tid),
        forall|i: int|
            0 <= i < m.history.len() ==> !(#[trigger] m.untracked(tid).history[i]).threads.contains_key(
                tid,
            ),
        forall|i: int, other: Pid|
            0 <= i < m.history.len() && other != tid ==> (#[trigger] m.untracked(
                tid,
            ).history[i].threads.contains_key(other) <==> m.history[i].threads.contains_key(other)),
{
    let after = m.untracked(tid);
    assert forall|i: int| 0 <= i < after.history.len() implies #[trigger] after.history[i]
        == MeterView::forget(m.history[i], tid) by {
    }
}

/// Every entry of a thread report is that of a thread of the walk that has
/// a name and that both snapshots hold, and carries that thread's name and
/// its usage between the two snapshots.
pub proof fn lemma_thread_entries_sound(
    ids: Seq<Pid>,
    names: Map<Pid, Seq<char>>,
    last: Map<Pid, ThreadInfo>,
    prev: Map<Pid, ThreadInfo>,
    interval: int,
)
    ensures
        forall|k: int|
            0 <= k < thread_entries(ids, names, last, prev, interval).len() ==> {
                let e = #[trigger] thread_entries(ids, names, last, prev, interval)[k];
                &&& ids.contains(e.tid)
                &&& names.contains_key(e.tid)
                &&& last.contains_key(e.tid)
                &&& prev.contains_key(e.tid)
                &&& e.name == names[e.tid]
                &&& e.report == thread_report_of(last[e.tid], prev[e.tid], interval)
            },
    decreases ids.len(),
{
    if ids.len() > 0 {
        lemma_thread_entries_sound(ids.skip(1), names, last, prev, interval);
        let all = thread_entries(ids, names, last, prev, interval);
        let rest = thread_entries(ids.skip(1), names, last, prev, interval);
        let tid = ids[0];
        let first = names.contains_key(tid) && last.contains_key(tid) && prev.contains_key(tid);
        assert forall|k: int| 0 <= k < all.len() implies ({
            let e = #[trigger] all[k];
            &&& ids.contains(e.tid)
            &&& names.contains_key(e.tid)
            &&& last.contains_key(e.tid)
            &&& prev.contains_key(e.tid)
            &&& e.name == names[e.tid]
            &&& e.report == thread_report_of(last[e.tid], prev[e.tid], interval)
        }) by {
            if first && k == 0 {
                assert(ids[0] == tid);
            } else {
                let j = if first {
                    k - 1
                } else {
                    k
                };
                let e = rest[j];
                assert(all[k] == e);
                let at = choose|at: int| 0 <= at < ids.skip(1).len() && ids.skip(1)[at] == e.tid;
                assert(ids[at + 1] == e.tid);
            }
        }
    }
}

/// Every thread of the walk that has a name and that both snapshots hold
/// has an entry in the thread report.
pub proof fn lemma_thread_entries_complete(
    ids: Seq<Pid>,
    names: Map<Pid, Seq<char>>,
    last: Map<Pid, ThreadInfo>,
    prev: Map<Pid, ThreadInfo>,
    interval: int,
    tid: Pid,
)
    requires
        ids.contains(tid),
        names.contains_key(tid),
        last.contains_key(tid),
        prev.contains_key(tid),
    ensures
        exists|k: int|
            0 <= k < thread_entries(ids, names, last, prev, interval).len() && (
            #[trigger] thread_entries(ids, names, last, prev, interval)[k]).tid == tid,
    decreases ids.len(),
{
    let all = thread_entries(ids, names, last, prev, interval);
    let rest = thread_entries(ids.skip(1), names, last, prev, interval);
    let at = choose|at: int| 0 <= at < ids.len() && ids[at] == tid;
    let head = ids[0];
    let first = names.contains_key(head) && last.contains_key(head) && prev.contains_key(head);
    if head == tid {
        assert(all[0].tid == tid);
    } else {
        assert(ids.skip(1)[at - 1] == tid);
        lemma_thread_entries_complete(ids.skip(1), names, last, prev, interval, tid);
        let k = choose|k: int| 0 <= k < rest.len() && (#[trigger] rest[k]).tid == tid;
        if first {
            assert(all[k + 1] == rest[k]);
        } else {
            assert(all[k] == rest[k]);
        }
    }
}

/// Where the walk names no thread twice, no two entries of the thread
/// report are of the same thread: each thread that has a name and that both
/// snapshots hold has exactly one entry.
pub proof fn lemma_thread_entries_distinct(
    ids: Seq<Pid>,
    names: Map<Pid, Seq<char>>,
    last: Map<Pid, ThreadInfo>,
    prev: Map<Pid, ThreadInfo>,
    interval: int,
)
    requires
        ids.no_duplicates(),
    ensures
        forall|j: int, k: int|
            0 <= j < k < thread_entries(ids, names, last, prev, interval).len() ==> (
            #[trigger] thread_entries(ids, names, last, prev, interval)[j]).tid != (
            #[trigger] thread_entries(ids, names, last, prev, interval)[k]).tid,
    decreases ids.len(),
{
    if ids.len() > 0 {
        let all = thread_entries(ids, names, last, prev, interval);
        let rest = thread_entries(ids.skip(1), names, last, prev, interval);
        let tid = ids[0];
        let first = names.contains_key(tid) && last.contains_key(tid) && prev.contains_key(tid);
        lemma_thread_entries_distinct(ids.skip(1), names, last, prev, interval);
        lemma_thread_entries_sound(ids.skip(1), names, last, prev, interval);
        assert forall|j: int, k: int| 0 <= j < k < all.len() implies (#[trigger] all[j]).tid != (
        #[trigger] all[k]).tid by {
            if first {
                assert(all[k] == rest[k - 1]);
                if j == 0 {
                    let at = choose|at: int|
                        0 <= at < ids.skip(1).len() && ids.skip(1)[at] == rest[k - 1].tid;
                    assert(ids[at + 1] == rest[k - 1].tid);
                } else {
                    assert(all[j] == rest[j - 1]);
                }
            } else {
                assert(all[j] == rest[j]);
                assert(all[k] == rest[k]);
            }
        }
    }
}

/// A thread that one of the two most recent snapshots does not hold has no
/// entry in the thread report, whether it is tracked or not.
pub proof fn lemma_unsampled_thread_not_reported(m: MeterView, ids: Seq<Pid>, tid: Pid)
    requires
        m.history.len() >= 2,
        !m.last().threads.contains_key(tid) || !m.prev().threads.contains_key(tid),
    ensures
        forall|k: int|
            0 <= k < m.thread_report(ids).len() ==> (#[trigger] m.thread_report(ids)[k]).tid
                != tid,
{
    lemma_thread_entries_sound(ids, m.threads, m.last().threads, m.prev().threads, m.interval());
}

/// Once a meter has stopped tracking a thread, the thread has no entry in
/// its thread report, whatever passes are taken in afterwards, for as long
/// as the thread is not tracked again.
pub proof fn lemma_untracked_thread_not_reported(
    m: MeterView,
    tid: Pid,
    passes: Seq<ScanView>,
    ids: Seq<Pid>,
)
    requires
        m.wf(),
        after_passes(m.untracked(tid), passes).history.len() >= 2,
    ensures
        !after_passes(m.untracked(tid), passes).threads.contains_key(tid),
        forall|i: int|
            0 <= i < after_passes(m.untracked(tid), passes).history.len() ==> !(
            #[trigger] after_passes(m.untracked(tid), passes).history[i]).threads.contains_key(tid),
        forall|k: int|
            0 <= k < after_passes(m.untracked(tid), passes).thread_report(ids).len() ==> (
            #[trigger] after_passes(m.untracked(tid), passes).thread_report(ids)[k]).tid != tid,
{
    let u = m.untracked(tid);
    let after = after_passes(u, passes);
    lemma_untracked_forgets(m, tid);
    lemma_history_bounded_forever(u, passes);
    lemma_passes_keep_registry(u, passes);
    lemma_thread_entries_sound(
        ids,
        after.threads,
        after.last().threads,
        after.prev().threads,
        after.interval(),
    );
    assert forall|i: int| 0 <= i < after.history.len() implies !(
    #[trigger] after.history[i]).threads.contains_key(tid) by {
        if after.history[i].threads.contains_key(tid) {
            assert(after.threads.contains_key(tid));
        }
    }
}

/// Taking in passes changes neither the tracked threads nor the number of
/// CPUs of a meter.
pub proof fn lemma_passes_keep_registry(m: MeterView, passes: Seq<ScanView>)
    ensures
        after_passes(m, passes).threads == m.threads,
        after_passes(m, passes).cpus == m.cpus,
        after_passes(m, passes).start_time == m.start_time,
    decreases passes.len(),
{
    if passes.len() > 0 {
        lemma_passes_keep_registry(m, passes.drop_last());
    }
}

/// The CPU usage of the whole system is never negative, whatever the idle
/// time and the interval, also where the idle time exceeds what the CPUs
/// could have idled.
pub proof fn lemma_global_cpu_not_negative(interval: int, idle: int, cpus: int)
    requires
        -0x1_0000_0000_0000_0000 < interval < 0x1_0000_0000_0000_0000,
        -0x1_0000_0000_0000_0000 < idle < 0x1_0000_0000_0000_0000,
        1 <= cpus <= u32::MAX,
    ensures
        global_cpu(interval, idle, cpus).non_negative(),
        0 <= idle <= interval * cpus ==> global_cpu(interval, idle, cpus).num == interval * cpus
            - idle && global_cpu(interval, idle, cpus).den == interval * cpus,
        0 <= interval * cpus < idle ==> global_cpu(interval, idle, cpus).num == 0
            && global_cpu(interval, idle, cpus).den == 1,
{
    assert(-0x1_0000_0000_0000_0000_0000_0000 < interval * cpus
        < 0x1_0000_0000_0000_0000_0000_0000) by (nonlinear_arith)
        requires
            -0x1_0000_0000_0000_0000 < interval < 0x1_0000_0000_0000_0000,
            1 <= cpus < 0x1_0000_0000,
    ;
}

/// The CPU figures of a report are exactly the fractions of the growth of
/// the ticks by the growth of the uptime: own ticks for the usage of the
/// process, own and children's ticks for its gross usage. The global usage
/// is never negative.
pub proof fn lemma_report_cpu_figures(
    last: SnapshotView,
    prev: SnapshotView,
    cpus: nat,
    start_time: u64,
    rss_peak: u64,
    swap_peak: u64,
)
    requires
        1 <= cpus <= u32::MAX,
    ensures
        ({
            let r = report_of(last, prev, cpus, start_time, rss_peak, swap_peak);
            let interval = last.sample.uptime - prev.sample.uptime;
            &&& r.process_cpu_usage.num == last.sample.process.own_ticks()
                - prev.sample.process.own_ticks()
            &&& r.process_cpu_usage.den == interval
            &&& r.gross_cpu_usage.num == last.sample.process.gross_ticks()
                - prev.sample.process.gross_ticks()
            &&& r.gross_cpu_usage.den == interval
            &&& r.global_cpu_usage == global_cpu(
                interval,
                last.sample.idle_time - prev.sample.idle_time,
                cpus as int,
            )
            &&& r.global_cpu_usage.non_negative()
        }),
{
    lemma_global_cpu_not_negative(
        last.sample.uptime - prev.sample.uptime,
        last.sample.idle_time - prev.sample.idle_time,
        cpus as int,
    );
}

/// The pass after it was fed the readings `readings` one after the other.
pub open spec fn fed(scan: ScanView, readings: Seq<Result<Seq<u8>, std::io::Error>>) -> ScanView
    decreases readings.len(),
{
    if readings.len() == 0 {
        scan
    } else {
        fed(scan, readings.drop_last()).advance(readings.last()).0
    }
}

/// The number of sources that a pass has read and understood. A pass that
/// has failed counts for nothing.
pub open spec fn sources_read(scan: ScanView) -> nat {
    match scan.stage {
        Stage::Uptime => 0,
        Stage::Stat => 1,
        Stage::Threads => 2 + scan.next,
        Stage::Status => 2 + scan.ids.len(),
        Stage::Io => 3 + scan.ids.len(),
        Stage::Complete => 4 + scan.ids.len(),
        Stage::Failed => 0,
    }
}

/// Feeding a pass keeps it valid and keeps its threads, and each reading
/// takes it one source further at most.
pub proof fn lemma_fed_pass(scan: ScanView, readings: Seq<Result<Seq<u8>, std::io::Error>>)
    requires
        scan.wf(),
    ensures
        fed(scan, readings).wf(),
        fed(scan, readings).ids == scan.ids,
        sources_read(fed(scan, readings)) <= sources_read(scan) + readings.len(),
    decreases readings.len(),
{
    if readings.len() > 0 {
        lemma_fed_pass(scan, readings.drop_last());
        lemma_pass_stays_valid(fed(scan, readings.drop_last()), readings.last());
    }
}

/// A pass is complete only when each of its sources was read and
/// understood: the uptime, the statistics of the process and of every one
/// of its threads, the memory status and the I/O counters. So a snapshot
/// that enters a history is never filled in part.
pub proof fn lemma_complete_pass_has_read_every_source(
    scan: ScanView,
    readings: Seq<Result<Seq<u8>, std::io::Error>>,
)
    requires
        scan.wf(),
        scan.stage is Uptime,
        fed(scan, readings).stage is Complete,
    ensures
        readings.len() >= scan.ids.len() + 4,
{
    lemma_fed_pass(scan, readings);
}

/// A pass that has failed stays failed whatever it is fed afterwards, and a
/// meter that is offered it stays as it was.
pub proof fn lemma_failed_pass_is_never_taken_in(
    m: MeterView,
    scan: ScanView,
    readings: Seq<Result<Seq<u8>, std::io::Error>>,
)
    requires
        scan.stage is Failed,
    ensures
        fed(scan, readings) == scan,
        after_passes(m, seq![fed(scan, readings)]) == m,
    decreases readings.len(),
{
    if readings.len() > 0 {
        lemma_failed_pass_is_never_taken_in(m, scan, readings.drop_last());
    }
    let passes = seq![scan];
    assert(passes.drop_last() =~= Seq::<ScanView>::empty());
    assert(passes.last() == scan);
    assert(after_passes(m, passes.drop_last()) == m);
}

/// The peaks of a meter never fall, whatever passes it is offered.
pub proof fn lemma_peaks_only_rise(m: MeterView, passes: Seq<ScanView>)
    ensures
        after_passes(m, passes).rss_peak >= m.rss_peak,
        after_passes(m, passes).swap_peak >= m.swap_peak,
    decreases passes.len(),
{
    if passes.len() > 0 {
        lemma_peaks_only_rise(m, passes.drop_last());
    }
}

/// Every rate of a report is exactly the fraction of the growth of its
/// counter by the growth of the uptime, and the memory figures are those of
/// the newer snapshot. The times of a report are whole milliseconds: the
/// time of the newer snapshot, the time that the monotonic clock counted
/// between the two, and ten times the uptime in hundredths of a second.
pub proof fn lemma_report_rates(
    last: SnapshotView,
    prev: SnapshotView,
    cpus: nat,
    start_time: u64,
    rss_peak: u64,
    swap_peak: u64,
)
    ensures
        ({
            let r = report_of(last, prev, cpus, start_time, rss_peak, swap_peak);
            let l = last.sample;
            let p = prev.sample;
            let interval = l.uptime - p.uptime;
            &&& r.io_read.num == l.io.read_bytes - p.io.read_bytes
            &&& r.io_write.num == l.io.write_bytes - p.io.write_bytes
            &&& r.io_read_ops.num == l.io.read_ops - p.io.read_ops
            &&& r.io_write_ops.num == l.io.write_ops - p.io.write_ops
            &&& r.disk_read.num == l.io.read_disk_bytes - p.io.read_disk_bytes
            &&& r.disk_write.num == l.io.write_disk_bytes - p.io.write_disk_bytes
            &&& r.disk_cancelled.num == l.io.write_cancelled_bytes - p.io.write_cancelled_bytes
            &&& r.io_read.den == interval
            &&& r.io_write.den == interval
            &&& r.io_read_ops.den == interval
            &&& r.io_write_ops.den == interval
            &&& r.disk_read.den == interval
            &&& r.disk_write.den == interval
            &&& r.disk_cancelled.den == interval
            &&& r.timestamp == l.timestamp
            &&& r.start_time == start_time
            &&& r.duration == if l.instant >= p.instant {
                l.instant - p.instant
            } else {
                0
            }
            &&& r.system_uptime == l.uptime * 10
            &&& r.memory_rss == l.memory.rss
            &&& r.memory_virtual == l.memory.virtual_size
            &&& r.memory_virtual_peak == l.memory.virtual_peak
            &&& r.memory_swap == l.memory.swap
            &&& r.memory_rss_peak == rss_peak
            &&& r.memory_swap_peak == swap_peak
        }),
{
}

/// The figures of a thread are exactly the fractions of the growth of its
/// ticks by the interval: user and system ticks together for its usage, and
/// each kind for itself.
pub proof fn lemma_thread_report_figures(last: ThreadInfo, prev: ThreadInfo, interval: int)
    requires
        -0x1_0000_0000_0000_0000 < interval < 0x1_0000_0000_0000_0000,
    ensures
        ({
            let r = thread_report_of(last, prev, interval);
            &&& r.cpu_usage.num == (last.user_time + last.system_time) - (prev.user_time
                + prev.system_time)
            &&& r.system_cpu.num == last.system_time - prev.system_time
            &&& r.user_cpu.num == last.user_time - prev.user_time
            &&& r.cpu_usage.den == interval
            &&& r.system_cpu.den == interval
            &&& r.user_cpu.den == interval
        }),
{
}

} // verus!
