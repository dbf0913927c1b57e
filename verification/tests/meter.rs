use std::io;
use std::time::Duration;

use self_meter::{
    Error, Meter, Ratio, Scan, Source, Stage, StatError, StatusError,
    ThreadReport, UptimeError,
};

fn stat(user: u64, system: u64, child_user: u64, child_system: u64) -> String {
    format!(
        "77 (worker (1)) S 1 2 3 4 5 6 7 8 9 10 {} {} {} {} 20 0 1\n",
        user, system, child_user, child_system
    )
}

fn status(rss_kb: u64, swap_kb: u64) -> String {
    format!(
        "VmPeak:\t900 kB\nVmSize:\t800 kB\nVmRSS:\t{} kB\nVmSwap:\t{} kB\n",
        rss_kb, swap_kb
    )
}

fn io_counters(n: u64) -> String {
    format!(
        "rchar: {}\nwchar: {}\nsyscr: {}\nsyscw: {}\nread_bytes: {}\nwrite_bytes: {}\n\
         cancelled_write_bytes: {}\n",
        n,
        2 * n,
        3 * n,
        4 * n,
        5 * n,
        6 * n,
        7 * n
    )
}

/// Runs one pass: the process has used `ticks` ticks of each kind, and each
/// tracked thread as many ticks as its id says.
fn pass(meter: &mut Meter, instant: u64, uptime: &str, ticks: u64, rss_kb: u64) -> bool {
    let mut scan = meter.scan(1_700_000_000_000 + instant, instant);
    while let Some(source) = scan.next_source() {
        let text = match source {
            Source::Uptime => uptime.to_string(),
            Source::Stat => stat(ticks, ticks, ticks, ticks),
            Source::ThreadStat(tid) => stat(tid as u64 + ticks, 2 * ticks, 0, 0),
            Source::Status => status(rss_kb, 1),
            Source::Io => io_counters(ticks),
        };
        scan.feed(Ok(&text)).unwrap();
    }
    meter.commit(scan)
}

fn new_meter(cpus: usize) -> Meter {
    Meter::with_cpus(Duration::new(1, 0), 1_700_000_000_000, cpus).unwrap()
}

#[test]
fn meter_for_this_system() {
    let meter = Meter::new(Duration::new(2, 500), 5).unwrap();
    assert_eq!(meter.get_scan_interval(), Duration::new(2, 500));
    assert_eq!(meter.snapshot_count(), 0);
    assert_eq!(meter.thread_count(), 0);
    assert!(meter.report().is_none());
}

#[test]
fn meter_refuses_an_unusable_cpu_count() {
    assert!(matches!(Meter::with_cpus(Duration::new(1, 0), 0, 0), Err(Error::Cpu(0))));
    let too_many = u32::MAX as usize + 1;
    match Meter::with_cpus(Duration::new(1, 0), 0, too_many) {
        Err(Error::Cpu(n)) => assert_eq!(n, too_many),
        _ => panic!("a count beyond 32 bits was accepted"),
    }
    assert!(Meter::with_cpus(Duration::new(1, 0), 0, u32::MAX as usize).is_ok());
}

#[test]
fn no_report_before_two_snapshots() {
    let mut meter = new_meter(4);
    assert!(meter.report().is_none());
    assert!(meter.thread_report().is_none());
    assert!(pass(&mut meter, 0, "100.00 200.00", 10, 100));
    assert!(meter.report().is_none());
    assert!(meter.thread_report().is_none());
    assert!(pass(&mut meter, 1000, "101.00 203.00", 20, 100));
    assert!(meter.report().is_some());
    assert!(meter.thread_report().is_some());
}

#[test]
fn report_figures_follow_the_formulas() {
    let mut meter = new_meter(4);
    assert!(pass(&mut meter, 500, "100.00 200.00", 10, 100));
    assert!(pass(&mut meter, 2750, "102.00 206.00", 25, 300));
    let r = meter.report().unwrap();
    // 200 hundredths of a second passed on 4 CPUs, 600 of their 800 idle.
    assert_eq!(r.global_cpu_usage, Ratio { num: 200, den: 800 });
    // 15 more ticks of each of the four kinds.
    assert_eq!(r.process_cpu_usage, Ratio { num: 30, den: 200 });
    assert_eq!(r.gross_cpu_usage, Ratio { num: 60, den: 200 });
    let percent = |f: Ratio| 100.0 * f.num as f64 / f.den as f64;
    assert!((percent(r.global_cpu_usage) - 100.0 * (1.0 - 600.0 / (200.0 * 4.0))).abs() < 1e-9);
    assert!((percent(r.process_cpu_usage) - 15.0).abs() < 1e-9);
    assert!((percent(r.gross_cpu_usage) - 30.0).abs() < 1e-9);
    assert_eq!(r.timestamp, 1_700_000_002_750);
    assert_eq!(r.start_time, 1_700_000_000_000);
    assert_eq!(r.duration, 2250);
    assert_eq!(r.system_uptime, 102_000);
    assert_eq!(r.memory_rss, 300 * 1024);
    assert_eq!(r.memory_virtual, 800 * 1024);
    assert_eq!(r.memory_virtual_peak, 900 * 1024);
    assert_eq!(r.memory_swap, 1024);
    assert_eq!(r.memory_rss_peak, 300 * 1024);
    assert_eq!(r.memory_swap_peak, 1024);
    assert_eq!(r.io_read, Ratio { num: 15, den: 200 });
    assert_eq!(r.io_write, Ratio { num: 30, den: 200 });
    assert_eq!(r.io_read_ops, Ratio { num: 45, den: 200 });
    assert_eq!(r.io_write_ops, Ratio { num: 60, den: 200 });
    assert_eq!(r.disk_read, Ratio { num: 75, den: 200 });
    assert_eq!(r.disk_write, Ratio { num: 90, den: 200 });
    assert_eq!(r.disk_cancelled, Ratio { num: 105, den: 200 });
}

#[test]
fn system_uptime_keeps_its_hundredths() {
    let mut meter = new_meter(1);
    assert!(pass(&mut meter, 0, "100.00 0.00", 0, 0));
    assert!(pass(&mut meter, 10, "1927830.69 0.00", 0, 0));
    let r = meter.report().unwrap();
    assert_eq!(r.system_uptime, 1_927_830_690);
}

#[test]
fn global_cpu_usage_is_never_negative() {
    let mut meter = new_meter(2);
    assert!(pass(&mut meter, 0, "100.00 200.00", 0, 0));
    // 100 hundredths passed on 2 CPUs, yet 201 hundredths of idle time.
    assert!(pass(&mut meter, 1000, "101.00 202.01", 0, 0));
    let r = meter.report().unwrap();
    assert_eq!(r.global_cpu_usage, Ratio { num: 0, den: 1 });
    // Exactly all of it idle: zero, not clamped.
    assert!(pass(&mut meter, 2000, "102.00 204.01", 0, 0));
    assert_eq!(meter.report().unwrap().global_cpu_usage, Ratio { num: 0, den: 200 });
}

#[test]
fn empty_interval_has_no_value() {
    let mut meter = new_meter(2);
    assert!(pass(&mut meter, 0, "100.00 200.00", 5, 0));
    assert!(pass(&mut meter, 0, "100.00 200.00", 6, 0));
    let r = meter.report().unwrap();
    assert_eq!(r.process_cpu_usage, Ratio { num: 2, den: 0 });
    assert_eq!(r.global_cpu_usage, Ratio { num: 0, den: 0 });
    assert_eq!(r.duration, 0);
    // Idle time that grew over an empty interval is a usage below zero.
    assert!(pass(&mut meter, 0, "100.00 200.50", 6, 0));
    assert_eq!(meter.report().unwrap().global_cpu_usage, Ratio { num: 0, den: 1 });
}

#[test]
fn counters_that_fall_give_negative_fractions() {
    let mut meter = new_meter(1);
    assert!(pass(&mut meter, 1000, "100.00 200.00", 50, 0));
    assert!(pass(&mut meter, 500, "101.00 200.00", 20, 0));
    let r = meter.report().unwrap();
    assert_eq!(r.process_cpu_usage, Ratio { num: -60, den: 100 });
    assert_eq!(r.io_read, Ratio { num: -30, den: 100 });
    assert_eq!(r.duration, 0);
}

#[test]
fn history_never_exceeds_its_capacity() {
    let mut meter = new_meter(1);
    for i in 0..25u64 {
        let uptime = format!("{}.00 0.00", 100 + i);
        assert!(pass(&mut meter, i * 1000, &uptime, i, 0));
        assert_eq!(meter.snapshot_count(), std::cmp::min(i as usize + 1, 10));
    }
    // The two newest snapshots are those of the last two passes.
    let r = meter.report().unwrap();
    assert_eq!(r.timestamp, 1_700_000_024_000);
    assert_eq!(r.system_uptime, 124_000);
    assert_eq!(r.process_cpu_usage, Ratio { num: 2, den: 100 });
}

#[test]
fn full_history_hands_its_oldest_counters_to_the_next_pass() {
    let mut meter = new_meter(1);
    for i in 0..10u64 {
        assert!(pass(&mut meter, i, "100.00 0.00", i, 100 + i));
    }
    // The eleventh pass names no memory counter: it keeps those of the
    // oldest snapshot, whose place it takes.
    let mut scan = meter.scan(0, 0);
    while let Some(source) = scan.next_source() {
        let text = match source {
            Source::Uptime => "100.00 0.00".to_string(),
            Source::Status => "Name:\tmeter\n".to_string(),
            Source::Io => io_counters(0),
            _ => stat(0, 0, 0, 0),
        };
        scan.feed(Ok(&text)).unwrap();
    }
    assert!(meter.commit(scan));
    assert_eq!(meter.snapshot_count(), 10);
    assert_eq!(meter.report().unwrap().memory_rss, 100 * 1024);
    assert_eq!(meter.report().unwrap().memory_rss_peak, 109 * 1024);
}

#[test]
fn peaks_only_rise() {
    let mut meter = new_meter(1);
    assert!(pass(&mut meter, 0, "100.00 0.00", 0, 500));
    assert!(pass(&mut meter, 1, "101.00 0.00", 0, 200));
    let r = meter.report().unwrap();
    assert_eq!(r.memory_rss, 200 * 1024);
    assert_eq!(r.memory_rss_peak, 500 * 1024);
    assert!(pass(&mut meter, 2, "102.00 0.00", 0, 700));
    assert_eq!(meter.report().unwrap().memory_rss_peak, 700 * 1024);
}

#[test]
fn sources_come_in_a_fixed_order() {
    let mut meter = new_meter(1);
    meter.track_thread(7, "seven");
    let mut scan = meter.scan(0, 0);
    assert_eq!(scan.stage(), Stage::Uptime);
    assert_eq!(scan.next_source(), Some(Source::Uptime));
    scan.feed(Ok("1.00 1.00")).unwrap();
    assert_eq!(scan.next_source(), Some(Source::Stat));
    scan.feed(Ok(&stat(1, 1, 1, 1))).unwrap();
    assert_eq!(scan.next_source(), Some(Source::ThreadStat(7)));
    scan.feed(Ok(&stat(1, 1, 1, 1))).unwrap();
    assert_eq!(scan.next_source(), Some(Source::Status));
    scan.feed(Ok(&status(1, 1))).unwrap();
    assert_eq!(scan.next_source(), Some(Source::Io));
    assert!(!scan.is_complete());
    scan.feed(Ok(&io_counters(1))).unwrap();
    assert_eq!(scan.next_source(), None);
    assert!(scan.is_complete());
    // A pass that wants nothing ignores what it is fed.
    scan.feed(Ok("nonsense")).unwrap();
    assert!(scan.is_complete());
    let (snapshot, ids) = scan.into_snapshot();
    assert_eq!(ids, vec![7]);
    assert_eq!(snapshot.sample.uptime, 100);
    assert_eq!(snapshot.threads.len(), 1);
}

#[test]
fn all_tracked_threads_are_read() {
    let mut meter = new_meter(1);
    meter.track_thread(3, "c");
    meter.track_thread(1, "a");
    meter.track_thread(2, "b");
    meter.track_thread(1, "again");
    assert_eq!(meter.thread_count(), 3);
    let mut scan = meter.scan(0, 0);
    let mut asked: Vec<u32> = Vec::new();
    while let Some(source) = scan.next_source() {
        if let Source::ThreadStat(tid) = source {
            asked.push(tid);
        }
        let text = match source {
            Source::Uptime => "1.00 1.00".to_string(),
            Source::Status => status(1, 1),
            Source::Io => io_counters(1),
            _ => stat(1, 1, 1, 1),
        };
        scan.feed(Ok(&text)).unwrap();
    }
    asked.sort();
    assert_eq!(asked, vec![1, 2, 3]);
}

fn failing_pass(meter: &mut Meter, fail_at: usize, read_fails: bool) -> (Error, Scan) {
    let mut scan = meter.scan(9, 9);
    let mut step = 0;
    loop {
        let source = scan.next_source().unwrap();
        let good = match source {
            Source::Uptime => "1.00 1.00".to_string(),
            Source::Status => status(1, 1),
            Source::Io => io_counters(1),
            _ => stat(1, 1, 1, 1),
        };
        let fed = if step != fail_at {
            scan.feed(Ok(&good))
        } else if read_fails {
            scan.feed(Err(io::Error::new(io::ErrorKind::NotFound, "gone")))
        } else {
            scan.feed(Ok("VmRSS: ? (\n"))
        };
        step += 1;
        if let Err(e) = fed {
            return (e, scan);
        }
    }
}

#[test]
fn a_read_that_fails_ends_the_pass_with_the_error_of_its_source() {
    let mut meter = new_meter(1);
    meter.track_thread(42, "answer");
    let (e, _) = failing_pass(&mut meter, 0, true);
    assert!(matches!(e, Error::Uptime(UptimeError::Io(ref io)) if io.kind() == io::ErrorKind::NotFound));
    let (e, _) = failing_pass(&mut meter, 1, true);
    assert!(matches!(e, Error::Stat(StatError::Io(_))));
    let (e, _) = failing_pass(&mut meter, 2, true);
    assert!(matches!(e, Error::ThreadStat(42, StatError::Io(_))));
    let (e, _) = failing_pass(&mut meter, 3, true);
    assert!(matches!(e, Error::Status(StatusError::Io(_))));
    let (e, _) = failing_pass(&mut meter, 4, true);
    assert!(matches!(e, Error::IoStat(self_meter::IoStatError::Io(_))));
}

#[test]
fn a_text_that_is_not_understood_ends_the_pass_with_the_error_of_its_source() {
    let mut meter = new_meter(1);
    meter.track_thread(42, "answer");
    let (e, _) = failing_pass(&mut meter, 0, false);
    assert!(matches!(e, Error::Uptime(UptimeError::BadFormat)));
    let (e, _) = failing_pass(&mut meter, 1, false);
    assert!(matches!(e, Error::Stat(StatError::BadFormat)));
    let (e, _) = failing_pass(&mut meter, 2, false);
    assert!(matches!(e, Error::ThreadStat(42, StatError::BadFormat)));
    let (e, _) = failing_pass(&mut meter, 3, false);
    assert!(matches!(e, Error::Status(StatusError::ParseInt(_))));
    let (e, scan) = {
        let mut scan = meter.scan(9, 9);
        scan.feed(Ok("1.00 1.00")).unwrap();
        scan.feed(Ok(&stat(1, 1, 1, 1))).unwrap();
        scan.feed(Ok(&stat(1, 1, 1, 1))).unwrap();
        scan.feed(Ok(&status(1, 1))).unwrap();
        (scan.feed(Ok("rchar: many\n")).unwrap_err(), scan)
    };
    assert!(matches!(e, Error::IoStat(self_meter::IoStatError::ParseInt(_))));
    assert_eq!(scan.stage(), Stage::Failed);
}

#[test]
fn a_failed_pass_leaves_the_meter_as_it_was() {
    let mut meter = new_meter(1);
    meter.track_thread(42, "answer");
    assert!(pass(&mut meter, 0, "100.00 0.00", 1, 10));
    assert!(pass(&mut meter, 1000, "101.00 0.00", 2, 20));
    for fail_at in 0..5 {
        let (_, scan) = failing_pass(&mut meter, fail_at, fail_at % 2 == 0);
        assert_eq!(scan.stage(), Stage::Failed);
        assert_eq!(scan.next_source(), None);
        assert!(!meter.commit(scan));
        assert_eq!(meter.snapshot_count(), 2);
        let r = meter.report().unwrap();
        assert_eq!(r.timestamp, 1_700_000_001_000);
        assert_eq!(r.memory_rss_peak, 20 * 1024);
    }
    // A pass that was not fed to its end is dropped as well.
    let mut scan = meter.scan(5, 5);
    scan.feed(Ok("1.00 1.00")).unwrap();
    assert!(!meter.commit(scan));
    assert_eq!(meter.snapshot_count(), 2);
}

#[test]
fn a_failed_pass_stays_failed() {
    let mut meter = new_meter(1);
    let (_, mut scan) = failing_pass(&mut meter, 1, true);
    scan.feed(Ok(&stat(1, 1, 1, 1))).unwrap();
    scan.feed(Ok(&status(1, 1))).unwrap();
    scan.feed(Ok(&io_counters(1))).unwrap();
    assert_eq!(scan.stage(), Stage::Failed);
    assert!(!meter.commit(scan));
    assert_eq!(meter.snapshot_count(), 0);
}

fn thread_entries(meter: &Meter) -> Vec<(String, ThreadReport)> {
    let mut it = meter.thread_report().unwrap();
    let mut found = Vec::new();
    while let Some((name, report)) = it.next() {
        found.push((name.to_string(), report));
    }
    assert!(it.next().is_none());
    found.sort_by(|a, b| a.0.cmp(&b.0));
    found
}

#[test]
fn thread_report_gives_the_usage_of_each_thread() {
    let mut meter = new_meter(1);
    meter.track_thread(10, "ten");
    meter.track_thread(20, "twenty");
    assert!(pass(&mut meter, 0, "100.00 0.00", 5, 0));
    assert!(pass(&mut meter, 1000, "102.50 0.00", 8, 0));
    let found = thread_entries(&meter);
    assert_eq!(found.len(), 2);
    for (name, report) in found {
        assert!(name == "ten" || name == "twenty");
        // user ticks grew by 3, system ticks by 6, over 250 hundredths.
        assert_eq!(report.user_cpu, Ratio { num: 3, den: 250 });
        assert_eq!(report.system_cpu, Ratio { num: 6, den: 250 });
        assert_eq!(report.cpu_usage, Ratio { num: 9, den: 250 });
    }
}

#[test]
fn thread_in_fewer_than_two_snapshots_is_not_reported() {
    let mut meter = new_meter(1);
    meter.track_thread(10, "ten");
    assert!(pass(&mut meter, 0, "100.00 0.00", 5, 0));
    meter.track_thread(20, "twenty");
    assert!(thread_entries_or_none(&meter).is_none());
    assert!(pass(&mut meter, 1000, "101.00 0.00", 6, 0));
    let found = thread_entries(&meter);
    assert_eq!(found.len(), 1);
    assert_eq!(found[0].0, "ten");
    assert!(pass(&mut meter, 2000, "102.00 0.00", 7, 0));
    let found = thread_entries(&meter);
    assert_eq!(found.len(), 2);
    assert_eq!(found[0].0, "ten");
    assert_eq!(found[1].0, "twenty");
}

fn thread_entries_or_none(meter: &Meter) -> Option<usize> {
    meter.thread_report().map(|_| 0)
}

#[test]
fn untracked_thread_leaves_every_snapshot_and_the_report() {
    let mut meter = new_meter(1);
    meter.track_thread(10, "ten");
    meter.track_thread(20, "twenty");
    assert!(pass(&mut meter, 0, "100.00 0.00", 5, 0));
    assert!(pass(&mut meter, 1000, "101.00 0.00", 6, 0));
    assert_eq!(thread_entries(&meter).len(), 2);
    meter.untrack_thread(10);
    assert_eq!(meter.thread_count(), 1);
    assert_eq!(meter.snapshot_count(), 2);
    let found = thread_entries(&meter);
    assert_eq!(found.len(), 1);
    assert_eq!(found[0].0, "twenty");
    // Tracked again, the thread has no history: the old counters are gone.
    meter.track_thread(10, "ten again");
    let found = thread_entries(&meter);
    assert_eq!(found.len(), 1);
    assert_eq!(found[0].0, "twenty");
    assert!(pass(&mut meter, 2000, "102.00 0.00", 7, 0));
    assert_eq!(thread_entries(&meter).len(), 1);
    assert!(pass(&mut meter, 3000, "103.00 0.00", 8, 0));
    let found = thread_entries(&meter);
    assert_eq!(found.len(), 2);
    assert_eq!(found[0].0, "ten again");
    // Untracking a thread that is not tracked changes nothing.
    meter.untrack_thread(99);
    assert_eq!(meter.thread_count(), 2);
    assert_eq!(thread_entries(&meter).len(), 2);
}

#[test]
fn thread_untracked_during_a_pass_does_not_enter_the_history() {
    let mut meter = new_meter(1);
    meter.track_thread(10, "ten");
    meter.track_thread(20, "twenty");
    for round in 0..2u64 {
        let mut scan = meter.scan(round, round);
        while let Some(source) = scan.next_source() {
            let text = match source {
                Source::Uptime => format!("{}.00 0.00", 100 + round),
                Source::Status => status(1, 1),
                Source::Io => io_counters(1),
                _ => stat(round, round, 0, 0),
            };
            scan.feed(Ok(&text)).unwrap();
        }
        if round == 1 {
            meter.untrack_thread(20);
            meter.track_thread(20, "twenty");
        }
        assert!(meter.commit(scan));
    }
    let found = thread_entries(&meter);
    assert_eq!(found.len(), 1);
    assert_eq!(found[0].0, "ten");
}

#[test]
fn memory_status_round_trip() {
    let mut meter = new_meter(1);
    let mut last_rss = 0;
    for round in 0..2 {
        let mut scan = meter.scan(round, round);
        while let Some(source) = scan.next_source() {
            let text = match source {
                Source::Uptime => "100.00 0.00".to_string(),
                Source::Status => "VmRSS:\t    1024 kB\n".to_string(),
                Source::Io => io_counters(1),
                _ => stat(1, 1, 0, 0),
            };
            scan.feed(Ok(&text)).unwrap();
        }
        let (snapshot, _) = scan.into_snapshot();
        last_rss = snapshot.sample.memory.rss;
    }
    assert_eq!(last_rss, 1048576);
    let mut scan = meter.scan(0, 0);
    scan.feed(Ok("100.00 0.00")).unwrap();
    scan.feed(Ok(&stat(1, 1, 0, 0))).unwrap();
    let e = scan.feed(Ok("VmRSS:\t    1024 mB\n")).unwrap_err();
    assert!(matches!(e, Error::Status(StatusError::BadUnit)));
}
