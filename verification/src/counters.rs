//! The counters that one sampling pass captures.
use vstd::prelude::*;

verus! {

/// Cumulative CPU time of a process or a thread, in clock ticks.
#[derive(Debug, Clone, Copy, PartialEq, Eq, Structural)]
pub struct ThreadInfo {
    /// Ticks spent in user mode.
    pub user_time: u64,
    /// Ticks spent in kernel mode.
    pub system_time: u64,
    /// User-mode ticks of the children that were waited for.
    pub child_user_time: u64,
    /// Kernel-mode ticks of the children that were waited for.
    pub child_system_time: u64,
}

impl ThreadInfo {
    /// Counters that have seen no tick yet.
    pub open spec fn zero() -> ThreadInfo {
        ThreadInfo { user_time: 0, system_time: 0, child_user_time: 0, child_system_time: 0 }
    }

    /// Counters that have seen no tick yet.
    pub fn new() -> (r: ThreadInfo)
        ensures
            r == ThreadInfo::zero(),
    {
        ThreadInfo { user_time: 0, system_time: 0, child_user_time: 0, child_system_time: 0 }
    }

    /// Ticks of the entity itself: user and kernel mode together.
    pub open spec fn own_ticks(self) -> int {
        self.user_time + self.system_time
    }

    /// Ticks of the entity and of the children that it waited for.
    pub open spec fn gross_ticks(self) -> int {
        self.user_time + self.system_time + self.child_user_time + self.child_system_time
    }
}

/// Memory use of the process, in bytes.
#[derive(Debug, Clone, Copy, PartialEq, Eq, Structural)]
pub struct Memory {
    /// Resident set size.
    pub rss: u64,
    /// Size of the virtual address space.
    pub virtual_size: u64,
    /// Largest size that the virtual address space has had.
    pub virtual_peak: u64,
    /// Size of what is swapped out.
    pub swap: u64,
}

impl Memory {
    /// No memory in use.
    pub open spec fn zero() -> Memory {
        Memory { rss: 0, virtual_size: 0, virtual_peak: 0, swap: 0 }
    }

    /// No memory in use.
    pub fn new() -> (r: Memory)
        ensures
            r == Memory::zero(),
    {
        Memory { rss: 0, virtual_size: 0, virtual_peak: 0, swap: 0 }
    }
}

/// Cumulative I/O of the process.
#[derive(Debug, Clone, Copy, PartialEq, Eq, Structural)]
pub struct IoCounters {
    /// Bytes read, whatever they were read from.
    pub read_bytes: u64,
    /// Bytes written, whatever they were written to.
    pub write_bytes: u64,
    /// Read system calls.
    pub read_ops: u64,
    /// Write system calls.
    pub write_ops: u64,
    /// Bytes fetched from block devices.
    pub read_disk_bytes: u64,
    /// Bytes sent to block devices.
    pub write_disk_bytes: u64,
    /// Bytes whose write-out was cancelled.
    pub write_cancelled_bytes: u64,
}

impl IoCounters {
    /// No I/O done.
    pub open spec fn zero() -> IoCounters {
        IoCounters {
            read_bytes: 0,
            write_bytes: 0,
            read_ops: 0,
            write_ops: 0,
            read_disk_bytes: 0,
            write_disk_bytes: 0,
            write_cancelled_bytes: 0,
        }
    }

    /// No I/O done.
    pub fn new() -> (r: IoCounters)
        ensures
            r == IoCounters::zero(),
    {
        IoCounters {
            read_bytes: 0,
            write_bytes: 0,
            read_ops: 0,
            write_ops: 0,
            read_disk_bytes: 0,
            write_disk_bytes: 0,
            write_cancelled_bytes: 0,
        }
    }
}

} // verus!
