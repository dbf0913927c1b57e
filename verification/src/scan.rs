//! One sampling pass, as a sequence of requests for text and of answers.
//!
//! The pass reads nothing by itself. It names the source that it wants
//! next; its owner reads that source and feeds the text, or the failure of
//! the read, back. The sources come in a fixed order: the system uptime, the
//! CPU statistics of the process, those of each tracked thread, the memory
//! status, the I/O counters. The first failure ends the pass, and a pass
//! that has failed can never be committed to a meter.
use vstd::prelude::*;
use vstd::std_specs::hash::*;
use vstd::string::*;
use crate::counters::ThreadInfo;
use crate::error::{Error, IoStatError, StatError, StatusError, UptimeError};
use crate::parse::{
    io_text, parse_io, parse_stat, parse_status, parse_uptime_line, stat_line, status_text,
    uptime_line,
};
use crate::snapshot::{Sample, Snapshot};
use crate::Pid;

verus! {

broadcast use group_hash_axioms;

/// A source of text that a pass asks its owner to read.
#[derive(Debug, Clone, Copy, PartialEq, Eq, Structural)]
pub enum Source {
    /// The uptime and idle time of the system.
    Uptime,
    /// The CPU statistics of the process.
    Stat,
    /// The CPU statistics of the thread with this id.
    ThreadStat(Pid),
    /// The memory status of the process.
    Status,
    /// The I/O counters of the process.
    Io,
}

/// How far a pass has come.
#[derive(Debug, Clone, Copy, PartialEq, Eq, Structural)]
pub enum Stage {
    /// The uptime source is wanted.
    Uptime,
    /// The CPU statistics of the process are wanted.
    Stat,
    /// The CPU statistics of a tracked thread are wanted.
    Threads,
    /// The memory status is wanted.
    Status,
    /// The I/O counters are wanted.
    Io,
    /// Every source was read and understood.
    Complete,
    /// A source could not be read or understood.
    Failed,
}

/// A sampling pass in progress: the snapshot that it fills, and how far it
/// has come.
#[derive(Debug)]
pub struct Scan {
    stage: Stage,
    snapshot: Snapshot,
    ids: Vec<Pid>,
    next: usize,
}

/// The mathematical value of a pass.
pub struct ScanView {
    /// How far the pass has come.
    pub stage: Stage,
    /// What the pass has measured of the system and of the process so far.
    pub sample: Sample,
    /// The CPU time of each thread of the pass: what was read for those
    /// whose turn has been, zero for the others.
    pub threads: Map<Pid, ThreadInfo>,
    /// The threads of the pass, in the order in which they are read.
    pub ids: Seq<Pid>,
    /// The number of threads that have been read.
    pub next: nat,
}

/// What the owner of a pass found when it read a source: the text, or the
/// failure of the read.
pub open spec fn reading_of(reading: Result<&str, std::io::Error>) -> Result<
    Seq<u8>,
    std::io::Error,
> {
    match reading {
        Ok(text) => Ok(text.spec_bytes()),
        Err(e) => Err(e),
    }
}

impl ScanView {
    /// Validity of a pass: no thread occurs twice, the snapshot holds the
    /// threads of the pass and no others, and the number of threads that
    /// were read fits the stage.
    pub open spec fn wf(self) -> bool {
        &&& self.ids.no_duplicates()
        &&& self.threads.dom() == self.ids.to_set()
        &&& self.next <= self.ids.len()
        &&& (self.stage is Uptime || self.stage is Stat) ==> self.next == 0
        &&& self.stage is Threads ==> self.next < self.ids.len()
        &&& (self.stage is Status || self.stage is Io || self.stage is Complete) ==> self.next
            == self.ids.len()
    }

    /// The source that the pass wants next, if it wants any.
    pub open spec fn request(self) -> Option<Source> {
        match self.stage {
            Stage::Uptime => Some(Source::Uptime),
            Stage::Stat => Some(Source::Stat),
            Stage::Threads => Some(Source::ThreadStat(self.ids[self.next as int])),
            Stage::Status => Some(Source::Status),
            Stage::Io => Some(Source::Io),
            Stage::Complete => None,
            Stage::Failed => None,
        }
    }

    /// The pass after a failure: nothing but the stage changes.
    pub open spec fn failed(self) -> ScanView {
        ScanView { stage: Stage::Failed, ..self }
    }

    /// The stage that follows when `read` threads have been read.
    pub open spec fn stage_after_threads(self, read: nat) -> Stage {
        if read < self.ids.len() {
            Stage::Threads
        } else {
            Stage::Status
        }
    }

    /// The step of a pass: from the pass and what its owner found at the
    /// source that the pass wanted, to the pass after it and the outcome.
    ///
    /// A read that failed and a text that cannot be understood both end the
    /// pass with the error of that source. A text that is understood sets
    /// the counters of its source and moves the pass on. A pass that wants
    /// nothing ignores what it is fed.
    pub open spec fn advance(self, reading: Result<Seq<u8>, std::io::Error>) -> (
        ScanView,
        Result<(), Error>,
    ) {
        match self.stage {
            Stage::Uptime => match reading {
                Err(e) => (self.failed(), Err(Error::Uptime(UptimeError::Io(e)))),
                Ok(text) => match uptime_line(text) {
                    Err(e) => (self.failed(), Err(Error::Uptime(e))),
                    Ok((uptime, idle_time)) => (
                        ScanView {
                            stage: Stage::Stat,
                            sample: Sample { uptime, idle_time, ..self.sample },
                            ..self
                        },
                        Ok(()),
                    ),
                },
            },
            Stage::Stat => match reading {
                Err(e) => (self.failed(), Err(Error::Stat(StatError::Io(e)))),
                Ok(text) => match stat_line(text) {
                    Err(e) => (self.failed(), Err(Error::Stat(e))),
                    Ok(process) => (
                        ScanView {
                            stage: self.stage_after_threads(0),
                            sample: Sample { process, ..self.sample },
                            ..self
                        },
                        Ok(()),
                    ),
                },
            },
            Stage::Threads => {
                let tid = self.ids[self.next as int];
                match reading {
                    Err(e) => (self.failed(), Err(Error::ThreadStat(tid, StatError::Io(e)))),
                    Ok(text) => match stat_line(text) {
                        Err(e) => (self.failed(), Err(Error::ThreadStat(tid, e))),
                        Ok(info) => (
                            ScanView {
                                stage: self.stage_after_threads(self.next + 1),
                                threads: self.threads.insert(tid, info),
                                next: self.next + 1,
                                ..self
                            },
                            Ok(()),
                        ),
                    },
                }
            },
            Stage::Status => match reading {
                Err(e) => (self.failed(), Err(Error::Status(StatusError::Io(e)))),
                Ok(text) => match status_text(text, self.sample.memory) {
                    Err(e) => (self.failed(), Err(Error::Status(e))),
                    Ok(memory) => (
                        ScanView {
                            stage: Stage::Io,
                            sample: Sample { memory, ..self.sample },
                            ..self
                        },
                        Ok(()),
                    ),
                },
            },
            Stage::Io => match reading {
                Err(e) => (self.failed(), Err(Error::IoStat(IoStatError::Io(e)))),
                Ok(text) => match io_text(text, self.sample.io) {
                    Err(e) => (self.failed(), Err(Error::IoStat(e))),
                    Ok(io) => (
                        ScanView {
                            stage: Stage::Complete,
                            sample: Sample { io, ..self.sample },
                            ..self
                        },
                        Ok(()),
                    ),
                },
            },
            Stage::Complete => (self, Ok(())),
            Stage::Failed => (self, Ok(())),
        }
    }
}

impl View for Scan {
    type V = ScanView;

    closed spec fn view(&self) -> ScanView {
        ScanView {
            stage: self.stage,
            sample: self.snapshot.sample,
            threads: self.snapshot.threads@,
            ids: self.ids@,
            next: self.next as nat,
        }
    }
}

impl Scan {
    /// A pass that has read nothing yet. It fills `snapshot`, and reads the
    /// threads that `ids` lists, which are those that the snapshot holds.
    pub(crate) fn begin(snapshot: Snapshot, ids: Vec<Pid>) -> (r: Scan)
        requires
            ids@.no_duplicates(),
            snapshot@.threads.dom() == ids@.to_set(),
        ensures
            r@.wf(),
            r@ == (ScanView {
                stage: Stage::Uptime,
                sample: snapshot@.sample,
                threads: snapshot@.threads,
                ids: ids@,
                next: 0,
            }),
    {
        Scan { stage: Stage::Uptime, snapshot, ids, next: 0 }
    }

    /// How far the pass has come.
    pub fn stage(&self) -> (r: Stage)
        ensures
            r == self@.stage,
    {
        self.stage
    }

    /// Whether every source was read and understood.
    pub fn is_complete(&self) -> (r: bool)
        ensures
            r == (self@.stage is Complete),
    {
        match self.stage {
            Stage::Complete => true,
            _ => false,
        }
    }

    /// The source that the pass wants its owner to read next. A pass that
    /// is complete or has failed wants none.
    pub fn next_source(&self) -> (r: Option<Source>)
        requires
            self@.wf(),
        ensures
            r == self@.request(),
    {
        match self.stage {
            Stage::Uptime => Some(Source::Uptime),
            Stage::Stat => Some(Source::Stat),
            Stage::Threads => Some(Source::ThreadStat(self.ids[self.next])),
            Stage::Status => Some(Source::Status),
            Stage::Io => Some(Source::Io),
            Stage::Complete => None,
            Stage::Failed => None,
        }
    }

    /// Hands the pass what its owner found at the source that the pass
    /// wanted: the text, or the failure of the read.
    pub fn feed(&mut self, reading: Result<&str, std::io::Error>) -> (r: Result<(), Error>)
        requires
            old(self)@.wf(),
        ensures
            final(self)@.wf(),
            (final(self)@, r) == old(self)@.advance(reading_of(reading)),
    {
        match self.stage {
            Stage::Uptime => {
                let text = match reading {
                    Ok(text) => text,
                    Err(e) => {
                        self.stage = Stage::Failed;
                        return Err(Error::Uptime(UptimeError::Io(e)));
                    },
                };
                match parse_uptime_line(text) {
                    Ok((uptime, idle_time)) => {
                        self.snapshot.sample.uptime = uptime;
                        self.snapshot.sample.idle_time = idle_time;
                        self.stage = Stage::Stat;
                        Ok(())
                    },
                    Err(e) => {
                        self.stage = Stage::Failed;
                        Err(Error::Uptime(e))
                    },
                }
            },
            Stage::Stat => {
                let text = match reading {
                    Ok(text) => text,
                    Err(e) => {
                        self.stage = Stage::Failed;
                        return Err(Error::Stat(StatError::Io(e)));
                    },
                };
                match parse_stat(text) {
                    Ok(process) => {
                        self.snapshot.sample.process = process;
                        self.stage = if self.ids.len() > 0 {
                            Stage::Threads
                        } else {
                            Stage::Status
                        };
                        Ok(())
                    },
                    Err(e) => {
                        self.stage = Stage::Failed;
                        Err(Error::Stat(e))
                    },
                }
            },
            Stage::Threads => {
                let tid = self.ids[self.next];
                let text = match reading {
                    Ok(text) => text,
                    Err(e) => {
                        self.stage = Stage::Failed;
                        return Err(Error::ThreadStat(tid, StatError::Io(e)));
                    },
                };
                match parse_stat(text) {
                    Ok(info) => {
                        proof {
                            assert(self.ids@.to_set().contains(tid));
                        }
                        self.snapshot.threads.insert(tid, info);
                        assert(self.next < self.ids.len());
                        self.next = self.next + 1;
                        self.stage = if self.next < self.ids.len() {
                            Stage::Threads
                        } else {
                            Stage::Status
                        };
                        proof {
                            assert(self@.threads.dom() =~= old(self)@.threads.dom());
                        }
                        Ok(())
                    },
                    Err(e) => {
                        self.stage = Stage::Failed;
                        Err(Error::ThreadStat(tid, e))
                    },
                }
            },
            Stage::Status => {
                let text = match reading {
                    Ok(text) => text,
                    Err(e) => {
                        self.stage = Stage::Failed;
                        return Err(Error::Status(StatusError::Io(e)));
                    },
                };
                match parse_status(text, self.snapshot.sample.memory) {
                    Ok(memory) => {
                        self.snapshot.sample.memory = memory;
                        self.stage = Stage::Io;
                        Ok(())
                    },
                    Err(e) => {
                        self.stage = Stage::Failed;
                        Err(Error::Status(e))
                    },
                }
            },
            Stage::Io => {
                let text = match reading {
                    Ok(text) => text,
                    Err(e) => {
                        self.stage = Stage::Failed;
                        return Err(Error::IoStat(IoStatError::Io(e)));
                    },
                };
                match parse_io(text, self.snapshot.sample.io) {
                    Ok(io) => {
                        self.snapshot.sample.io = io;
                        self.stage = Stage::Complete;
                        Ok(())
                    },
                    Err(e) => {
                        self.stage = Stage::Failed;
                        Err(Error::IoStat(e))
                    },
                }
            },
            Stage::Complete => Ok(()),
            Stage::Failed => Ok(()),
        }
    }

    /// Ends the pass and hands out the snapshot that it filled, with the
    /// threads of the pass in the order in which they were read.
    pub fn into_snapshot(self) -> (r: (Snapshot, Vec<Pid>))
        ensures
            r.0@.sample == self@.sample,
            r.0@.threads == self@.threads,
            r.1@ == self@.ids,
    {
        (self.snapshot, self.ids)
    }
}

} // verus!
