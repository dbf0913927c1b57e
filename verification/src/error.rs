//! The failures of a sampling pass, one type per data source.
use vstd::prelude::*;

verus! {

/// `std::io::Error`, the error of a read that failed. The library never
/// looks inside a value of this type: it only carries it from the owner of
/// a pass, whose read failed, into the error that the pass ends with.
#[verifier::external_type_specification]
#[verifier::external_body]
pub struct ExIoError(std::io::Error);

/// Why a piece of text is not an unsigned 64-bit decimal number.
#[derive(Debug, Clone, Copy, PartialEq, Eq, Structural)]
pub enum ParseIntError {
    /// The text is empty.
    Empty,
    /// The text holds something that is not a decimal digit.
    InvalidDigit,
    /// The number does not fit in 64 bits.
    PosOverflow,
}

/// Failure to read or understand the system uptime source.
#[derive(Debug)]
pub enum UptimeError {
    Io(std::io::Error),
    ParseInt(ParseIntError),
    BadFormat,
}

/// Failure to read or understand a per-task CPU statistics line.
#[derive(Debug)]
pub enum StatError {
    Io(std::io::Error),
    ParseInt(ParseIntError),
    BadFormat,
}

/// Failure to read or understand the I/O counters source.
#[derive(Debug)]
pub enum IoStatError {
    Io(std::io::Error),
    ParseInt(ParseIntError),
}

/// Failure to read or understand the memory status source.
#[derive(Debug)]
pub enum StatusError {
    Io(std::io::Error),
    ParseInt(ParseIntError),
    BadUnit,
    BadFormat,
}

/// Failure of a sampling pass or of the construction of a meter.
#[derive(Debug)]
pub enum Error {
    /// The discovery of the CPUs came back with this count, which is zero
    /// or beyond 32 bits.
    Cpu(usize),
    /// The uptime source failed.
    Uptime(UptimeError),
    /// The memory status source failed.
    Status(StatusError),
    /// The CPU statistics of the process failed.
    Stat(StatError),
    /// The CPU statistics of the tracked thread with this id failed.
    ThreadStat(u32, StatError),
    /// The I/O counters source failed.
    IoStat(IoStatError),
}

} // verus!
