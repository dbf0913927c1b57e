//! The parsers that turn the text of the operating system's counter sources
//! into typed counters. Each is a function of the text alone.
use vstd::prelude::*;
use vstd::slice::*;
use vstd::string::*;
use crate::counters::{IoCounters, Memory, ThreadInfo};
use crate::error::{IoStatError, ParseIntError, StatError, StatusError, UptimeError};
use crate::text::{
    after, all_digits, before, bytes_eq, decimal, digits_value, find_byte, is_digit,
    lemma_unsigned_decimal, lemma_word_from_next, nth_word, parse_digits, parse_u64, rfind_byte,
    split_once, trim, trimmed, unsigned_decimal, word, word_from,
};

verus! {

/// Whether `v` is a number of seconds with one or two decimals, with its
/// dot at index `dot`: one or more digits, the dot, then one or two digits,
/// and nothing else.
pub open spec fn is_uptime_text(v: Seq<u8>, dot: int) -> bool {
    &&& 0 < dot < v.len()
    &&& v[dot] == 0x2e
    &&& (v.len() - dot - 1 == 1 || v.len() - dot - 1 == 2)
    &&& all_digits(v.take(dot))
    &&& all_digits(v.skip(dot + 1))
}

/// The number of hundredths of a second that a number of seconds with its
/// dot at index `dot` writes: a hundred times the part before the dot, and
/// the part behind it, which counts tenths where it is a single digit.
pub open spec fn uptime_hundredths(v: Seq<u8>, dot: int) -> nat {
    digits_value(v.take(dot)) * 100 + if v.len() - dot - 1 == 1 {
        digits_value(v.skip(dot + 1)) * 10
    } else {
        digits_value(v.skip(dot + 1))
    }
}

/// What well-formed text with its dot at index `dot` is read as: the number
/// of hundredths that it writes, or an overflow where that number exceeds
/// 64 bits.
pub open spec fn uptime_of(v: Seq<u8>, dot: int) -> Result<u64, UptimeError> {
    if uptime_hundredths(v, dot) > u64::MAX {
        Err(UptimeError::ParseInt(ParseIntError::PosOverflow))
    } else {
        Ok(uptime_hundredths(v, dot) as u64)
    }
}

/// What a number of seconds with one or two decimals means in hundredths
/// of a second.
///
/// The text is one or more digits, a dot, and one or two digits. Text
/// without a dot, with nothing before its first dot, or with no byte or
/// more than two behind it is a bad format. The parts before and behind the
/// dot are numbers in digits alone, and the first one is read first; a
/// byte that is no digit is a parse error. A single decimal counts tenths.
/// A value beyond 64 bits is an overflow.
pub open spec fn uptime_value(v: Seq<u8>) -> Result<u64, UptimeError> {
    match v.index_of_first(0x2e) {
        None => Err(UptimeError::BadFormat),
        Some(dot) => {
            let decimals = v.len() - dot - 1;
            if dot == 0 || (decimals != 1 && decimals != 2) {
                Err(UptimeError::BadFormat)
            } else {
                match unsigned_decimal(v.take(dot)) {
                    Err(e) => Err(UptimeError::ParseInt(e)),
                    Ok(whole) => match unsigned_decimal(v.skip(dot + 1)) {
                        Err(e) => Err(UptimeError::ParseInt(e)),
                        Ok(part) => {
                            let hundredths = if decimals == 1 {
                                part * 10
                            } else {
                                part as int
                            };
                            if whole * 100 + hundredths > u64::MAX {
                                Err(UptimeError::ParseInt(ParseIntError::PosOverflow))
                            } else {
                                Ok((whole * 100 + hundredths) as u64)
                            }
                        },
                    },
                }
            }
        },
    }
}

/// Text that is one or more digits, a dot, and one or two digits is read
/// as the number of hundredths that it writes, or as an overflow where that
/// number exceeds 64 bits.
pub proof fn lemma_uptime_of_well_formed_text(v: Seq<u8>, dot: int)
    requires
        is_uptime_text(v, dot),
    ensures
        uptime_value(v) == uptime_of(v, dot),
{
    let before = v.take(dot);
    let behind = v.skip(dot + 1);
    v.index_of_first_ensures(0x2e);
    assert(v.contains(0x2e));
    assert(v.index_of_first(0x2e) == Some(dot)) by {
        let first = v.index_of_first(0x2e).unwrap();
        if first < dot {
            assert(is_digit(before[first]));
        }
    }
    lemma_unsigned_decimal(before);
    lemma_unsigned_decimal(behind);
    assert(digits_value(behind) <= 99) by {
        reveal_with_fuel(digits_value, 3);
        if behind.len() == 2 {
            assert(is_digit(behind[0]) && is_digit(behind[1]));
            assert(behind.drop_last().len() == 1);
            assert(behind.drop_last().last() == behind[0]);
        } else {
            assert(is_digit(behind[0]));
        }
    }
}

/// Only text that is one or more digits, a dot, and one or two digits is
/// read as a number of seconds: whatever else the text is, there is an
/// error and never a number.
pub proof fn lemma_uptime_only_of_well_formed_text(v: Seq<u8>)
    requires
        uptime_value(v) is Ok,
    ensures
        exists|dot: int| is_uptime_text(v, dot),
{
    v.index_of_first_ensures(0x2e);
    let dot = v.index_of_first(0x2e).unwrap();
    lemma_unsigned_decimal(v.take(dot));
    lemma_unsigned_decimal(v.skip(dot + 1));
    assert(is_uptime_text(v, dot));
}

/// What the uptime source means: its first two words are the uptime and the
/// idle time. Both words must be there before either is read.
pub open spec fn uptime_line(t: Seq<u8>) -> Result<(u64, u64), UptimeError> {
    match (word(t, 0), word(t, 1)) {
        (Some(first), Some(second)) => match uptime_value(first) {
            Err(e) => Err(e),
            Ok(uptime) => match uptime_value(second) {
                Err(e) => Err(e),
                Ok(idle) => Ok((uptime, idle)),
            },
        },
        _ => Err(UptimeError::BadFormat),
    }
}

/// Reads a number of seconds with one or two decimals as hundredths of a
/// second. There is a number exactly where the text is one or more digits,
/// a dot, and one or two digits, and its hundredths fit in 64 bits.
pub fn parse_uptime(value: &str) -> (r: Result<u64, UptimeError>)
    ensures
        r == uptime_value(value.spec_bytes()),
        r is Ok ==> exists|dot: int| is_uptime_text(value.spec_bytes(), dot),
        forall|dot: int| #[trigger]
            is_uptime_text(value.spec_bytes(), dot) ==> r == uptime_of(value.spec_bytes(), dot),
{
    parse_uptime_bytes(value.as_bytes())
}

/// Reads a number of seconds with one or two decimals as hundredths of a
/// second. There is a number exactly where the text is one or more digits,
/// a dot, and one or two digits, and its hundredths fit in 64 bits.
pub fn parse_uptime_bytes(v: &[u8]) -> (r: Result<u64, UptimeError>)
    ensures
        r == uptime_value(v@),
        r is Ok ==> exists|dot: int| is_uptime_text(v@, dot),
        forall|dot: int| #[trigger] is_uptime_text(v@, dot) ==> r == uptime_of(v@, dot),
{
    proof {
        if uptime_value(v@) is Ok {
            lemma_uptime_only_of_well_formed_text(v@);
        }
        assert forall|dot: int| #[trigger] is_uptime_text(v@, dot) implies uptime_value(v@)
            == uptime_of(v@, dot) by {
            lemma_uptime_of_well_formed_text(v@, dot);
        }
    }
    let dot = match find_byte(v, 0x2e) {
        Some(dot) => dot,
        None => {
            return Err(UptimeError::BadFormat);
        },
    };
    let decimals = v.len() - dot - 1;
    if dot == 0 || (decimals != 1 && decimals != 2) {
        return Err(UptimeError::BadFormat);
    }
    let whole = match parse_digits(slice_subrange(v, 0, dot)) {
        Ok(whole) => whole,
        Err(e) => {
            return Err(UptimeError::ParseInt(e));
        },
    };
    let part = match parse_digits(slice_subrange(v, dot + 1, v.len())) {
        Ok(part) => part,
        Err(e) => {
            return Err(UptimeError::ParseInt(e));
        },
    };
    let total: u128 = if decimals == 1 {
        whole as u128 * 100 + part as u128 * 10
    } else {
        whole as u128 * 100 + part as u128
    };
    if total > u64::MAX as u128 {
        Err(UptimeError::ParseInt(ParseIntError::PosOverflow))
    } else {
        Ok(total as u64)
    }
}

/// Reads the uptime source: the uptime and the idle time of the system, in
/// hundredths of a second.
pub fn parse_uptime_line(text: &str) -> (r: Result<(u64, u64), UptimeError>)
    ensures
        r == uptime_line(text.spec_bytes()),
{
    let t = text.as_bytes();
    let first = match nth_word(t, 0, 0) {
        Some((start, end)) => slice_subrange(t, start, end),
        None => {
            return Err(UptimeError::BadFormat);
        },
    };
    let second = match nth_word(t, 0, 1) {
        Some((start, end)) => slice_subrange(t, start, end),
        None => {
            return Err(UptimeError::BadFormat);
        },
    };
    let uptime = match parse_uptime_bytes(first) {
        Ok(uptime) => uptime,
        Err(e) => {
            return Err(e);
        },
    };
    let idle = match parse_uptime_bytes(second) {
        Ok(idle) => idle,
        Err(e) => {
            return Err(e);
        },
    };
    Ok((uptime, idle))
}

/// What the `n`-th word behind the task's name means as a counter: a word
/// that is missing is a bad format, one that is no number a parse error.
pub open spec fn stat_field(rest: Seq<u8>, n: nat) -> Result<u64, StatError> {
    match word(rest, n) {
        None => Err(StatError::BadFormat),
        Some(w) => match decimal(w) {
            Ok(v) => Ok(v),
            Err(e) => Err(StatError::ParseInt(e)),
        },
    }
}

/// What a per-task statistics line means. The name of the task may hold
/// parentheses and whitespace, so the words are counted behind the last
/// closing parenthesis. The twelfth to fifteenth of them are the user,
/// system, children's user and children's system ticks, read in this order.
pub open spec fn stat_line(t: Seq<u8>) -> Result<ThreadInfo, StatError> {
    match t.index_of_last(0x29) {
        None => Err(StatError::BadFormat),
        Some(paren) => {
            let rest = t.skip(paren + 1);
            match stat_field(rest, 11) {
                Err(e) => Err(e),
                Ok(user_time) => match stat_field(rest, 12) {
                    Err(e) => Err(e),
                    Ok(system_time) => match stat_field(rest, 13) {
                        Err(e) => Err(e),
                        Ok(child_user_time) => match stat_field(rest, 14) {
                            Err(e) => Err(e),
                            Ok(child_system_time) => Ok(
                                ThreadInfo {
                                    user_time,
                                    system_time,
                                    child_user_time,
                                    child_system_time,
                                },
                            ),
                        },
                    },
                },
            }
        },
    }
}

/// Reads the word that follows the `n`-th word, which ended at `from`, as a
/// counter. With the counter comes the index at which its word ends.
fn read_stat_field(rest: &[u8], from: usize, skip: usize, Ghost(n): Ghost<nat>) -> (r: Result<
    (u64, usize),
    StatError,
>)
    requires
        from <= rest@.len(),
        word_from(rest@, 0, n) == word_from(rest@, from as int, skip as nat),
    ensures
        match r {
            Ok((v, end)) => {
                &&& stat_field(rest@, n) == Ok::<u64, StatError>(v)
                &&& end <= rest@.len()
                &&& word_from(rest@, 0, n + 1) == word_from(rest@, end as int, 0)
            },
            Err(e) => stat_field(rest@, n) == Err::<u64, StatError>(e),
        },
{
    match nth_word(rest, from, skip) {
        None => Err(StatError::BadFormat),
        Some((start, end)) => {
            proof {
                lemma_word_from_next(rest@, 0, n);
            }
            match parse_u64(slice_subrange(rest, start, end)) {
                Ok(v) => Ok((v, end)),
                Err(e) => Err(StatError::ParseInt(e)),
            }
        },
    }
}

/// Reads a per-task statistics line.
pub fn parse_stat(text: &str) -> (r: Result<ThreadInfo, StatError>)
    ensures
        r == stat_line(text.spec_bytes()),
{
    let t = text.as_bytes();
    let paren = match rfind_byte(t, 0x29) {
        Some(paren) => paren,
        None => {
            return Err(StatError::BadFormat);
        },
    };
    assert(paren < t.len());
    let rest = slice_subrange(t, paren + 1, t.len());
    let (user_time, end) = match read_stat_field(rest, 0, 11, Ghost(11)) {
        Ok(found) => found,
        Err(e) => {
            return Err(e);
        },
    };
    let (system_time, end) = match read_stat_field(rest, end, 0, Ghost(12)) {
        Ok(found) => found,
        Err(e) => {
            return Err(e);
        },
    };
    let (child_user_time, end) = match read_stat_field(rest, end, 0, Ghost(13)) {
        Ok(found) => found,
        Err(e) => {
            return Err(e);
        },
    };
    let (child_system_time, _) = match read_stat_field(rest, end, 0, Ghost(14)) {
        Ok(found) => found,
        Err(e) => {
            return Err(e);
        },
    };
    Ok(ThreadInfo { user_time, system_time, child_user_time, child_system_time })
}

/// What the value of a memory line means in bytes: a number, then the unit
/// `kB`. A value without a word is a bad format; the number is read before
/// the unit is looked at; any other unit, or none, is a bad unit.
pub open spec fn memory_value(v: Seq<u8>) -> Result<u64, StatusError> {
    match word(v, 0) {
        None => Err(StatusError::BadFormat),
        Some(w) => match decimal(w) {
            Err(e) => Err(StatusError::ParseInt(e)),
            Ok(kilobytes) => if word(v, 1) == Some("kB".spec_bytes()) {
                if kilobytes * 1024 > u64::MAX {
                    Err(StatusError::ParseInt(ParseIntError::PosOverflow))
                } else {
                    Ok((kilobytes * 1024) as u64)
                }
            } else {
                Err(StatusError::BadUnit)
            },
        },
    }
}

/// Reads the value of a memory line as a number of bytes.
pub fn parse_memory(value: &str) -> (r: Result<u64, StatusError>)
    ensures
        r == memory_value(value.spec_bytes()),
{
    parse_memory_bytes(value.as_bytes())
}

/// Reads the value of a memory line as a number of bytes.
pub fn parse_memory_bytes(v: &[u8]) -> (r: Result<u64, StatusError>)
    ensures
        r == memory_value(v@),
{
    let number = match nth_word(v, 0, 0) {
        Some((start, end)) => slice_subrange(v, start, end),
        None => {
            return Err(StatusError::BadFormat);
        },
    };
    let kilobytes = match parse_u64(number) {
        Ok(kilobytes) => kilobytes,
        Err(e) => {
            return Err(StatusError::ParseInt(e));
        },
    };
    let unit_is_kb = match nth_word(v, 0, 1) {
        Some((start, end)) => bytes_eq(slice_subrange(v, start, end), "kB".as_bytes()),
        None => false,
    };
    if !unit_is_kb {
        return Err(StatusError::BadUnit);
    }
    if kilobytes > u64::MAX / 1024 {
        Err(StatusError::ParseInt(ParseIntError::PosOverflow))
    } else {
        Ok(kilobytes * 1024)
    }
}

/// What one line of the memory status source does to the memory counters.
/// A line is a key, a colon and a value that ends at the next colon or at
/// the end of the line. The four keys `VmPeak`, `VmSize`, `VmRSS` and
/// `VmSwap` set their counter; a line with another key or without a colon
/// leaves the counters as they are.
pub open spec fn status_line(line: Seq<u8>, m: Memory) -> Result<Memory, StatusError> {
    match after(line, 0x3a) {
        None => Ok(m),
        Some(rest) => {
            let key = before(line, 0x3a);
            let value = memory_value(before(rest, 0x3a));
            if key == "VmPeak".spec_bytes() {
                match value {
                    Ok(v) => Ok(Memory { virtual_peak: v, ..m }),
                    Err(e) => Err(e),
                }
            } else if key == "VmSize".spec_bytes() {
                match value {
                    Ok(v) => Ok(Memory { virtual_size: v, ..m }),
                    Err(e) => Err(e),
                }
            } else if key == "VmRSS".spec_bytes() {
                match value {
                    Ok(v) => Ok(Memory { rss: v, ..m }),
                    Err(e) => Err(e),
                }
            } else if key == "VmSwap".spec_bytes() {
                match value {
                    Ok(v) => Ok(Memory { swap: v, ..m }),
                    Err(e) => Err(e),
                }
            } else {
                Ok(m)
            }
        },
    }
}

/// What the memory status source does to the memory counters: its lines,
/// which line feeds separate, are applied from the first to the last, and
/// the first line that fails decides the error.
pub open spec fn status_text(t: Seq<u8>, m: Memory) -> Result<Memory, StatusError>
    decreases t.len(),
{
    match status_line(before(t, 0x0a), m) {
        Err(e) => Err(e),
        Ok(next) => match after(t, 0x0a) {
            None => Ok(next),
            Some(rest) => {
                proof {
                    t.index_of_first_ensures(0x0a);
                }
                status_text(rest, next)
            },
        },
    }
}

/// Applies one line of the memory status source to the memory counters.
pub fn parse_status_line(line: &[u8], m: Memory) -> (r: Result<Memory, StatusError>)
    ensures
        r == status_line(line@, m),
{
    let (key, tail) = split_once(line, 0x3a);
    let rest = match tail {
        Some(rest) => rest,
        None => {
            return Ok(m);
        },
    };
    let (value, _) = split_once(rest, 0x3a);
    let mut next = m;
    if bytes_eq(key, "VmPeak".as_bytes()) {
        match parse_memory_bytes(value) {
            Ok(v) => {
                next.virtual_peak = v;
            },
            Err(e) => {
                return Err(e);
            },
        }
    } else if bytes_eq(key, "VmSize".as_bytes()) {
        match parse_memory_bytes(value) {
            Ok(v) => {
                next.virtual_size = v;
            },
            Err(e) => {
                return Err(e);
            },
        }
    } else if bytes_eq(key, "VmRSS".as_bytes()) {
        match parse_memory_bytes(value) {
            Ok(v) => {
                next.rss = v;
            },
            Err(e) => {
                return Err(e);
            },
        }
    } else if bytes_eq(key, "VmSwap".as_bytes()) {
        match parse_memory_bytes(value) {
            Ok(v) => {
                next.swap = v;
            },
            Err(e) => {
                return Err(e);
            },
        }
    }
    Ok(next)
}

/// Reads the memory status source into the memory counters `base`. A
/// counter whose key the text does not hold keeps the value it has in
/// `base`.
pub fn parse_status(text: &str, base: Memory) -> (r: Result<Memory, StatusError>)
    ensures
        r == status_text(text.spec_bytes(), base),
{
    let mut rest = text.as_bytes();
    let mut m = base;
    loop
        invariant
            status_text(text.spec_bytes(), base) == status_text(rest@, m),
        decreases rest@.len(),
    {
        let (line, tail) = split_once(rest, 0x0a);
        match parse_status_line(line, m) {
            Ok(next) => {
                m = next;
            },
            Err(e) => {
                return Err(e);
            },
        }
        match tail {
            Some(behind) => {
                proof {
                    rest@.index_of_first_ensures(0x0a);
                }
                rest = behind;
            },
            None => {
                return Ok(m);
            },
        }
    }
}

/// What the value of an I/O counter line means: a decimal number with
/// whitespace around it.
pub open spec fn io_value(v: Seq<u8>) -> Result<u64, IoStatError> {
    match decimal(trimmed(v)) {
        Ok(n) => Ok(n),
        Err(e) => Err(IoStatError::ParseInt(e)),
    }
}

/// What one line of the I/O counters source does to the I/O counters. A
/// line is a key, a colon and a value that ends at the next colon or at the
/// end of the line. Seven keys set their counter; a line with another key
/// or without a colon leaves the counters as they are.
pub open spec fn io_line(line: Seq<u8>, c: IoCounters) -> Result<IoCounters, IoStatError> {
    match after(line, 0x3a) {
        None => Ok(c),
        Some(rest) => {
            let key = before(line, 0x3a);
            let value = io_value(before(rest, 0x3a));
            if key == "rchar".spec_bytes() {
                match value {
                    Ok(v) => Ok(IoCounters { read_bytes: v, ..c }),
                    Err(e) => Err(e),
                }
            } else if key == "wchar".spec_bytes() {
                match value {
                    Ok(v) => Ok(IoCounters { write_bytes: v, ..c }),
                    Err(e) => Err(e),
                }
            } else if key == "syscr".spec_bytes() {
                match value {
                    Ok(v) => Ok(IoCounters { read_ops: v, ..c }),
                    Err(e) => Err(e),
                }
            } else if key == "syscw".spec_bytes() {
                match value {
                    Ok(v) => Ok(IoCounters { write_ops: v, ..c }),
                    Err(e) => Err(e),
                }
            } else if key == "read_bytes".spec_bytes() {
                match value {
                    Ok(v) => Ok(IoCounters { read_disk_bytes: v, ..c }),
                    Err(e) => Err(e),
                }
            } else if key == "write_bytes".spec_bytes() {
                match value {
                    Ok(v) => Ok(IoCounters { write_disk_bytes: v, ..c }),
                    Err(e) => Err(e),
                }
            } else if key == "cancelled_write_bytes".spec_bytes() {
                match value {
                    Ok(v) => Ok(IoCounters { write_cancelled_bytes: v, ..c }),
                    Err(e) => Err(e),
                }
            } else {
                Ok(c)
            }
        },
    }
}

/// What the I/O counters source does to the I/O counters: its lines, which
/// line feeds separate, are applied from the first to the last, and the
/// first line that fails decides the error.
pub open spec fn io_text(t: Seq<u8>, c: IoCounters) -> Result<IoCounters, IoStatError>
    decreases t.len(),
{
    match io_line(before(t, 0x0a), c) {
        Err(e) => Err(e),
        Ok(next) => match after(t, 0x0a) {
            None => Ok(next),
            Some(rest) => {
                proof {
                    t.index_of_first_ensures(0x0a);
                }
                io_text(rest, next)
            },
        },
    }
}

/// Reads the value of an I/O counter line.
pub fn parse_io_value(v: &[u8]) -> (r: Result<u64, IoStatError>)
    ensures
        r == io_value(v@),
{
    match parse_u64(trim(v)) {
        Ok(n) => Ok(n),
        Err(e) => Err(IoStatError::ParseInt(e)),
    }
}

/// Applies one line of the I/O counters source to the I/O counters.
pub fn parse_io_line(line: &[u8], c: IoCounters) -> (r: Result<IoCounters, IoStatError>)
    ensures
        r == io_line(line@, c),
{
    let (key, tail) = split_once(line, 0x3a);
    let rest = match tail {
        Some(rest) => rest,
        None => {
            return Ok(c);
        },
    };
    let (value, _) = split_once(rest, 0x3a);
    let mut next = c;
    if bytes_eq(key, "rchar".as_bytes()) {
        match parse_io_value(value) {
            Ok(v) => {
                next.read_bytes = v;
            },
            Err(e) => {
                return Err(e);
            },
        }
    } else if bytes_eq(key, "wchar".as_bytes()) {
        match parse_io_value(value) {
            Ok(v) => {
                next.write_bytes = v;
            },
            Err(e) => {
                return Err(e);
            },
        }
    } else if bytes_eq(key, "syscr".as_bytes()) {
        match parse_io_value(value) {
            Ok(v) => {
                next.read_ops = v;
            },
            Err(e) => {
                return Err(e);
            },
        }
    } else if bytes_eq(key, "syscw".as_bytes()) {
        match parse_io_value(value) {
            Ok(v) => {
                next.write_ops = v;
            },
            Err(e) => {
                return Err(e);
            },
        }
    } else if bytes_eq(key, "read_bytes".as_bytes()) {
        match parse_io_value(value) {
            Ok(v) => {
                next.read_disk_bytes = v;
            },
            Err(e) => {
                return Err(e);
            },
        }
    } else if bytes_eq(key, "write_bytes".as_bytes()) {
        match parse_io_value(value) {
            Ok(v) => {
                next.write_disk_bytes = v;
            },
            Err(e) => {
                return Err(e);
            },
        }
    } else if bytes_eq(key, "cancelled_write_bytes".as_bytes()) {
        match parse_io_value(value) {
            Ok(v) => {
                next.write_cancelled_bytes = v;
            },
            Err(e) => {
                return Err(e);
            },
        }
    }
    Ok(next)
}

/// Reads the I/O counters source into the I/O counters `base`. A counter
/// whose key the text does not hold keeps the value it has in `base`.
pub fn parse_io(text: &str, base: IoCounters) -> (r: Result<IoCounters, IoStatError>)
    ensures
        r == io_text(text.spec_bytes(), base),
{
    let mut rest = text.as_bytes();
    let mut c = base;
    loop
        invariant
            io_text(text.spec_bytes(), base) == io_text(rest@, c),
        decreases rest@.len(),
    {
        let (line, tail) = split_once(rest, 0x0a);
        match parse_io_line(line, c) {
            Ok(next) => {
                c = next;
            },
            Err(e) => {
                return Err(e);
            },
        }
        match tail {
            Some(behind) => {
                proof {
                    rest@.index_of_first_ensures(0x0a);
                }
                rest = behind;
            },
            None => {
                return Ok(c);
            },
        }
    }
}

} // verus!
