use self_meter::text::{
    bytes_eq, find_byte, nth_word, parse_digits, parse_u64, rfind_byte, space_len,
    space_len_before, split_once, trim,
};
use self_meter::{
    parse_io, parse_memory, parse_stat, parse_status, IoCounters, IoStatError, Memory,
    ParseIntError, StatError, StatusError, ThreadInfo,
};

const STAT: &str = "12345 (my (odd) name) S 1 12345 12345 0 -1 4194560 2589 0 3 0 \
                    77 33 11 5 20 0 4 0 2585 123456789 1234 18446744073709551615 \
                    1 1 0 0 0 0 0 0 0 0 0 0 17 3 0 0 0 0 0\n";

#[test]
fn decimal_numbers() {
    assert_eq!(parse_u64(b"0"), Ok(0));
    assert_eq!(parse_u64(b"0042"), Ok(42));
    assert_eq!(parse_u64(b"+17"), Ok(17));
    assert_eq!(parse_u64(b"18446744073709551615"), Ok(u64::MAX));
}

#[test]
fn numbers_in_digits_alone() {
    assert_eq!(parse_digits(b"0"), Ok(0));
    assert_eq!(parse_digits(b"0042"), Ok(42));
    assert_eq!(parse_digits(b""), Ok(0));
    assert_eq!(parse_digits(b"18446744073709551615"), Ok(u64::MAX));
    assert_eq!(parse_digits(b"+17"), Err(ParseIntError::InvalidDigit));
    assert_eq!(parse_digits(b"-"), Err(ParseIntError::InvalidDigit));
    assert_eq!(parse_digits(b"1 "), Err(ParseIntError::InvalidDigit));
    assert_eq!(parse_digits(b"18446744073709551616"), Err(ParseIntError::PosOverflow));
    assert_eq!(parse_digits(b"99999999999999999999x"), Err(ParseIntError::PosOverflow));
}

#[test]
fn decimal_errors() {
    assert_eq!(parse_u64(b""), Err(ParseIntError::Empty));
    assert_eq!(parse_u64(b"+"), Err(ParseIntError::InvalidDigit));
    assert_eq!(parse_u64(b"-"), Err(ParseIntError::InvalidDigit));
    assert_eq!(parse_u64(b"-5"), Err(ParseIntError::InvalidDigit));
    assert_eq!(parse_u64(b"12 "), Err(ParseIntError::InvalidDigit));
    assert_eq!(parse_u64(b"1x"), Err(ParseIntError::InvalidDigit));
    assert_eq!(parse_u64(b"18446744073709551616"), Err(ParseIntError::PosOverflow));
    assert_eq!(parse_u64(b"99999999999999999999x"), Err(ParseIntError::PosOverflow));
    assert_eq!(parse_u64(b"1844674407370955161x"), Err(ParseIntError::InvalidDigit));
}

#[test]
fn decimal_agrees_with_the_standard_library() {
    let samples: [&str; 12] = [
        "", "+", "-", "0", "+0", "-0", "007", "12a", "a12", "18446744073709551615",
        "18446744073709551616", "++1",
    ];
    for s in samples {
        let ours = parse_u64(s.as_bytes()).ok();
        let theirs = s.parse::<u64>().ok();
        assert_eq!(ours, theirs);
    }
}

#[test]
fn words_are_separated_by_whitespace() {
    let s = b"  alpha\tbeta \n gamma";
    assert_eq!(nth_word(s, 0, 0), Some((2, 7)));
    assert_eq!(nth_word(s, 0, 1), Some((8, 12)));
    assert_eq!(nth_word(s, 0, 2), Some((15, 20)));
    assert_eq!(nth_word(s, 0, 3), None);
    assert_eq!(nth_word(s, 7, 0), Some((8, 12)));
    assert_eq!(nth_word(b"   ", 0, 0), None);
}

#[test]
fn bytes_are_found_from_both_ends() {
    assert_eq!(find_byte(b"a:b:c", b':'), Some(1));
    assert_eq!(rfind_byte(b"a:b:c", b':'), Some(3));
    assert_eq!(find_byte(b"abc", b':'), None);
    assert_eq!(rfind_byte(b"", b':'), None);
}

#[test]
fn split_once_and_trim() {
    let (head, tail) = split_once(b"key: value: more", b':');
    assert_eq!(head, b"key");
    assert_eq!(tail, Some(&b" value: more"[..]));
    let (head, tail) = split_once(b"no colon", b':');
    assert_eq!(head, b"no colon");
    assert_eq!(tail, None);
    assert_eq!(trim(b" \t 12 kB\r\n"), b"12 kB");
    assert_eq!(trim(b"   "), b"");
    assert_eq!(trim(b"x"), b"x");
    assert!(bytes_eq(b"kB", b"kB"));
    assert!(!bytes_eq(b"kB", b"kb"));
    assert!(!bytes_eq(b"kB", b"kBs"));
}

#[test]
fn stat_line_with_parentheses_in_the_name() {
    assert_eq!(
        parse_stat(STAT).unwrap(),
        ThreadInfo { user_time: 77, system_time: 33, child_user_time: 11, child_system_time: 5 }
    );
}

#[test]
fn stat_line_without_parenthesis_is_bad_format() {
    assert!(matches!(parse_stat("1 2 3 4 5 6 7 8 9 10 11 12 13 14 15 16"), Err(StatError::BadFormat)));
}

#[test]
fn stat_line_with_too_few_fields_is_bad_format() {
    assert!(matches!(parse_stat("1 (x) S 1 2 3 4 5 6 7 8 9 10 11 12 13"), Err(StatError::BadFormat)));
    assert!(matches!(parse_stat("1 (x)"), Err(StatError::BadFormat)));
    assert_eq!(
        parse_stat("1 (x) S 1 2 3 4 5 6 7 8 9 10 11 12 13 14").unwrap(),
        ThreadInfo { user_time: 11, system_time: 12, child_user_time: 13, child_system_time: 14 }
    );
}

#[test]
fn stat_line_with_a_field_that_is_no_number() {
    assert!(matches!(
        parse_stat("1 (x) S 1 2 3 4 5 6 7 8 9 10 -1 12 13 14"),
        Err(StatError::ParseInt(ParseIntError::InvalidDigit))
    ));
    assert!(matches!(
        parse_stat("1 (x) S 1 2 3 4 5 6 7 8 9 10 11 12 1e3 14"),
        Err(StatError::ParseInt(ParseIntError::InvalidDigit))
    ));
    assert!(matches!(
        parse_stat("1 (x) S 1 2 3 4 5 6 7 8 9 10 11 12 13 99999999999999999999"),
        Err(StatError::ParseInt(ParseIntError::PosOverflow))
    ));
}

#[test]
fn stat_line_reports_the_first_failure() {
    assert!(matches!(
        parse_stat("1 (x) S 1 2 3 4 5 6 7 8 9 10 zz 12"),
        Err(StatError::ParseInt(ParseIntError::InvalidDigit))
    ));
    assert!(matches!(parse_stat("1 (x) S 1 2 3 4 5 6 7 8 9 10 11 12"), Err(StatError::BadFormat)));
}

#[test]
fn memory_value_in_kilobytes() {
    assert_eq!(parse_memory("\t    1024 kB").unwrap(), 1048576);
    assert_eq!(parse_memory(" 0 kB").unwrap(), 0);
    assert_eq!(parse_memory("18014398509481983 kB").unwrap(), 18014398509481983 * 1024);
}

#[test]
fn memory_value_with_another_unit_is_bad_unit() {
    assert!(matches!(parse_memory(" 1024 mB"), Err(StatusError::BadUnit)));
    assert!(matches!(parse_memory(" 1024"), Err(StatusError::BadUnit)));
    assert!(matches!(parse_memory(" 1024 kBs"), Err(StatusError::BadUnit)));
}

#[test]
fn memory_value_errors() {
    assert!(matches!(parse_memory("   "), Err(StatusError::BadFormat)));
    assert!(matches!(
        parse_memory(" many kB"),
        Err(StatusError::ParseInt(ParseIntError::InvalidDigit))
    ));
    assert!(matches!(
        parse_memory(" many mB"),
        Err(StatusError::ParseInt(ParseIntError::InvalidDigit))
    ));
    assert!(matches!(
        parse_memory("18014398509481984 kB"),
        Err(StatusError::ParseInt(ParseIntError::PosOverflow))
    ));
}

#[test]
fn status_text_sets_the_four_counters() {
    let text = "Name:\tmeter\nVmPeak:\t  204800 kB\nVmSize:\t  102400 kB\nVmLck:\t 0 kB\n\
                VmRSS:\t    1024 kB\nThreads:\t4\nVmSwap:\t       8 kB\n";
    assert_eq!(
        parse_status(text, Memory::new()).unwrap(),
        Memory {
            rss: 1048576,
            virtual_size: 102400 * 1024,
            virtual_peak: 204800 * 1024,
            swap: 8192
        }
    );
}

#[test]
fn status_text_keeps_what_it_does_not_name() {
    let base = Memory { rss: 1, virtual_size: 2, virtual_peak: 3, swap: 4 };
    assert_eq!(parse_status("", base).unwrap(), base);
    assert_eq!(parse_status("VmRSSx: 5 kB\nno colon here\n", base).unwrap(), base);
    assert_eq!(
        parse_status("VmRSS: 5 kB", base).unwrap(),
        Memory { rss: 5120, virtual_size: 2, virtual_peak: 3, swap: 4 }
    );
    assert_eq!(
        parse_status("VmRSS: 5 kB\nVmRSS: 6 kB\n", base).unwrap(),
        Memory { rss: 6144, virtual_size: 2, virtual_peak: 3, swap: 4 }
    );
}

#[test]
fn status_text_with_a_bad_unit() {
    assert!(matches!(
        parse_status("VmPeak: 10 kB\nVmRSS: 1024 mB\n", Memory::new()),
        Err(StatusError::BadUnit)
    ));
}

#[test]
fn status_text_errors() {
    assert!(matches!(parse_status("VmSwap:\n", Memory::new()), Err(StatusError::BadFormat)));
    assert!(matches!(
        parse_status("VmSize: lots kB\n", Memory::new()),
        Err(StatusError::ParseInt(ParseIntError::InvalidDigit))
    ));
    assert!(matches!(
        parse_status("VmSize: 1 kB\nVmRSS: :\nVmSwap: x kB", Memory::new()),
        Err(StatusError::BadFormat)
    ));
}

#[test]
fn io_text_sets_the_seven_counters() {
    let text = "rchar: 1000\nwchar: 2000\nsyscr: 30\nsyscw: 40\nread_bytes: 500\n\
                write_bytes: 600\ncancelled_write_bytes: 7\n";
    assert_eq!(
        parse_io(text, IoCounters::new()).unwrap(),
        IoCounters {
            read_bytes: 1000,
            write_bytes: 2000,
            read_ops: 30,
            write_ops: 40,
            read_disk_bytes: 500,
            write_disk_bytes: 600,
            write_cancelled_bytes: 7
        }
    );
}

#[test]
fn io_text_keeps_what_it_does_not_name() {
    let base = IoCounters {
        read_bytes: 1,
        write_bytes: 2,
        read_ops: 3,
        write_ops: 4,
        read_disk_bytes: 5,
        write_disk_bytes: 6,
        write_cancelled_bytes: 7,
    };
    assert_eq!(parse_io("other: 9\n\nrchar 9\n", base).unwrap(), base);
    assert_eq!(parse_io("syscw:\t 44 \r\n", base).unwrap(), IoCounters { write_ops: 44, ..base });
}

#[test]
fn io_text_with_a_value_that_is_no_number() {
    assert!(matches!(
        parse_io("rchar: 12 kB\n", IoCounters::new()),
        Err(IoStatError::ParseInt(ParseIntError::InvalidDigit))
    ));
    assert!(matches!(
        parse_io("rchar: 1\nwchar:\n", IoCounters::new()),
        Err(IoStatError::ParseInt(ParseIntError::Empty))
    ));
    assert!(matches!(
        parse_io("syscr: 18446744073709551616\n", IoCounters::new()),
        Err(IoStatError::ParseInt(ParseIntError::PosOverflow))
    ));
}

#[test]
fn whitespace_is_what_the_standard_library_calls_whitespace() {
    let mut buf = [0u8; 4];
    let mut spaces = 0;
    for code in 0..=0x10ffffu32 {
        let c = match char::from_u32(code) {
            Some(c) => c,
            None => continue,
        };
        let bytes = c.encode_utf8(&mut buf).as_bytes();
        let expected = if c.is_whitespace() { bytes.len() } else { 0 };
        assert_eq!(space_len(bytes, 0), expected);
        assert_eq!(space_len_before(bytes, 0, bytes.len()), expected);
        if expected > 0 {
            spaces += 1;
        }
    }
    assert_eq!(spaces, 25);
}

#[test]
fn whitespace_is_looked_for_inside_the_bounds_only() {
    let s = "a\u{2003}b".as_bytes();
    assert_eq!(space_len(s, 1), 3);
    assert_eq!(space_len(s, 2), 0);
    assert_eq!(space_len(s, 5), 0);
    assert_eq!(space_len(&s[..3], 1), 0);
    assert_eq!(space_len_before(s, 0, 4), 3);
    assert_eq!(space_len_before(s, 2, 4), 0);
    assert_eq!(space_len_before(s, 4, 4), 0);
    assert_eq!(space_len_before(s, 0, 0), 0);
}

fn words_of(s: &str) -> Vec<&[u8]> {
    let bytes = s.as_bytes();
    let mut found = Vec::new();
    let mut n = 0;
    while let Some((start, end)) = nth_word(bytes, 0, n) {
        found.push(&bytes[start..end]);
        n += 1;
    }
    found
}

#[test]
fn words_and_trimming_agree_with_the_standard_library() {
    let samples: [&str; 12] = [
        "",
        " ",
        "one",
        "  one two\tthree\r\n",
        "\u{a0}1024\u{2003}kB\u{3000}",
        "\u{85}\u{1680}\u{2028}\u{2029}\u{202f}\u{205f}",
        "a\u{200a}b\u{200b}c",
        "caf\u{e9} \u{e2}ge\u{a0}",
        "\u{2000}x\u{2001}y\u{2002}",
        "tr\u{e8}s   loin \u{fffd} \u{10ffff}",
        "x\u{b}y\u{c}z",
        "\u{3000}\u{3000}",
    ];
    for s in samples {
        let theirs: Vec<&[u8]> = s.split_whitespace().map(|w| w.as_bytes()).collect();
        assert_eq!(words_of(s), theirs);
        assert_eq!(trim(s.as_bytes()), s.trim().as_bytes());
    }
}

#[test]
fn values_may_be_set_off_by_any_whitespace() {
    assert_eq!(parse_memory("\u{a0}1024\u{2003}kB\u{3000}").unwrap(), 1048576);
    assert_eq!(
        parse_io("syscr:\u{2009}17\u{a0}\n", IoCounters::new()).unwrap(),
        IoCounters { read_ops: 17, ..IoCounters::new() }
    );
}
