//! Byte-level reading of the text that the operating system hands out:
//! decimal numbers, whitespace-separated words, and the search for a
//! delimiter.
//!
//! The text is UTF-8. Whitespace is what Unicode calls white space: the six
//! ASCII characters space, tab, line feed, vertical tab, form feed and
//! carriage return, and nineteen characters beyond ASCII, which are
//! recognized by their encoding of two or three bytes. Numbers are unsigned
//! decimals of at most 64 bits, with an optional leading plus sign.
use vstd::prelude::*;
use vstd::slice::*;
use crate::error::ParseIntError;

verus! {

/// Whether `b` is an ASCII whitespace character.
pub open spec fn is_space(b: u8) -> bool {
    b == 0x20 || (0x09 <= b && b <= 0x0d)
}

/// Whether two bytes encode a whitespace character: U+0085 or U+00A0.
pub open spec fn is_space2(a: u8, b: u8) -> bool {
    a == 0xc2 && (b == 0x85 || b == 0xa0)
}

/// Whether three bytes encode a whitespace character: U+1680, U+2000 to
/// U+200A, U+2028, U+2029, U+202F, U+205F or U+3000.
pub open spec fn is_space3(a: u8, b: u8, c: u8) -> bool {
    ||| a == 0xe1 && b == 0x9a && c == 0x80
    ||| a == 0xe2 && b == 0x80 && ((0x80 <= c && c <= 0x8a) || c == 0xa8 || c == 0xa9 || c
        == 0xaf)
    ||| a == 0xe2 && b == 0x81 && c == 0x9f
    ||| a == 0xe3 && b == 0x80 && c == 0x80
}

/// Whether `b` is an ASCII decimal digit.
pub open spec fn is_digit(b: u8) -> bool {
    0x30 <= b && b <= 0x39
}

/// Whether `s` holds ASCII decimal digits and nothing else.
pub open spec fn all_digits(s: Seq<u8>) -> bool {
    forall|i: int| 0 <= i < s.len() ==> is_digit(#[trigger] s[i])
}

/// The number of bytes of the whitespace character that begins at index
/// `i`, or zero where none begins there.
pub open spec fn space_at(s: Seq<u8>, i: int) -> int {
    if i < 0 || i >= s.len() {
        0
    } else if is_space(s[i]) {
        1
    } else if i + 1 < s.len() && is_space2(s[i], s[i + 1]) {
        2
    } else if i + 2 < s.len() && is_space3(s[i], s[i + 1], s[i + 2]) {
        3
    } else {
        0
    }
}

/// The number of bytes of the whitespace character that ends just before
/// index `to` and begins at `from` or behind it, or zero where there is
/// none.
pub open spec fn space_before(s: Seq<u8>, from: int, to: int) -> int {
    if from < 0 || to > s.len() {
        0
    } else if from <= to - 1 && is_space(s[to - 1]) {
        1
    } else if from <= to - 2 && is_space2(s[to - 2], s[to - 1]) {
        2
    } else if from <= to - 3 && is_space3(s[to - 3], s[to - 2], s[to - 1]) {
        3
    } else {
        0
    }
}

/// The first index at or after `from` at which no whitespace begins, or the
/// length of `s` where there is none.
pub open spec fn past_spaces(s: Seq<u8>, from: int) -> int
    decreases s.len() - from,
{
    if space_at(s, from) > 0 {
        past_spaces(s, from + space_at(s, from))
    } else {
        from
    }
}

/// The first index at or after `from` at which whitespace begins, or the
/// length of `s` where there is none.
pub open spec fn past_word(s: Seq<u8>, from: int) -> int
    decreases s.len() - from,
{
    if 0 <= from < s.len() && space_at(s, from) == 0 {
        past_word(s, from + 1)
    } else {
        from
    }
}

/// The first index at or after `from` whose byte is no digit, or the length
/// of `s` where there is none.
pub open spec fn past_digits(s: Seq<u8>, from: int) -> int
    decreases s.len() - from,
{
    if 0 <= from < s.len() && is_digit(s[from]) {
        past_digits(s, from + 1)
    } else {
        from
    }
}

/// The bounds of the `n`-th word (counting from zero) among the
/// whitespace-separated words of `s` that begin at or after `from`.
pub open spec fn word_from(s: Seq<u8>, from: int, n: nat) -> Option<(int, int)>
    decreases n,
{
    let start = past_spaces(s, from);
    let end = past_word(s, start);
    if start >= s.len() {
        None
    } else if n == 0 {
        Some((start, end))
    } else {
        word_from(s, end, (n - 1) as nat)
    }
}

/// The `n`-th whitespace-separated word of `s`, counting from zero.
pub open spec fn word(s: Seq<u8>, n: nat) -> Option<Seq<u8>> {
    match word_from(s, 0, n) {
        Some((start, end)) => Some(s.subrange(start, end)),
        None => None,
    }
}

/// The index at which the whitespace that ends just before `to` begins,
/// looking no further back than `from`.
pub open spec fn before_spaces(s: Seq<u8>, from: int, to: int) -> int
    decreases to,
{
    if space_before(s, from, to) > 0 {
        before_spaces(s, from, to - space_before(s, from, to))
    } else {
        to
    }
}

/// `s` without its leading and trailing whitespace.
pub open spec fn trimmed(s: Seq<u8>) -> Seq<u8> {
    let start = past_spaces(s, 0);
    s.subrange(start, before_spaces(s, start, s.len() as int))
}

/// The number that a sequence of decimal digits writes.
pub open spec fn digits_value(s: Seq<u8>) -> nat
    decreases s.len(),
{
    if s.len() == 0 {
        0
    } else {
        digits_value(s.drop_last()) * 10 + (s.last() - 0x30) as nat
    }
}

/// What an unsigned run of digits means: the digits before the first other
/// byte decide. Where their number exceeds 64 bits the text overflows;
/// else a byte that is no digit makes it invalid; else it is that number.
/// Text without a byte writes zero.
pub open spec fn unsigned_decimal(d: Seq<u8>) -> Result<u64, ParseIntError> {
    let k = past_digits(d, 0);
    let v = digits_value(d.take(k));
    if v > u64::MAX {
        Err(ParseIntError::PosOverflow)
    } else if k < d.len() {
        Err(ParseIntError::InvalidDigit)
    } else {
        Ok(v as u64)
    }
}

/// What a piece of text means as an unsigned 64-bit decimal: one plus sign
/// may precede the digits, a sign alone is invalid, and empty text is
/// reported as such.
pub open spec fn decimal(s: Seq<u8>) -> Result<u64, ParseIntError> {
    if s.len() == 0 {
        Err(ParseIntError::Empty)
    } else if s.len() == 1 && (s[0] == 0x2b || s[0] == 0x2d) {
        Err(ParseIntError::InvalidDigit)
    } else if s[0] == 0x2b {
        unsigned_decimal(s.skip(1))
    } else {
        unsigned_decimal(s)
    }
}

/// The part of `s` before the first byte `b`, or all of `s` where it holds
/// none.
pub open spec fn before(s: Seq<u8>, b: u8) -> Seq<u8> {
    match s.index_of_first(b) {
        Some(i) => s.take(i),
        None => s,
    }
}

/// The part of `s` behind the first byte `b`, where it holds one.
pub open spec fn after(s: Seq<u8>, b: u8) -> Option<Seq<u8>> {
    match s.index_of_first(b) {
        Some(i) => Some(s.skip(i + 1)),
        None => None,
    }
}

/// The run of digits that begins at `from` ends at the first index `to`
/// that holds no digit.
pub proof fn lemma_past_digits(s: Seq<u8>, from: int, to: int)
    requires
        0 <= from <= to <= s.len(),
        forall|j: int| from <= j < to ==> is_digit(#[trigger] s[j]),
        to == s.len() || !is_digit(s[to]),
    ensures
        past_digits(s, from) == to,
    decreases to - from,
{
    if from < to {
        lemma_past_digits(s, from + 1, to);
    }
}

/// One more digit multiplies the number by ten and adds the digit.
pub proof fn lemma_digits_value_step(d: Seq<u8>, i: int)
    requires
        0 <= i < d.len(),
    ensures
        digits_value(d.take(i + 1)) == digits_value(d.take(i)) * 10 + (d[i] - 0x30) as nat,
{
    assert(d.take(i + 1).drop_last() =~= d.take(i));
}

/// A longer run of digits writes a number that is no smaller.
pub proof fn lemma_digits_value_grows(d: Seq<u8>, i: int, k: int)
    requires
        0 <= i <= k <= d.len(),
        forall|j: int| 0 <= j < k ==> is_digit(#[trigger] d[j]),
    ensures
        digits_value(d.take(i)) <= digits_value(d.take(k)),
    decreases k - i,
{
    if i < k {
        lemma_digits_value_grows(d, i, k - 1);
        lemma_digits_value_step(d, k - 1);
    }
}

/// A run of digits stays inside the text, and holds digits only.
pub proof fn lemma_past_digits_bounds(s: Seq<u8>, from: int)
    requires
        0 <= from <= s.len(),
    ensures
        from <= past_digits(s, from) <= s.len(),
        forall|j: int| from <= j < past_digits(s, from) ==> is_digit(#[trigger] s[j]),
    decreases s.len() - from,
{
    if from < s.len() && is_digit(s[from]) {
        lemma_past_digits_bounds(s, from + 1);
    }
}

/// A run of digits extends at least as far as digits are known to extend.
pub proof fn lemma_past_digits_reaches(s: Seq<u8>, from: int, to: int)
    requires
        0 <= from <= to <= s.len(),
        forall|j: int| from <= j < to ==> is_digit(#[trigger] s[j]),
    ensures
        to <= past_digits(s, from),
    decreases to - from,
{
    if from < to {
        lemma_past_digits_reaches(s, from + 1, to);
    } else {
        lemma_past_digits_bounds(s, from);
    }
}

/// Text in digits alone is the number that its digits write, or an
/// overflow where that number exceeds 64 bits; and only text in digits
/// alone is a number.
pub proof fn lemma_unsigned_decimal(s: Seq<u8>)
    ensures
        all_digits(s) ==> unsigned_decimal(s) == if digits_value(s) > u64::MAX {
            Err::<u64, ParseIntError>(ParseIntError::PosOverflow)
        } else {
            Ok::<u64, ParseIntError>(digits_value(s) as u64)
        },
        unsigned_decimal(s) is Ok ==> all_digits(s),
{
    lemma_past_digits_bounds(s, 0);
    if all_digits(s) {
        lemma_past_digits(s, 0, s.len() as int);
    }
    assert(s.take(s.len() as int) =~= s);
}

/// A run of whitespace stays inside the text and ends where no whitespace
/// begins.
pub proof fn lemma_past_spaces_bounds(s: Seq<u8>, from: int)
    requires
        0 <= from <= s.len(),
    ensures
        from <= past_spaces(s, from) <= s.len(),
        space_at(s, past_spaces(s, from)) == 0,
    decreases s.len() - from,
{
    if space_at(s, from) > 0 {
        lemma_past_spaces_bounds(s, from + space_at(s, from));
    }
}

/// A word stays inside the text, and is not empty where it begins with
/// something other than whitespace.
pub proof fn lemma_past_word_bounds(s: Seq<u8>, from: int)
    requires
        0 <= from <= s.len(),
    ensures
        from <= past_word(s, from) <= s.len(),
        from < s.len() && space_at(s, from) == 0 ==> from < past_word(s, from),
    decreases s.len() - from,
{
    if from < s.len() && space_at(s, from) == 0 {
        lemma_past_word_bounds(s, from + 1);
    }
}

/// The word that follows the `n`-th one is the first word behind its end.
pub proof fn lemma_word_from_next(s: Seq<u8>, from: int, n: nat)
    requires
        0 <= from <= s.len(),
    ensures
        match word_from(s, from, n) {
            Some((start, end)) => word_from(s, from, n + 1) == word_from(s, end, 0),
            None => word_from(s, from, n + 1) is None,
        },
    decreases n,
{
    let start = past_spaces(s, from);
    lemma_past_spaces_bounds(s, from);
    if start < s.len() {
        lemma_past_word_bounds(s, start);
        if n > 0 {
            lemma_word_from_next(s, past_word(s, start), (n - 1) as nat);
        }
    }
}

/// Whether `b` is an ASCII decimal digit.
pub fn byte_is_digit(b: u8) -> (r: bool)
    ensures
        r == is_digit(b),
{
    0x30 <= b && b <= 0x39
}

/// The number of bytes of the whitespace character that begins at index
/// `i`, or zero where none begins there.
pub fn space_len(s: &[u8], i: usize) -> (k: usize)
    requires
        i <= s@.len(),
    ensures
        k == space_at(s@, i as int),
        i + k <= s@.len(),
{
    let n = s.len();
    if i >= n {
        return 0;
    }
    let a = s[i];
    if a == 0x20 || (0x09 <= a && a <= 0x0d) {
        return 1;
    }
    if n - i >= 2 {
        let b = s[i + 1];
        if a == 0xc2 && (b == 0x85 || b == 0xa0) {
            return 2;
        }
        if n - i >= 3 {
            let c = s[i + 2];
            if (a == 0xe1 && b == 0x9a && c == 0x80) || (a == 0xe2 && b == 0x80 && ((0x80 <= c
                && c <= 0x8a) || c == 0xa8 || c == 0xa9 || c == 0xaf)) || (a == 0xe2 && b == 0x81
                && c == 0x9f) || (a == 0xe3 && b == 0x80 && c == 0x80) {
                return 3;
            }
        }
    }
    0
}

/// The number of bytes of the whitespace character that ends just before
/// index `to` and begins at `from` or behind it, or zero where there is
/// none.
pub fn space_len_before(s: &[u8], from: usize, to: usize) -> (k: usize)
    requires
        from <= to <= s@.len(),
    ensures
        k == space_before(s@, from as int, to as int),
        from + k <= to,
{
    let room = to - from;
    if room == 0 {
        return 0;
    }
    let c = s[to - 1];
    if c == 0x20 || (0x09 <= c && c <= 0x0d) {
        return 1;
    }
    if room >= 2 {
        let b = s[to - 2];
        if b == 0xc2 && (c == 0x85 || c == 0xa0) {
            return 2;
        }
        if room >= 3 {
            let a = s[to - 3];
            if (a == 0xe1 && b == 0x9a && c == 0x80) || (a == 0xe2 && b == 0x80 && ((0x80 <= c
                && c <= 0x8a) || c == 0xa8 || c == 0xa9 || c == 0xaf)) || (a == 0xe2 && b == 0x81
                && c == 0x9f) || (a == 0xe3 && b == 0x80 && c == 0x80) {
                return 3;
            }
        }
    }
    0
}

/// Skips the whitespace that begins at `from`.
pub fn skip_spaces(s: &[u8], from: usize) -> (to: usize)
    requires
        from <= s@.len(),
    ensures
        to == past_spaces(s@, from as int),
        from <= to <= s@.len(),
{
    let mut i: usize = from;
    loop
        invariant
            from <= i <= s@.len(),
            past_spaces(s@, from as int) == past_spaces(s@, i as int),
        decreases s@.len() - i,
    {
        let k = space_len(s, i);
        if k == 0 {
            return i;
        }
        assert(i + k <= s.len());
        i = i + k;
    }
}

/// Skips the word that begins at `from`.
pub fn skip_word(s: &[u8], from: usize) -> (to: usize)
    requires
        from <= s@.len(),
    ensures
        to == past_word(s@, from as int),
        from <= to <= s@.len(),
{
    let mut i: usize = from;
    while i < s.len() && space_len(s, i) == 0
        invariant
            from <= i <= s@.len(),
            past_word(s@, from as int) == past_word(s@, i as int),
        decreases s@.len() - i,
    {
        i = i + 1;
    }
    i
}

/// Reads a number that is written in decimal digits alone. No sign is
/// taken, and text without a byte is zero.
pub fn parse_digits(s: &[u8]) -> (r: Result<u64, ParseIntError>)
    ensures
        r == unsigned_decimal(s@),
{
    let n = s.len();
    let mut acc: u64 = 0;
    let mut i: usize = 0;
    assert(s@.take(0) =~= Seq::<u8>::empty());
    while i < n
        invariant
            i <= n,
            n == s@.len(),
            forall|j: int| 0 <= j < i ==> is_digit(#[trigger] s@[j]),
            acc == digits_value(s@.take(i as int)),
        decreases n - i,
    {
        let c = s[i];
        if !byte_is_digit(c) {
            proof {
                lemma_past_digits(s@, 0, i as int);
            }
            return Err(ParseIntError::InvalidDigit);
        }
        let v: u64 = (c - 0x30) as u64;
        proof {
            lemma_digits_value_step(s@, i as int);
        }
        if acc > (u64::MAX - v) / 10 {
            proof {
                lemma_past_digits_bounds(s@, 0);
                lemma_past_digits_reaches(s@, 0, i + 1);
                lemma_digits_value_grows(s@, i + 1, past_digits(s@, 0));
            }
            return Err(ParseIntError::PosOverflow);
        }
        acc = acc * 10 + v;
        i = i + 1;
    }
    proof {
        lemma_past_digits(s@, 0, n as int);
        assert(s@.take(n as int) =~= s@);
    }
    Ok(acc)
}

/// Reads an unsigned 64-bit decimal number, which one plus sign may
/// precede.
pub fn parse_u64(s: &[u8]) -> (r: Result<u64, ParseIntError>)
    ensures
        r == decimal(s@),
{
    let n = s.len();
    if n == 0 {
        return Err(ParseIntError::Empty);
    }
    if n == 1 && (s[0] == 0x2b || s[0] == 0x2d) {
        return Err(ParseIntError::InvalidDigit);
    }
    if s[0] == 0x2b {
        parse_digits(slice_subrange(s, 1, n))
    } else {
        parse_digits(s)
    }
}

/// Finds the `n`-th word at or after `from`, counting from zero.
pub fn nth_word(s: &[u8], from: usize, n: usize) -> (r: Option<(usize, usize)>)
    requires
        from <= s@.len(),
    ensures
        match r {
            Some((start, end)) => {
                &&& word_from(s@, from as int, n as nat) == Some((start as int, end as int))
                &&& from <= start < end <= s@.len()
            },
            None => word_from(s@, from as int, n as nat) is None,
        },
{
    let mut cur: usize = from;
    let mut left: usize = n;
    loop
        invariant
            from <= cur <= s@.len(),
            left <= n,
            word_from(s@, from as int, n as nat) == word_from(s@, cur as int, left as nat),
        decreases left,
    {
        let start = skip_spaces(s, cur);
        if start >= s.len() {
            return None;
        }
        let end = skip_word(s, start);
        proof {
            lemma_past_spaces_bounds(s@, cur as int);
            lemma_past_word_bounds(s@, start as int);
        }
        if left == 0 {
            return Some((start, end));
        }
        cur = end;
        left = left - 1;
    }
}

/// Finds the first byte `b` of `s`.
pub fn find_byte(s: &[u8], b: u8) -> (r: Option<usize>)
    ensures
        match r {
            Some(i) => s@.index_of_first(b) == Some(i as int) && i < s@.len(),
            None => s@.index_of_first(b) is None,
        },
{
    let mut i: usize = 0;
    while i < s.len()
        invariant
            i <= s@.len(),
            forall|j: int| 0 <= j < i ==> #[trigger] s@[j] != b,
        decreases s@.len() - i,
    {
        if s[i] == b {
            proof {
                s@.index_of_first_ensures(b);
                assert(s@[i as int] == b);
                assert(s@.contains(b));
            }
            return Some(i);
        }
        i = i + 1;
    }
    proof {
        s@.index_of_first_ensures(b);
    }
    None
}

/// Finds the last byte `b` of `s`.
pub fn rfind_byte(s: &[u8], b: u8) -> (r: Option<usize>)
    ensures
        match r {
            Some(i) => s@.index_of_last(b) == Some(i as int) && i < s@.len(),
            None => s@.index_of_last(b) is None,
        },
{
    let mut i: usize = s.len();
    while i > 0
        invariant
            i <= s@.len(),
            forall|j: int| i <= j < s@.len() ==> #[trigger] s@[j] != b,
        decreases i,
    {
        i = i - 1;
        if s[i] == b {
            proof {
                s@.index_of_last_ensures(b);
                assert(s@[i as int] == b);
                assert(s@.contains(b));
            }
            return Some(i);
        }
    }
    proof {
        s@.index_of_last_ensures(b);
    }
    None
}

/// Splits `s` at its first byte `b`: what stands before it and, where `s`
/// holds such a byte, what stands behind it.
pub fn split_once<'a>(s: &'a [u8], b: u8) -> (r: (&'a [u8], Option<&'a [u8]>))
    ensures
        r.0@ == before(s@, b),
        match r.1 {
            Some(tail) => after(s@, b) == Some(tail@),
            None => after(s@, b) is None,
        },
{
    match find_byte(s, b) {
        Some(i) => {
            assert(i < s.len());
            let head = slice_subrange(s, 0, i);
            let tail = slice_subrange(s, i + 1, s.len());
            (head, Some(tail))
        },
        None => (s, None),
    }
}

/// Whether two pieces of text hold the same bytes.
pub fn bytes_eq(a: &[u8], b: &[u8]) -> (r: bool)
    ensures
        r == (a@ == b@),
{
    if a.len() != b.len() {
        return false;
    }
    let mut i: usize = 0;
    while i < a.len()
        invariant
            i <= a@.len(),
            a@.len() == b@.len(),
            forall|j: int| 0 <= j < i ==> a@[j] == b@[j],
        decreases a@.len() - i,
    {
        if a[i] != b[i] {
            return false;
        }
        i = i + 1;
    }
    assert(a@ =~= b@);
    true
}

/// Removes the leading and the trailing whitespace of `s`.
pub fn trim<'a>(s: &'a [u8]) -> (r: &'a [u8])
    ensures
        r@ == trimmed(s@),
{
    let start = skip_spaces(s, 0);
    let mut end: usize = s.len();
    loop
        invariant
            start == past_spaces(s@, 0),
            start <= end <= s@.len(),
            before_spaces(s@, start as int, s@.len() as int) == before_spaces(
                s@,
                start as int,
                end as int,
            ),
        decreases end,
    {
        let k = space_len_before(s, start, end);
        if k == 0 {
            return slice_subrange(s, start, end);
        }
        end = end - k;
    }
}

} // verus!
