//! Character classes and the scanning of spaces, words and decimal digits
//! in assembly text, taken as bytes.
use vstd::prelude::*;

verus! {

/// Whether `c` is a space: blank, tab, line feed or carriage return.
pub open spec fn is_space(c: u8) -> bool {
    c == ' ' as u8 || c == '\t' as u8 || c == '\n' as u8 || c == '\r' as u8
}

/// Whether `c` is an ASCII letter.
pub open spec fn is_alpha(c: u8) -> bool {
    ('a' as u8 <= c && c <= 'z' as u8) || ('A' as u8 <= c && c <= 'Z' as u8)
}

/// Whether `c` is a decimal digit.
pub open spec fn is_digit(c: u8) -> bool {
    '0' as u8 <= c && c <= '9' as u8
}

/// The first position from `i` on that holds no space.
pub open spec fn skip_spaces(b: Seq<u8>, i: int) -> int
    decreases b.len() - i,
{
    if 0 <= i < b.len() && is_space(b[i]) {
        skip_spaces(b, i + 1)
    } else {
        i
    }
}

/// The end of the run of letters that starts at `i`.
pub open spec fn alpha_end(b: Seq<u8>, i: int) -> int
    decreases b.len() - i,
{
    if 0 <= i < b.len() && is_alpha(b[i]) {
        alpha_end(b, i + 1)
    } else {
        i
    }
}

/// The end of the run of decimal digits that starts at `i`.
pub open spec fn digit_end(b: Seq<u8>, i: int) -> int
    decreases b.len() - i,
{
    if 0 <= i < b.len() && is_digit(b[i]) {
        digit_end(b, i + 1)
    } else {
        i
    }
}

/// The number that the decimal digits in `b[i..j]` write.
pub open spec fn digits_value(b: Seq<u8>, i: int, j: int) -> int
    decreases j - i,
{
    if j <= i {
        0
    } else {
        digits_value(b, i, j - 1) * 10 + (b[j - 1] - '0' as u8)
    }
}

/// Whether `c` is a space: blank, tab, line feed or carriage return.
pub fn is_space_byte(c: u8) -> (r: bool)
    ensures
        r == is_space(c),
{
    c == ' ' as u8 || c == '\t' as u8 || c == '\n' as u8 || c == '\r' as u8
}

/// Whether `c` is an ASCII letter.
pub fn is_alpha_byte(c: u8) -> (r: bool)
    ensures
        r == is_alpha(c),
{
    ('a' as u8 <= c && c <= 'z' as u8) || ('A' as u8 <= c && c <= 'Z' as u8)
}

/// Whether `c` is a decimal digit.
pub fn is_digit_byte(c: u8) -> (r: bool)
    ensures
        r == is_digit(c),
{
    '0' as u8 <= c && c <= '9' as u8
}

/// Skips the spaces at `i`.
pub fn scan_spaces(b: &[u8], i: usize) -> (r: usize)
    requires
        i <= b@.len(),
    ensures
        r == skip_spaces(b@, i as int),
        i <= r <= b@.len(),
{
    let mut j = i;
    while j < b.len() && is_space_byte(b[j])
        invariant
            i <= j <= b@.len(),
            skip_spaces(b@, j as int) == skip_spaces(b@, i as int),
        decreases b@.len() - j,
    {
        j = j + 1;
    }
    j
}

/// The end of the run of letters at `i`.
pub fn scan_alpha(b: &[u8], i: usize) -> (r: usize)
    requires
        i <= b@.len(),
    ensures
        r == alpha_end(b@, i as int),
        i <= r <= b@.len(),
{
    let mut j = i;
    while j < b.len() && is_alpha_byte(b[j])
        invariant
            i <= j <= b@.len(),
            alpha_end(b@, j as int) == alpha_end(b@, i as int),
        decreases b@.len() - j,
    {
        j = j + 1;
    }
    j
}

/// The end of the run of digits at `i`.
pub fn scan_digits(b: &[u8], i: usize) -> (r: usize)
    requires
        i <= b@.len(),
    ensures
        r == digit_end(b@, i as int),
        i <= r <= b@.len(),
        forall|k: int| i <= k < r ==> is_digit(#[trigger] b@[k]),
{
    let mut j = i;
    while j < b.len() && is_digit_byte(b[j])
        invariant
            i <= j <= b@.len(),
            digit_end(b@, j as int) == digit_end(b@, i as int),
            forall|k: int| i <= k < j ==> is_digit(#[trigger] b@[k]),
        decreases b@.len() - j,
    {
        j = j + 1;
    }
    j
}

/// A longer run of digits never writes a smaller number.
proof fn lemma_digits_value_grows(b: Seq<u8>, i: int, j: int, e: int)
    requires
        i <= j <= e <= b.len(),
        forall|k: int| i <= k < e ==> is_digit(#[trigger] b[k]),
    ensures
        digits_value(b, i, j) <= digits_value(b, i, e),
    decreases e - j,
{
    if j < e {
        lemma_digits_value_grows(b, i, j, e - 1);
        assert(is_digit(b[e - 1]));
        assert(digits_value(b, i, e - 1) >= 0) by {
            lemma_digits_value_nonnegative(b, i, e - 1);
        }
    }
}

proof fn lemma_digits_value_nonnegative(b: Seq<u8>, i: int, j: int)
    requires
        j <= b.len(),
        forall|k: int| i <= k < j ==> is_digit(#[trigger] b[k]),
    ensures
        digits_value(b, i, j) >= 0,
    decreases j - i,
{
    if j > i {
        lemma_digits_value_nonnegative(b, i, j - 1);
        assert(is_digit(b[j - 1]));
    }
}

/// The number that the digits in `b[i..e]` write, where it is at most
/// `cap`; `None` where it is larger.
pub fn digits_value_upto(b: &[u8], i: usize, e: usize, cap: u64) -> (r: Option<u64>)
    requires
        i <= e <= b@.len(),
        cap <= 0x1_0000_0000,
        forall|k: int| i <= k < e ==> is_digit(#[trigger] b@[k]),
    ensures
        r matches Some(v) ==> v == digits_value(b@, i as int, e as int) && v <= cap,
        r is None ==> digits_value(b@, i as int, e as int) > cap,
{
    let mut value: u64 = 0;
    let mut j = i;
    while j < e
        invariant
            i <= j <= e <= b@.len(),
            cap <= 0x1_0000_0000,
            forall|k: int| i <= k < e ==> is_digit(#[trigger] b@[k]),
            value == digits_value(b@, i as int, j as int),
            value <= cap,
        decreases e - j,
    {
        assert(is_digit(b@[j as int]));
        let next: u64 = value * 10 + (b[j] - '0' as u8) as u64;
        if next > cap {
            proof {
                lemma_digits_value_grows(b@, i as int, j + 1, e as int);
            }
            return None;
        }
        value = next;
        j = j + 1;
    }
    Some(value)
}

} // verus!
