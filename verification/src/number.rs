use vstd::prelude::*;

verus! {

/// Whether `c` is one of the ten decimal digits.
pub open spec fn is_digit(c: char) -> bool {
    '0' <= c && c <= '9'
}

/// Whether every character of `text` is a decimal digit.
pub open spec fn all_digits(text: Seq<char>) -> bool {
    forall|i: int| 0 <= i < text.len() ==> is_digit(#[trigger] text[i])
}

/// The number that a run of decimal digits writes, most significant first.
pub open spec fn digits_value(text: Seq<char>) -> int
    decreases text.len(),
{
    if text.len() == 0 {
        0
    } else {
        10 * digits_value(text.drop_last()) + (text.last() as int - '0' as int)
    }
}

/// Whether `text` opens with a sign.
pub open spec fn has_sign(text: Seq<char>) -> bool {
    text.len() > 0 && (text[0] == '-' || text[0] == '+')
}

/// The digits of `text`: all of it but a leading sign.
pub open spec fn unsigned_part(text: Seq<char>) -> Seq<char> {
    if has_sign(text) {
        text.skip(1)
    } else {
        text
    }
}

/// The integer that `text` writes in decimal: an optional `+` or `-`, then
/// one or more digits and nothing else. `None` for any other text.
pub open spec fn decimal(text: Seq<char>) -> Option<int> {
    let digits = unsigned_part(text);
    if digits.len() > 0 && all_digits(digits) {
        if text[0] == '-' {
            Some(-digits_value(digits))
        } else {
            Some(digits_value(digits))
        }
    } else {
        None
    }
}

/// The integer that `text` writes, where it lies between `low` and `high`.
pub open spec fn decimal_within(text: Seq<char>, low: int, high: int) -> Option<int> {
    match decimal(text) {
        Some(v) => if low <= v <= high {
            Some(v)
        } else {
            None
        },
        None => None,
    }
}

/// A run of digits is worth at least as much as each of its prefixes, and is
/// never negative.
proof fn lemma_prefix_value(text: Seq<char>, k: int)
    requires
        all_digits(text),
        0 <= k <= text.len(),
    ensures
        0 <= digits_value(text.take(k)) <= digits_value(text),
    decreases text.len(),
{
    if k == text.len() {
        assert(text.take(k) =~= text);
        if text.len() > 0 {
            lemma_prefix_value(text.drop_last(), k - 1);
            assert(text.drop_last().take(k - 1) =~= text.drop_last());
            assert(is_digit(text[text.len() - 1]));
        } else {
        }
    } else {
        lemma_prefix_value(text.drop_last(), k);
        assert(text.drop_last().take(k) =~= text.take(k));
        lemma_prefix_value(text.drop_last(), text.len() - 1);
        assert(text.drop_last().take(text.len() - 1) =~= text.drop_last());
        assert(is_digit(text[text.len() - 1]));
    }
}

/// Reads a decimal integer that must lie between `low` and `high`.
fn parse_within(text: &str, low: i64, high: i64) -> (value: Option<i64>)
    requires
        -0x8000_0000 <= low <= 0 <= high <= 0x7fff_ffff,
    ensures
        value.is_some() == decimal_within(text@, low as int, high as int).is_some(),
        value.is_some() ==> Some(value.unwrap() as int) == decimal_within(
            text@,
            low as int,
            high as int,
        ),
{
    let n: usize = text.unicode_len();
    if n == 0 {
        return None;
    }
    let first = text.get_char(0);
    let negative = first == '-';
    let begin: usize = if first == '-' || first == '+' {
        1
    } else {
        0
    };
    if begin == n {
        return None;
    }
    let ghost digits = unsigned_part(text@);
    let mut magnitude: i64 = 0;
    let mut i: usize = begin;
    while i < n
        invariant
            n == text@.len(),
            begin <= i <= n,
            digits == text@.skip(begin as int),
            digits == unsigned_part(text@),
            -0x8000_0000 <= low <= 0 <= high <= 0x7fff_ffff,
            all_digits(digits.take(i - begin)),
            magnitude == digits_value(digits.take(i - begin)),
            0 <= magnitude <= 0x8000_0000,
        decreases n - i,
    {
        let c = text.get_char(i);
        assert(digits[i - begin] == c);
        if !('0' <= c && c <= '9') {
            return None;
        }
        let d: i64 = (c as u32 - '0' as u32) as i64;
        proof {
            let next = digits.take(i - begin + 1);
            assert(next.drop_last() =~= digits.take(i - begin));
            assert(next.last() == c);
            assert forall|j: int| 0 <= j < next.len() implies is_digit(#[trigger] next[j]) by {
                if j < i - begin {
                    assert(next[j] == digits.take(i - begin)[j]);
                }
            }
        }
        magnitude = magnitude * 10 + d;
        if magnitude > 0x8000_0000 {
            proof {
                if all_digits(digits) {
                    lemma_prefix_value(digits, i - begin + 1);
                }
            }
            return None;
        }
        i = i + 1;
    }
    proof {
        assert(digits.take(n - begin) =~= digits);
    }
    let value: i64 = if negative {
        -magnitude
    } else {
        magnitude
    };
    if low <= value && value <= high {
        Some(value)
    } else {
        None
    }
}

/// The 32-bit number that `text` writes in decimal, if it writes one.
pub open spec fn number_of(text: Seq<char>) -> Option<i32> {
    match decimal_within(text, i32::MIN as int, i32::MAX as int) {
        Some(v) => Some(v as i32),
        None => None,
    }
}

/// The 16-bit colour component that `text` writes in decimal, if it writes
/// one.
pub open spec fn component_of(text: Seq<char>) -> Option<i16> {
    match decimal_within(text, i16::MIN as int, i16::MAX as int) {
        Some(v) => Some(v as i16),
        None => None,
    }
}

/// Reads a literal as a 32-bit number.
pub fn parse_number(text: &str) -> (value: Option<i32>)
    ensures
        value == number_of(text@),
{
    match parse_within(text, -0x8000_0000, 0x7fff_ffff) {
        Some(v) => Some(v as i32),
        None => None,
    }
}

/// Reads a literal as a 16-bit colour component.
pub fn parse_component(text: &str) -> (value: Option<i16>)
    ensures
        value == component_of(text@),
{
    match parse_within(text, -0x8000, 0x7fff) {
        Some(v) => Some(v as i16),
        None => None,
    }
}

} // verus!
