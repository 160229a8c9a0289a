//! The two tunable settings of the dead-letter queue, read from text.
use vstd::prelude::*;

verus! {

/// Retries before an entry is marked permanently failed, where nothing else is set.
pub const DEFAULT_MAX_RETRIES: i32 = 5;

/// Base delay of the backoff in seconds, where nothing else is set.
pub const DEFAULT_BASE_DELAY_SECS: i64 = 60;

/// Whether a character is a decimal digit.
pub open spec fn is_digit(c: char) -> bool {
    '0' <= c <= '9'
}

/// The number that a run of decimal digits stands for.
pub open spec fn digits_value(s: Seq<char>) -> nat
    decreases s.len(),
{
    if s.len() == 0 {
        0
    } else {
        10 * digits_value(s.drop_last()) + (s.last() as nat - '0' as nat) as nat
    }
}

/// What follows an optional sign.
pub open spec fn unsigned_part(s: Seq<char>) -> Seq<char> {
    if s.len() > 0 && (s[0] == '-' || s[0] == '+') {
        s.skip(1)
    } else {
        s
    }
}

/// The integer that a text denotes: an optional sign, then one or more decimal digits,
/// and nothing else.
pub open spec fn decimal(s: Seq<char>) -> Option<int> {
    let digits = unsigned_part(s);
    if digits.len() > 0 && forall|i: int|
        0 <= i < digits.len() ==> is_digit(#[trigger] digits[i]) {
        Some(
            if s[0] == '-' {
                -(digits_value(digits) as int)
            } else {
                digits_value(digits) as int
            },
        )
    } else {
        None
    }
}

/// A setting's value: the integer that its text denotes, or the default where there is
/// no text, or it denotes no integer between `min` and `max`.
pub open spec fn setting_value(text: Option<Seq<char>>, min: int, max: int, default: int) -> int {
    match text {
        Some(s) => match decimal(s) {
            Some(v) => if min <= v <= max {
                v
            } else {
                default
            },
            None => default,
        },
        None => default,
    }
}

/// The text of an optional string.
pub open spec fn text_of(value: Option<&str>) -> Option<Seq<char>> {
    match value {
        Some(s) => Some(s@),
        None => None,
    }
}

/// Parses a decimal integer between `min` and `max`.
fn parse_between(s: &str, min: i64, max: i64) -> (r: Option<i64>)
    ensures
        r == match decimal(s@) {
            Some(v) => if min <= v <= max {
                Some(v as i64)
            } else {
                None
            },
            None => None,
        },
{
    let mut negative: bool = false;
    let mut magnitude: u128 = 0;
    let mut any_digit: bool = false;
    let mut at_start: bool = true;
    let ghost text = s@;
    let ghost sign: int = if text.len() > 0 && (text[0] == '-' || text[0] == '+') { 1 } else { 0 };
    assert(unsigned_part(text) =~= text.skip(sign));
    for c in it: s.chars()
        invariant
            text == s@,
            it.seq() == text,
            unsigned_part(text) == text.skip(sign),
            sign == if text.len() > 0 && (text[0] == '-' || text[0] == '+') { 1int } else { 0int },
            at_start == (it.index() == 0),
            negative == (it.index() > 0 && text[0] == '-'),
            any_digit == (it.index() > sign),
            forall|k: int| sign <= k < it.index() ==> is_digit(#[trigger] text[k]),
            it.index() > 0 ==> sign <= it.index(),
            it.index() <= sign ==> magnitude == 0,
            it.index() > sign && magnitude <= u64::MAX ==> magnitude == digits_value(
                text.subrange(sign, it.index()),
            ),
            it.index() > sign && magnitude > u64::MAX ==> digits_value(
                text.subrange(sign, it.index()),
            ) > u64::MAX,
            magnitude <= 10 * u64::MAX + 9,
    {
        let ghost i = it.index();
        assert(c == text[i]);
        if at_start && (c == '-' || c == '+') {
            negative = c == '-';
        } else if '0' <= c && c <= '9' {
            proof {
                assert(sign <= i);
                assert(text.subrange(sign, i + 1).drop_last() =~= text.subrange(sign, i));
                assert(text.subrange(sign, i).len() == 0 ==> digits_value(text.subrange(sign, i))
                    == 0);
            }
            if magnitude <= 0xFFFF_FFFF_FFFF_FFFF {
                magnitude = magnitude * 10 + (c as u32 - '0' as u32) as u128;
            }
            any_digit = true;
        } else {
            assert(!is_digit(text.skip(sign)[i - sign]));
            return None;
        }
        at_start = false;
    }
    proof {
        if any_digit {
            assert(text.subrange(sign, text.len() as int) =~= text.skip(sign));
            assert forall|k: int| 0 <= k < text.skip(sign).len() implies is_digit(
                #[trigger] text.skip(sign)[k],
            ) by {
                assert(text[k + sign] == text.skip(sign)[k]);
            }
        }
    }
    if !any_digit || magnitude > 0xFFFF_FFFF_FFFF_FFFF {
        return None;
    }
    let value: i128 = if negative {
        -(magnitude as i128)
    } else {
        magnitude as i128
    };
    if min as i128 <= value && value <= max as i128 {
        Some(value as i64)
    } else {
        None
    }
}

/// Maximum number of automatic DLQ retries before marking permanently failed: the
/// integer that the setting's text denotes, or `DEFAULT_MAX_RETRIES`.
pub fn dlq_max_retries(value: Option<&str>) -> (r: i32)
    ensures
        r == setting_value(
            text_of(value),
            i32::MIN as int,
            i32::MAX as int,
            DEFAULT_MAX_RETRIES as int,
        ),
        value is None ==> r == 5,
        value matches Some(s) ==> (match decimal(s@) {
            Some(v) => r == if i32::MIN <= v <= i32::MAX {
                v
            } else {
                5
            },
            None => r == 5,
        }),
{
    match value {
        Some(s) => match parse_between(s, i32::MIN as i64, i32::MAX as i64) {
            Some(v) => v as i32,
            None => DEFAULT_MAX_RETRIES,
        },
        None => DEFAULT_MAX_RETRIES,
    }
}

/// Base delay in seconds for exponential backoff: the integer that the setting's text
/// denotes, or `DEFAULT_BASE_DELAY_SECS`.
pub fn dlq_base_delay_secs(value: Option<&str>) -> (r: i64)
    ensures
        r == setting_value(
            text_of(value),
            i64::MIN as int,
            i64::MAX as int,
            DEFAULT_BASE_DELAY_SECS as int,
        ),
        value is None ==> r == 60,
        value matches Some(s) ==> (match decimal(s@) {
            Some(v) => r == if i64::MIN <= v <= i64::MAX {
                v
            } else {
                60
            },
            None => r == 60,
        }),
{
    match value {
        Some(s) => match parse_between(s, i64::MIN, i64::MAX) {
            Some(v) => v,
            None => DEFAULT_BASE_DELAY_SECS,
        },
        None => DEFAULT_BASE_DELAY_SECS,
    }
}

/// What a setting's text is worth: the integer it denotes if that lies within the limits,
/// and otherwise the default, as where there is no text.
pub proof fn law_setting(text: &str, v: int, min: int, max: int, default: int)
    ensures
        setting_value(text_of(None), min, max, default) == default,
        decimal(text@) is None ==> setting_value(text_of(Some(text)), min, max, default)
            == default,
        decimal(text@) == Some(v) && min <= v <= max ==> setting_value(
            text_of(Some(text)),
            min,
            max,
            default,
        ) == v,
        decimal(text@) == Some(v) && !(min <= v <= max) ==> setting_value(
            text_of(Some(text)),
            min,
            max,
            default,
        ) == default,
{
}

/// Digits that are appended to a number are its next decimal places: one more digit makes
/// ten times the number, and the digit further away from zero. A single digit is itself.
pub proof fn law_decimal_places(s: Seq<char>, c: char)
    requires
        '0' <= c <= '9',
    ensures
        decimal(seq![c]) == Some(c as int - '0' as int),
        decimal(seq!['-', c]) == Some('0' as int - c as int),
        decimal(seq!['+', c]) == Some(c as int - '0' as int),
        decimal(s) matches Some(v) ==> decimal(s.push(c)) == Some(
            if s[0] == '-' {
                10 * v - (c as int - '0' as int)
            } else {
                10 * v + (c as int - '0' as int)
            },
        ),
{
    reveal_with_fuel(digits_value, 2);
    assert(unsigned_part(seq![c]) =~= seq![c]);
    assert(unsigned_part(seq!['-', c]) =~= seq![c]);
    assert(unsigned_part(seq!['+', c]) =~= seq![c]);
    assert(seq![c].drop_last() =~= Seq::<char>::empty());
    if decimal(s) is Some {
        let digits = unsigned_part(s);
        assert(unsigned_part(s.push(c)) =~= digits.push(c));
        assert(digits.push(c).drop_last() =~= digits);
        assert forall|i: int| 0 <= i < digits.push(c).len() implies is_digit(
            #[trigger] digits.push(c)[i],
        ) by {
            if i < digits.len() {
                assert(digits.push(c)[i] == digits[i]);
            }
        }
    }
}

/// Nothing but a sign and digits is a number: a text with any other character, with a sign
/// anywhere but in front, or without a digit, denotes none.
pub proof fn law_not_decimal(s: Seq<char>, i: int)
    ensures
        decimal(Seq::<char>::empty()) is None,
        decimal(seq!['-']) is None,
        decimal(seq!['+']) is None,
        0 <= i < s.len() && !('0' <= s[i] <= '9') && !(i == 0 && (s[i] == '-' || s[i] == '+'))
            ==> decimal(s) is None,
{
    assert(unsigned_part(seq!['-']) =~= Seq::<char>::empty());
    assert(unsigned_part(seq!['+']) =~= Seq::<char>::empty());
    if 0 <= i < s.len() && !('0' <= s[i] <= '9') && !(i == 0 && (s[i] == '-' || s[i] == '+')) {
        let digits = unsigned_part(s);
        if s[0] == '-' || s[0] == '+' {
            assert(digits[i - 1] == s[i]);
        } else {
            assert(digits[i] == s[i]);
        }
    }
}

} // verus!
