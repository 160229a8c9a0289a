//! The settings of the dead-letter queue.
use synapse_core::services::dlq_settings::{
    dlq_base_delay_secs, dlq_max_retries, DEFAULT_BASE_DELAY_SECS, DEFAULT_MAX_RETRIES,
};

const TEXTS: [&str; 33] = [
    "", "0", "5", "7", "007", "42", "+3", "-3", "+", "-", "--1", "+-1", "-+1", "1-", " 5", "5 ",
    "5\n", "1_000", "0x10", "1.5", "1e3", "abc", "2147483647", "2147483648", "-2147483648",
    "-2147483649", "9223372036854775807", "9223372036854775808", "-9223372036854775808",
    "-9223372036854775809", "18446744073709551616", "99999999999999999999999999999999999999999999",
    "\u{0661}",
];

#[test]
fn defaults() {
    assert_eq!(DEFAULT_MAX_RETRIES, 5);
    assert_eq!(DEFAULT_BASE_DELAY_SECS, 60);
    assert_eq!(dlq_max_retries(None), 5);
    assert_eq!(dlq_base_delay_secs(None), 60);
}

#[test]
fn numbers_are_read() {
    assert_eq!(dlq_max_retries(Some("12")), 12);
    assert_eq!(dlq_max_retries(Some("-1")), -1);
    assert_eq!(dlq_base_delay_secs(Some("+90")), 90);
    assert_eq!(dlq_base_delay_secs(Some("-9223372036854775808")), i64::MIN);
}

#[test]
fn anything_else_gives_the_default() {
    assert_eq!(dlq_max_retries(Some("")), 5);
    assert_eq!(dlq_max_retries(Some("many")), 5);
    assert_eq!(dlq_max_retries(Some("2147483648")), 5);
    assert_eq!(dlq_base_delay_secs(Some(" 30")), 60);
    assert_eq!(dlq_base_delay_secs(Some("9223372036854775808")), 60);
}

#[test]
fn same_numbers_as_the_standard_library() {
    for text in TEXTS {
        assert_eq!(dlq_max_retries(Some(text)), text.parse().unwrap_or(5_i32), "{:?}", text);
        assert_eq!(dlq_base_delay_secs(Some(text)), text.parse().unwrap_or(60_i64), "{:?}", text);
    }
}

#[test]
fn leading_zeros_do_not_overflow() {
    let text = format!("{}8", "0".repeat(200));
    assert_eq!(dlq_max_retries(Some(&text)), 8);
}
