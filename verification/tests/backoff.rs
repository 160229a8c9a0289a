//! When a retry comes next.
use chrono::{DateTime, Duration, TimeZone, Utc};
use synapse_core::services::transaction_processor::{next_retry_at, next_retry_in_range};
use synapse_core::time::{Timestamp, MAX_SECS, MIN_SECS};

fn stamp(t: DateTime<Utc>) -> Timestamp {
    Timestamp { secs: t.timestamp(), nanos: t.timestamp_subsec_nanos() }
}

fn date_time(t: Timestamp) -> DateTime<Utc> {
    DateTime::from_timestamp(t.secs, t.nanos).unwrap()
}

fn next(base: DateTime<Utc>, retry_count: i32, base_delay: i64) -> DateTime<Utc> {
    assert!(next_retry_in_range(&stamp(base), retry_count, base_delay));
    date_time(next_retry_at(stamp(base), retry_count, base_delay))
}

#[test]
fn test_backoff_calculation() {
    let base = Utc::now();
    let base_delay = 60_i64;

    // retry_count=0: delay = 60 * 2^0 = 60s
    let t0 = next(base, 0, base_delay);
    assert_eq!((t0 - base).num_seconds(), 60);

    // retry_count=1: delay = 60 * 2^1 = 120s
    let t1 = next(base, 1, base_delay);
    assert_eq!((t1 - base).num_seconds(), 120);

    // retry_count=2: delay = 60 * 2^2 = 240s
    let t2 = next(base, 2, base_delay);
    assert_eq!((t2 - base).num_seconds(), 240);

    // retry_count=4: delay = 60 * 2^4 = 960s
    let t4 = next(base, 4, base_delay);
    assert_eq!((t4 - base).num_seconds(), 960);
}

#[test]
fn test_backoff_calculation_unit() {
    let base = Utc::now();
    let base_delay = 60_i64;

    assert_eq!((next(base, 0, base_delay) - base).num_seconds(), 60);
    assert_eq!((next(base, 1, base_delay) - base).num_seconds(), 120);
    assert_eq!((next(base, 2, base_delay) - base).num_seconds(), 240);
    assert_eq!((next(base, 3, base_delay) - base).num_seconds(), 480);
}

#[test]
fn exact_instant() {
    let t = Timestamp { secs: 1_700_000_000, nanos: 123_456_789 };
    assert_eq!(
        next_retry_at(t, 3, 10),
        Timestamp { secs: 1_700_000_080, nanos: 123_456_789 }
    );
}

#[test]
fn the_delay_is_the_base_times_a_power_of_two() {
    let epoch = Timestamp { secs: 0, nanos: 0 };
    assert_eq!(next_retry_at(epoch, 30, 1).secs, 1_073_741_824);
    assert_eq!(next_retry_at(epoch, 31, 1), Timestamp { secs: 2_147_483_648, nanos: 0 });
    assert_eq!(next_retry_at(epoch, 32, 1).secs, 4_294_967_296);
    assert_eq!(next_retry_at(epoch, 42, 1).secs, 4_398_046_511_104);
    assert_eq!(next_retry_at(epoch, 35, -3).secs, -3 * (1 << 35));
}

#[test]
fn each_retry_doubles_while_representable() {
    let t = Timestamp { secs: 0, nanos: 0 };
    for n in 0..40 {
        assert_eq!(next_retry_at(t, n + 1, 7).secs, 2 * next_retry_at(t, n, 7).secs);
    }
}

#[test]
fn delays_that_cannot_be_represented_fall_back() {
    let t = Timestamp { secs: 0, nanos: 0 };
    // 7 * 2^40 seconds can still be represented, 7 * 2^41 cannot.
    assert_eq!(next_retry_at(t, 40, 7).secs, 7 * (1 << 40));
    for n in [41, 62, 63, 64, 65, 1_000, i32::MAX] {
        assert!(next_retry_in_range(&t, n, 7));
        assert_eq!(next_retry_at(t, n, 7).secs, 7 * (1 << 30));
        assert_eq!(next_retry_at(t, n, -7).secs, -7 * (1 << 30));
        assert_eq!(next_retry_at(t, n, 0), t);
    }
    // Up to the exponent 30 there is nothing to fall back to.
    assert!(next_retry_in_range(&t, 29, 15_000));
    assert!(!next_retry_in_range(&t, 30, 15_000));
    assert!(!next_retry_in_range(&t, 31, 15_000));
}

#[test]
fn delay_never_shrinks() {
    let t = Timestamp { secs: 5, nanos: 6 };
    for n in 0..36 {
        assert!(next_retry_at(t, n, 60).at_or_before(&next_retry_at(t, n + 1, 60)));
    }
    for n in 38..80 {
        assert!(next_retry_at(t, n, 60).at_or_before(&next_retry_at(t, n + 1, 60)));
    }
}

#[test]
fn negative_and_zero_base_delay() {
    let t = Timestamp { secs: 1_000, nanos: 9 };
    assert_eq!(next_retry_at(t, 5, 0), t);
    assert_eq!(next_retry_at(t, 2, -10), Timestamp { secs: 960, nanos: 9 });
}

#[test]
fn leap_seconds_follow_the_calendar_crate() {
    let leap = Timestamp { secs: 1_483_228_799, nanos: 1_300_000_000 };
    assert!(leap.is_valid());
    for delay in [0_i64, 1, 10, 86_400, -1, -10, -86_400] {
        let expected = date_time(leap) + Duration::seconds(delay);
        assert_eq!(next_retry_at(leap, 0, delay), stamp(expected));
    }
    assert_eq!(
        next_retry_at(leap, 0, 10),
        Timestamp { secs: 1_483_228_809, nanos: 300_000_000 }
    );
    assert_eq!(
        next_retry_at(leap, 0, -10),
        Timestamp { secs: 1_483_228_790, nanos: 300_000_000 }
    );
    assert_eq!(next_retry_at(leap, 0, 0), leap);
}

#[test]
fn limits_are_those_of_the_calendar_crate() {
    assert_eq!(MIN_SECS, DateTime::<Utc>::MIN_UTC.timestamp());
    assert_eq!(MAX_SECS, DateTime::<Utc>::MAX_UTC.timestamp());
    assert!(Utc.timestamp_opt(MIN_SECS - 1, 0).single().is_none());
    assert!(Utc.timestamp_opt(MAX_SECS + 1, 0).single().is_none());
    for secs in [MIN_SECS, -61, -60, -59, -1, 0, 58, 59, 60, 119, MAX_SECS - 1, MAX_SECS] {
        for nanos in [0, 999_999_999, 1_000_000_000, 1_999_999_999, 2_000_000_000, u32::MAX] {
            assert_eq!(
                Timestamp { secs, nanos }.is_valid(),
                DateTime::from_timestamp(secs, nanos).is_some()
            );
        }
    }
}

#[test]
fn limits_can_be_reached() {
    let t = Timestamp { secs: MAX_SECS - 60, nanos: 1 };
    assert!(next_retry_in_range(&t, 0, 60));
    assert_eq!(next_retry_at(t, 0, 60), Timestamp { secs: MAX_SECS, nanos: 1 });
    assert!(!next_retry_in_range(&t, 0, 61));
    let t = Timestamp { secs: MIN_SECS + 60, nanos: 1 };
    assert!(next_retry_in_range(&t, 0, -60));
    assert_eq!(next_retry_at(t, 0, -60), Timestamp { secs: MIN_SECS, nanos: 1 });
    assert!(!next_retry_in_range(&t, 0, -61));
}

#[test]
fn out_of_range_is_told() {
    let t = Timestamp { secs: 0, nanos: 0 };
    assert!(!next_retry_in_range(&t, -1, 60));
    assert!(!next_retry_in_range(&t, 30, i64::MAX));
    assert!(!next_retry_in_range(&t, 30, i64::MIN));
    assert!(!next_retry_in_range(&t, 0, i64::MAX));
    assert!(!next_retry_in_range(&Timestamp { secs: 0, nanos: 1_500_000_000 }, 0, 1));
}
