use rk9::duration::{duration_string, now, unix_time_of};
use rk9::text::decimal_string;

#[test]
fn decimal_string_writes_numbers() {
    assert_eq!(decimal_string(0), "0");
    assert_eq!(decimal_string(7), "7");
    assert_eq!(decimal_string(10), "10");
    assert_eq!(decimal_string(1234567890), "1234567890");
    assert_eq!(decimal_string(u64::MAX), u64::MAX.to_string());
}

#[test]
fn duration_string_instantly() {
    assert_eq!(duration_string(0), "Instantly?!");
}

#[test]
fn duration_string_single_parts() {
    assert_eq!(duration_string(5), "5 seconds");
    assert_eq!(duration_string(60), "1 minutes");
    assert_eq!(duration_string(3600), "1 hours");
    assert_eq!(duration_string(7200), "2 hours");
}

#[test]
fn duration_string_two_parts() {
    assert_eq!(duration_string(3660), "1 hours, 1 minutes");
    assert_eq!(duration_string(3605), "1 hours, 5 seconds");
    assert_eq!(duration_string(65), "1 minutes, 5 seconds");
}

#[test]
fn duration_string_three_parts() {
    assert_eq!(duration_string(3665), "1 hours, 1 minutes, 5 seconds");
    assert_eq!(duration_string(90061), "25 hours, 1 minutes, 1 seconds");
}

#[test]
fn duration_parts_recombine_on_values() {
    for dur in [0u64, 59, 60, 61, 3599, 3600, 3661, 86399, 1_000_000] {
        let (s, m, h) = (dur % 60, (dur / 60) % 60, (dur / 60) / 60);
        assert_eq!(h * 3600 + m * 60 + s, dur);
        assert!(s < 60 && m < 60);
    }
}

#[test]
fn now_is_after_the_epoch() {
    let d = now().expect("clock before the epoch");
    assert!(d.as_secs() > 1_600_000_000);
}

#[test]
fn unix_time_of_readings() {
    let five = std::time::Duration::from_secs(5);
    assert_eq!(unix_time_of(Ok(five)), Some(five));
    let before = std::time::UNIX_EPOCH
        .duration_since(std::time::UNIX_EPOCH + std::time::Duration::from_secs(1));
    assert!(before.is_err());
    assert_eq!(unix_time_of(before), None);
}

#[test]
fn duration_texts_differ() {
    let texts: Vec<String> = (0u64..4000).map(duration_string).collect();
    let mut sorted = texts.clone();
    sorted.sort();
    sorted.dedup();
    assert_eq!(sorted.len(), texts.len());
}
