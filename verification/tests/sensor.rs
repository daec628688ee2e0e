use fas_rs::sensor::{IgnoreFrameTime, REFRESH_INTERVAL, SECOND};

#[test]
fn same_rate_needs_no_correction() {
    let s = IgnoreFrameTime::new(0, Some(60));
    assert_eq!(s.ign(1, 60), 1);
    assert_eq!(s.ign(16_666_666, 60), 16_666_666);
    assert_eq!(s.ign(5_000_000_000, 60), 5_000_000_000);
}

#[test]
fn unknown_rate_needs_no_correction() {
    let s = IgnoreFrameTime::new(0, None);
    assert_eq!(s.ign(1, 60), 1);
    assert_eq!(s.ign(40_000_000, 30), 40_000_000);
    assert_eq!(s.ign(40_000_000, 0), 40_000_000);
}

#[test]
fn a_long_frame_has_one_refresh_too_many() {
    let s = IgnoreFrameTime::new(0, Some(60));
    // 33_333_333 + 16_666_666 = 49_999_999
    assert_eq!(s.ign(60_000_000, 30), 43_333_334);
    assert_eq!(s.ign(50_000_000, 30), 33_333_334);
    assert_eq!(s.ign(49_999_999, 30), 49_999_999);
}

#[test]
fn a_short_frame_has_one_refresh_too_few() {
    let s = IgnoreFrameTime::new(0, Some(60));
    assert_eq!(s.ign(20_000_000, 30), 36_666_666);
    assert_eq!(s.ign(33_333_332, 30), 49_999_998);
    assert_eq!(s.ign(33_333_333, 30), 33_333_333);
    assert_eq!(s.ign(0, 30), 16_666_666);
}

#[test]
fn a_frame_in_between_is_kept() {
    let s = IgnoreFrameTime::new(0, Some(120));
    // 1 s / 90 = 11_111_111, 1 s / 120 = 8_333_333
    assert_eq!(s.ign(11_111_111, 90), 11_111_111);
    assert_eq!(s.ign(19_444_444, 90), 19_444_444);
    assert_eq!(s.ign(19_444_445, 90), 11_111_112);
    assert_eq!(s.ign(11_111_110, 90), 19_444_443);
}

#[test]
fn the_refresh_rate_is_polled_every_five_seconds() {
    let mut s = IgnoreFrameTime::new(7 * SECOND, Some(60));
    assert_eq!(REFRESH_INTERVAL, 5 * SECOND);
    assert!(!s.refresh_due(7 * SECOND));
    assert!(!s.refresh_due(12 * SECOND - 1));
    assert!(s.refresh_due(12 * SECOND));
    assert!(s.refresh_due(100 * SECOND));
    assert!(!s.refresh_due(0));
    s.refresh(12 * SECOND, Some(90));
    assert_eq!(s.refresh_rate(), Some(90));
    assert!(!s.refresh_due(12 * SECOND));
    assert!(!s.refresh_due(17 * SECOND - 1));
    assert!(s.refresh_due(17 * SECOND));
    assert_eq!(s.ign(20_000_000, 90), 20_000_000);
    s.refresh(17 * SECOND, None);
    assert_eq!(s.refresh_rate(), None);
}
