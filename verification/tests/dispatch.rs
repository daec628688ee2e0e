use fas_rs::dispatch::{reduce, window_size, Directive, GameContext, JankDispatch};
use fas_rs::error::DispatchError;

fn game(name: &str, target_fps: u32) -> Option<GameContext> {
    Some(GameContext { game: name.to_string(), target_fps })
}

#[test]
fn window_reduction_reports_the_worst_sample() {
    let buffer = vec![3, 1, 4, 1, 5, 9, 2, 6];
    assert_eq!(reduce(&buffer, None), 9);
}

#[test]
fn window_reduction_is_held_to_the_ceiling() {
    let buffer = vec![3, 1, 4, 1, 5, 9, 2, 6];
    assert_eq!(reduce(&buffer, Some(5)), 5);
    assert_eq!(reduce(&buffer, Some(9)), 9);
    assert_eq!(reduce(&buffer, Some(100)), 9);
    assert_eq!(reduce(&buffer, Some(0)), 0);
}

#[test]
fn empty_window_reduces_to_zero() {
    assert_eq!(reduce(&Vec::new(), None), 0);
    assert_eq!(reduce(&Vec::new(), Some(7)), 0);
}

#[test]
fn buffer_size_formula() {
    assert_eq!(window_size(60, 120), Ok(30));
}

#[test]
fn window_size_has_a_floor_of_five_frames_before_scaling() {
    assert_eq!(window_size(8, 60), Ok(37));
    assert_eq!(window_size(1, 1), Ok(5));
    assert_eq!(window_size(20, 20), Ok(5));
    assert_eq!(window_size(24, 24), Ok(6));
}

#[test]
fn window_size_scales_with_the_display() {
    assert_eq!(window_size(240, 60), Ok(15));
    assert_eq!(window_size(90, 120), Ok(29));
    assert_eq!(window_size(60, 0), Ok(0));
}

#[test]
fn window_size_reports_overflow() {
    assert_eq!(window_size(u32::MAX, u32::MAX), Err(DispatchError::NumericOverflow));
    assert_eq!(window_size(4, 858_993_460), Err(DispatchError::NumericOverflow));
    assert_eq!(window_size(4, 858_993_459), Ok(1_073_741_823));
}

#[test]
fn a_new_loop_is_idle_with_windows_of_fifteen() {
    let mut d = JankDispatch::new(None);
    assert_eq!(d.window(), 15);
    assert_eq!(d.buffered(), 0);
    assert!(!d.context_changed(&None));
    for level in 1..15 {
        assert_eq!(d.sample(level), None);
    }
    assert_eq!(d.buffered(), 14);
    assert_eq!(d.sample(2), Some(14));
    assert_eq!(d.buffered(), 0);
}

#[test]
fn a_full_window_is_reported_and_started_over() {
    let mut d = JankDispatch::new(None);
    assert_eq!(d.switch_context(game("a", 60), 32), Ok(Directive::InitGame(60)));
    assert_eq!(d.window(), 8);
    let samples = [3, 1, 4, 1, 5, 9, 2, 6];
    for level in &samples[..7] {
        assert_eq!(d.sample(*level), None);
    }
    assert_eq!(d.sample(samples[7]), Some(9));
    assert_eq!(d.buffered(), 0);
    for _ in 0..7 {
        assert_eq!(d.sample(1), None);
    }
    assert_eq!(d.sample(0), Some(1));
}

#[test]
fn the_ceiling_holds_every_report() {
    let mut d = JankDispatch::new(Some(5));
    assert_eq!(d.switch_context(game("a", 60), 32), Ok(Directive::InitGame(60)));
    for level in [3, 1, 4, 1, 5, 9, 2] {
        assert_eq!(d.sample(level), None);
    }
    assert_eq!(d.sample(6), Some(5));
}

#[test]
fn context_switch_initialises_once_and_drops_the_partial_window() {
    let mut d = JankDispatch::new(None);
    let a = game("game A", 60);
    let b = game("game B", 90);

    assert!(d.context_changed(&a));
    assert_eq!(d.switch_context(game("game A", 60), 60), Ok(Directive::InitGame(60)));
    assert!(!d.context_changed(&a));
    assert_eq!(d.window(), 15);

    assert_eq!(d.sample(100), None);
    assert_eq!(d.sample(200), None);
    assert_eq!(d.buffered(), 2);

    assert!(d.context_changed(&b));
    assert_eq!(d.switch_context(game("game B", 90), 60), Ok(Directive::InitGame(90)));
    assert!(!d.context_changed(&b));
    assert!(d.context_changed(&a));
    assert_eq!(d.window(), 14);
    assert_eq!(d.buffered(), 0);

    for _ in 0..13 {
        assert_eq!(d.sample(1), None);
    }
    assert_eq!(d.sample(2), Some(2));
}

#[test]
fn same_game_at_another_frame_rate_is_a_switch() {
    let mut d = JankDispatch::new(None);
    assert_eq!(d.switch_context(game("a", 60), 60), Ok(Directive::InitGame(60)));
    assert!(d.context_changed(&game("a", 90)));
    assert!(d.context_changed(&game("b", 60)));
    assert!(d.context_changed(&None));
    assert!(!d.context_changed(&game("a", 60)));
}

#[test]
fn the_idle_profile_keeps_the_window_size() {
    let mut d = JankDispatch::new(None);
    assert_eq!(d.switch_context(game("a", 60), 32), Ok(Directive::InitGame(60)));
    assert_eq!(d.window(), 8);
    assert_eq!(d.sample(7), None);
    assert_eq!(d.switch_context(None, 120), Ok(Directive::InitDefault));
    assert_eq!(d.window(), 8);
    assert_eq!(d.buffered(), 0);
    assert!(!d.context_changed(&None));
}

#[test]
fn a_switch_that_overflows_changes_nothing() {
    let mut d = JankDispatch::new(None);
    assert_eq!(d.sample(3), None);
    assert_eq!(
        d.switch_context(game("a", u32::MAX), u32::MAX),
        Err(DispatchError::NumericOverflow)
    );
    assert_eq!(d.window(), 15);
    assert_eq!(d.buffered(), 1);
    assert!(!d.context_changed(&None));
}

#[test]
fn a_window_of_zero_reports_every_sample() {
    let mut d = JankDispatch::new(None);
    assert_eq!(d.switch_context(game("a", 60), 0), Ok(Directive::InitGame(60)));
    assert_eq!(d.window(), 0);
    assert_eq!(d.sample(4), Some(4));
    assert_eq!(d.sample(2), Some(2));
}
