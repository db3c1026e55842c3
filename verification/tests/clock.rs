use rhythm::score::ScoreResource;
use rhythm::time::ControlledTime;

#[test]
fn update_tracks_elapsed_and_delta() {
    let mut clock = ControlledTime::default();
    clock.update_with_instant(100);
    assert_eq!(clock.millis_since_startup(), 100);
    // The very first update has no previous instant: delta stays 0.
    assert_eq!(clock.delta_millis(), 0);

    clock.update_with_instant(116);
    assert_eq!(clock.millis_since_startup(), 116);
    assert_eq!(clock.delta_millis(), 16);

    clock.update_with_instant(150);
    assert_eq!(clock.delta_millis(), 34);
}

#[test]
fn elapsed_is_monotonic_between_resets() {
    let mut clock = ControlledTime::default();
    let mut last: i64 = 0;
    for now in [3, 10, 11, 11, 250, 1_000] {
        clock.update_with_instant(now);
        assert!(clock.millis_since_startup() >= last);
        last = clock.millis_since_startup();
    }
}

#[test]
fn backwards_jump_clamps_delta_to_zero() {
    let mut clock = ControlledTime::default();
    clock.update_with_instant(1_000);
    clock.update_with_instant(900);
    assert_eq!(clock.delta_millis(), 0);
}

#[test]
fn reset_zeroes_elapsed_and_moves_the_epoch() {
    let mut clock = ControlledTime::default();
    clock.update_with_instant(400);
    clock.update_with_instant(500);
    assert_eq!(clock.millis_since_startup(), 500);

    clock.reset_time(500);
    assert_eq!(clock.millis_since_startup(), 0);
    // The delta from the prior tick is untouched until the next update.
    assert_eq!(clock.delta_millis(), 100);

    clock.update_with_instant(530);
    assert_eq!(clock.millis_since_startup(), 30);
    assert_eq!(clock.delta_millis(), 30);
}

#[test]
fn reset_mid_session_leaves_resolved_score_alone() {
    // Resetting the clock zeroes elapsed time and does not retroactively
    // alter the score board.
    let mut clock = ControlledTime::default();
    let mut score = ScoreResource::default();
    clock.update_with_instant(1_000);
    score.increase_correct(0);
    score.increase_fails();

    clock.reset_time(1_000);
    assert_eq!(clock.millis_since_startup(), 0);
    assert_eq!(score.score(), 100);
    assert_eq!(score.corrects(), 1);
    assert_eq!(score.fails(), 1);
}
