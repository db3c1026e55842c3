use rhythm::arrows::move_arrows;
use rhythm::arrows::Arrow;
use rhythm::types::Directions;
use rhythm::types::Speed;

fn arrow_at(x: i64, speed: Speed) -> Arrow {
    Arrow { speed, direction: Directions::Up, x, y: 150_000, scale: 1_000, rotation: 0 }
}

#[test]
fn advances_by_delta_times_speed() {
    let mut arrows = vec![
        arrow_at(-400_000, Speed::Slow),
        arrow_at(-400_000, Speed::Medium),
        arrow_at(-400_000, Speed::Fast),
    ];
    move_arrows(&mut arrows, 100);
    // 200, 240 and 300 millipixels per millisecond.
    assert_eq!(arrows[0].x, -380_000);
    assert_eq!(arrows[1].x, -376_000);
    assert_eq!(arrows[2].x, -370_000);
}

#[test]
fn motion_is_strictly_increasing_while_live() {
    let mut arrows = vec![arrow_at(-400_000, Speed::Slow)];
    let mut last_x = arrows[0].x;
    for _ in 0..40 {
        move_arrows(&mut arrows, 16);
        assert!(arrows[0].x > last_x);
        last_x = arrows[0].x;
    }
}

#[test]
fn zero_delta_moves_nothing() {
    let mut arrows = vec![arrow_at(-100_000, Speed::Fast)];
    move_arrows(&mut arrows, 0);
    assert_eq!(arrows[0].x, -100_000);
    assert_eq!(arrows[0].y, 150_000);
    assert_eq!(arrows[0].scale, 1_000);
}

#[test]
fn no_decay_before_the_margin() {
    // Lands exactly at the end of the clickable window: margin 0, below the
    // 20 millipixel minimum, so no decay.
    let mut arrows = vec![arrow_at(219_000, Speed::Slow)];
    move_arrows(&mut arrows, 5);
    assert_eq!(arrows[0].x, 220_000);
    assert_eq!(arrows[0].y, 150_000);
    assert_eq!(arrows[0].scale, 1_000);
    assert_eq!(arrows[0].rotation, 0);
}

#[test]
fn decay_at_exactly_the_minimum_margin() {
    // Lands 20 millipixels past the window: decay applies.
    let mut arrows = vec![arrow_at(219_020, Speed::Slow)];
    move_arrows(&mut arrows, 5);
    assert_eq!(arrows[0].x, 220_020);
    // y drops by delta * margin * 2 / 1000 = 5 * 20 * 2 / 1000 = 0.
    assert_eq!(arrows[0].y, 150_000);
    // scale = 1000 - 20 / 300 = 1000.
    assert_eq!(arrows[0].scale, 1_000);
}

#[test]
fn decay_drops_shrinks_and_spins_past_the_target() {
    // One 100 ms tick from 250_000: x lands at 270_000, margin 50_000.
    let mut arrows = vec![arrow_at(250_000, Speed::Slow)];
    move_arrows(&mut arrows, 100);
    assert_eq!(arrows[0].x, 270_000);
    // y drops by 100 * 50_000 * 2 / 1000 = 10_000.
    assert_eq!(arrows[0].y, 140_000);
    // scale = 1000 - 50_000 / 300 = 1000 - 166 = 834.
    assert_eq!(arrows[0].scale, 834);
    // spin = -(50_000 * 1000 / 2_500_000) = -20 milliradians.
    assert_eq!(arrows[0].rotation, -20);
}

#[test]
fn faster_classes_spin_faster() {
    let mut arrows = vec![arrow_at(250_000, Speed::Slow), arrow_at(250_000, Speed::Fast)];
    move_arrows(&mut arrows, 0);
    // Same margin 30_000 for both after a zero-length tick... margin comes
    // from position alone; both are 30_000 past the window.
    assert_eq!(arrows[0].rotation, -12);
    assert_eq!(arrows[1].rotation, -18);
}

#[test]
fn scale_never_exceeds_one_nor_drops_below_the_floor() {
    let mut arrows = vec![arrow_at(219_020, Speed::Slow)];
    for _ in 0..200 {
        move_arrows(&mut arrows, 16);
        assert!(arrows[0].scale <= 1_000);
        assert!(arrows[0].scale >= 200);
    }
    // Far past the target the floor has been reached.
    assert_eq!(arrows[0].scale, 200);
}
