use rhythm::arrows::spawn_arrows;
use rhythm::consts::SPAWN_POSITION;
use rhythm::types::ArrowTime;
use rhythm::types::ArrowTimeToml;
use rhythm::types::Directions;
use rhythm::types::SongConfig;
use rhythm::types::Speed;

fn entry(spawn_time: i64, direction: Directions) -> ArrowTime {
    ArrowTime { spawn_time, speed: Speed::Slow, direction }
}

fn config(arrows: Vec<ArrowTime>) -> SongConfig {
    SongConfig { name: String::from("test song"), arrows }
}

#[test]
fn fires_exactly_the_events_in_the_window() {
    let mut config = config(vec![
        entry(1_000, Directions::Up),
        entry(1_500, Directions::Down),
        entry(2_500, Directions::Left),
    ]);
    let spawned = spawn_arrows(&mut config, 2_000, 900);
    assert_eq!(spawned.len(), 2);
    assert_eq!(spawned[0].direction, Directions::Up);
    assert_eq!(spawned[1].direction, Directions::Down);
    assert_eq!(config.arrows.len(), 1);
    assert_eq!(config.arrows[0].spawn_time, 2_500);
}

#[test]
fn each_event_fires_exactly_once_across_a_session() {
    let mut config = config(vec![
        entry(500, Directions::Up),
        entry(1_000, Directions::Down),
        entry(1_000, Directions::Left),
        entry(2_900, Directions::Right),
    ]);
    let mut fired: Vec<ArrowTime> = Vec::new();
    let mut last: i64 = 0;
    let mut now: i64 = 100;
    while now <= 3_000 {
        let before = config.arrows.clone();
        let spawned = spawn_arrows(&mut config, now, last);
        assert_eq!(before.len(), config.arrows.len() + spawned.len());
        for (i, _) in spawned.iter().enumerate() {
            fired.push(before[i]);
        }
        last = now;
        now += 100;
    }
    // Every event fired exactly once, in spawn-time order.
    assert_eq!(config.arrows.len(), 0);
    assert_eq!(fired.len(), 4);
    assert_eq!(fired[0].spawn_time, 500);
    assert_eq!(fired[1].spawn_time, 1_000);
    assert_eq!(fired[1].direction, Directions::Down);
    assert_eq!(fired[2].spawn_time, 1_000);
    assert_eq!(fired[2].direction, Directions::Left);
    assert_eq!(fired[3].spawn_time, 2_900);
}

#[test]
fn lower_bound_is_open_and_upper_bound_is_closed() {
    // An event exactly at the window's lower bound is excluded (it belongs
    // to the previous tick); one exactly at the upper bound is included.
    let mut at_lower = config(vec![entry(1_000, Directions::Up)]);
    let spawned = spawn_arrows(&mut at_lower, 1_100, 1_000);
    assert_eq!(spawned.len(), 0);
    assert_eq!(at_lower.arrows.len(), 1);

    let mut at_upper = config(vec![entry(1_000, Directions::Up)]);
    let spawned = spawn_arrows(&mut at_upper, 1_000, 900);
    assert_eq!(spawned.len(), 1);
    assert_eq!(at_upper.arrows.len(), 0);
}

#[test]
fn frame_hitch_fires_multiple_events_in_schedule_order() {
    let mut config = config(vec![
        entry(100, Directions::Up),
        entry(200, Directions::Down),
        entry(300, Directions::Left),
    ]);
    // One huge tick covering all three.
    let spawned = spawn_arrows(&mut config, 1_000, 0);
    assert_eq!(spawned.len(), 3);
    assert_eq!(spawned[0].direction, Directions::Up);
    assert_eq!(spawned[1].direction, Directions::Down);
    assert_eq!(spawned[2].direction, Directions::Left);
    assert!(config.arrows.is_empty());
}

#[test]
fn spawned_arrows_start_at_the_spawn_boundary() {
    let mut config = config(vec![entry(1_000, Directions::Left)]);
    let spawned = spawn_arrows(&mut config, 1_000, 0);
    assert_eq!(spawned.len(), 1);
    assert_eq!(spawned[0].x, SPAWN_POSITION);
    assert_eq!(spawned[0].y, -50_000);
    assert_eq!(spawned[0].scale, 1_000);
    assert_eq!(spawned[0].rotation, 0);
    assert_eq!(spawned[0].speed, Speed::Slow);
}

#[test]
fn empty_window_fires_nothing() {
    let mut config = config(vec![entry(1_000, Directions::Up)]);
    let spawned = spawn_arrows(&mut config, 1_000, 1_000);
    assert_eq!(spawned.len(), 0);
    assert_eq!(config.arrows.len(), 1);
}

#[test]
fn from_records_sorts_ascending_by_spawn_time() {
    // Authored in click-time order that reverses under speed conversion:
    // fast arrows spawn later relative to their click time.
    let records = vec![
        ArrowTimeToml { click_time: 5_000, speed: Speed::Slow, direction: Directions::Up },
        ArrowTimeToml { click_time: 4_500, speed: Speed::Fast, direction: Directions::Down },
        ArrowTimeToml { click_time: 4_800, speed: Speed::Medium, direction: Directions::Left },
    ];
    let config = SongConfig::from_records(String::from("sorted"), &records);
    assert_eq!(config.name, "sorted");
    // Spawn times: 5000-3000=2000, 4500-2000=2500, 4800-2500=2300.
    let spawn_times: Vec<i64> = config.arrows.iter().map(|a| a.spawn_time).collect();
    assert_eq!(spawn_times, vec![2_000, 2_300, 2_500]);
    assert_eq!(config.arrows[0].direction, Directions::Up);
    assert_eq!(config.arrows[1].direction, Directions::Left);
    assert_eq!(config.arrows[2].direction, Directions::Down);
}

#[test]
fn from_records_keeps_duplicates_at_equal_times() {
    let records = vec![
        ArrowTimeToml { click_time: 3_000, speed: Speed::Slow, direction: Directions::Up },
        ArrowTimeToml { click_time: 3_000, speed: Speed::Slow, direction: Directions::Down },
    ];
    let config = SongConfig::from_records(String::from("dup"), &records);
    assert_eq!(config.arrows.len(), 2);
    assert_eq!(config.arrows[0].spawn_time, 0);
    assert_eq!(config.arrows[1].spawn_time, 0);
    // Duplicates at equal time are resolved in stored order.
    assert_eq!(config.arrows[0].direction, Directions::Up);
    assert_eq!(config.arrows[1].direction, Directions::Down);
}

#[test]
fn equal_spawn_times_keep_stored_order_through_the_sort() {
    // Three click times that collapse to two distinct spawn times, with the
    // equal pair interleaved around an earlier entry.
    let records = vec![
        ArrowTimeToml { click_time: 4_000, speed: Speed::Slow, direction: Directions::Up },
        ArrowTimeToml { click_time: 2_500, speed: Speed::Fast, direction: Directions::Left },
        ArrowTimeToml { click_time: 3_000, speed: Speed::Fast, direction: Directions::Down },
        ArrowTimeToml { click_time: 3_000, speed: Speed::Fast, direction: Directions::Right },
    ];
    let config = SongConfig::from_records(String::from("ties"), &records);
    // Spawn times: 1000, 500, 1000, 1000.
    let spawn_times: Vec<i64> = config.arrows.iter().map(|a| a.spawn_time).collect();
    assert_eq!(spawn_times, vec![500, 1_000, 1_000, 1_000]);
    // The three entries at 1000 keep their authored order: Up, Down, Right.
    assert_eq!(config.arrows[1].direction, Directions::Up);
    assert_eq!(config.arrows[2].direction, Directions::Down);
    assert_eq!(config.arrows[3].direction, Directions::Right);
}

#[test]
fn click_time_round_trips_through_spawn_time() {
    let record = ArrowTimeToml { click_time: 5_000, speed: Speed::Medium, direction: Directions::Up };
    let arrow = ArrowTime::new(&record);
    assert_eq!(arrow.spawn_time, 2_500);
    assert_eq!(arrow.get_click_time(), 5_000);
}
