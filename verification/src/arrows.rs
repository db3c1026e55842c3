//! Live arrows and the per-tick passes over them: spawning due schedule
//! entries, moving every live arrow, and judging them against player input.

use vstd::prelude::*;

use crate::consts::DECAY_EPSILON;
use crate::consts::DELTA_LIMIT;
use crate::consts::POS_LIMIT;
use crate::consts::ROT_LIMIT;
use crate::consts::SPAWN_POSITION;
use crate::consts::TARGET_POSITION;
use crate::consts::THRESHOLD;
use crate::score::lemma_points_for_bounds;
use crate::score::points_for;
use crate::score::ScoreResource;
use crate::types::direction_y;
use crate::types::lemma_speed_multiplier_range;
use crate::types::lemma_speed_value_range;
use crate::types::sorted_by_spawn_time;
use crate::types::speed_multiplier;
use crate::types::speed_value;
use crate::types::ArrowTime;
use crate::types::Directions;
use crate::types::InputState;
use crate::types::SongConfig;
use crate::types::Speed;

verus! {

/// A live arrow: its class and direction, its position in millipixels, its
/// sprite scale in thousandths, and the spin it has accumulated from
/// post-target decay, in milliradians relative to its direction's base
/// orientation.
#[derive(Clone, Copy, Debug, PartialEq, Eq, Structural)]
pub struct Arrow {
    pub speed: Speed,
    pub direction: Directions,
    pub x: i64,
    pub y: i64,
    pub scale: i64,
    pub rotation: i64,
}

/// The time that the initial arrow should be spawned at, in milliseconds.
/// The spawner measures its windows relative to this offset.
#[derive(Clone, Copy, Debug, PartialEq, Eq, Structural)]
pub struct InitialArrowSpawnTime(pub i64);

/// Emitted on every hit: the direction of the arrow that was hit and the
/// points it earned. Consumed by presentation collaborators.
#[derive(Clone, Copy, Debug, PartialEq, Eq, Structural)]
pub struct CorrectArrowEvent {
    pub direction: Directions,
    pub points: usize,
}

/// An arrow's coordinates and rotation are ordinary magnitudes, far from
/// overflow. Every spawned arrow starts in bounds and the judging pass
/// removes arrows before they travel far, so a running game never leaves
/// these bounds.
pub open spec fn arrow_in_bounds(a: Arrow) -> bool {
    &&& -POS_LIMIT <= a.x <= POS_LIMIT
    &&& -POS_LIMIT <= a.y <= POS_LIMIT
    &&& -ROT_LIMIT <= a.rotation <= ROT_LIMIT
}

/// Whether a spawn time falls inside the tick window: open at the lower
/// bound, closed at the upper. A time exactly at the lower bound already
/// fired in the previous tick; one exactly at the upper bound fires now.
pub open spec fn in_window(spawn_time: int, lo: int, hi: int) -> bool {
    lo < spawn_time <= hi
}

/// How many arrows fire this tick: the longest prefix of the schedule whose
/// spawn times all fall inside the window. On a sorted schedule whose
/// entries all lie past the window's lower bound this is exactly the set of
/// due entries.
pub open spec fn fired_count(s: Seq<ArrowTime>, lo: int, hi: int) -> nat
    decreases s.len(),
{
    if s.len() == 0 {
        0
    } else if in_window(s[0].spawn_time as int, lo, hi) {
        (1 + fired_count(s.drop_first(), lo, hi)) as nat
    } else {
        0
    }
}

/// The live arrow a schedule entry materializes into: at the spawn position
/// of its direction's lane, full scale, no accumulated spin.
pub open spec fn spawned_arrow(a: ArrowTime) -> Arrow {
    Arrow {
        speed: a.speed,
        direction: a.direction,
        x: SPAWN_POSITION,
        y: direction_y(a.direction),
        scale: 1000,
        rotation: 0,
    }
}

/// The fired prefix is well formed: every entry in it is in the window, it
/// is no longer than the schedule, and it stops at the first entry outside
/// the window.
proof fn lemma_fired_count_properties(s: Seq<ArrowTime>, lo: int, hi: int)
    ensures
        fired_count(s, lo, hi) <= s.len(),
        forall|j: int|
            0 <= j < fired_count(s, lo, hi) ==> in_window(#[trigger] s[j].spawn_time as int, lo, hi),
        fired_count(s, lo, hi) < s.len() ==> !in_window(
            s[fired_count(s, lo, hi) as int].spawn_time as int,
            lo,
            hi,
        ),
    decreases s.len(),
{
    if s.len() > 0 && in_window(s[0].spawn_time as int, lo, hi) {
        lemma_fired_count_properties(s.drop_first(), lo, hi);
        assert forall|j: int| 0 <= j < fired_count(s, lo, hi) implies in_window(
            #[trigger] s[j].spawn_time as int,
            lo,
            hi,
        ) by {
            if j > 0 {
                assert(s.drop_first()[j - 1] == s[j]);
            }
        }
        if fired_count(s, lo, hi) < s.len() {
            assert(s.drop_first()[fired_count(s.drop_first(), lo, hi) as int] == s[fired_count(
                s,
                lo,
                hi,
            ) as int]);
        }
    }
}

/// The fired prefix is exactly the stretch up to the first entry outside the
/// window.
proof fn lemma_fired_count_is(s: Seq<ArrowTime>, lo: int, hi: int, k: int)
    requires
        0 <= k <= s.len(),
        forall|j: int| 0 <= j < k ==> in_window(#[trigger] s[j].spawn_time as int, lo, hi),
        k < s.len() ==> !in_window(s[k].spawn_time as int, lo, hi),
    ensures
        fired_count(s, lo, hi) == k,
    decreases s.len(),
{
    if k == 0 {
    } else {
        assert(in_window(s[0].spawn_time as int, lo, hi));
        assert forall|j: int| 0 <= j < k - 1 implies in_window(
            #[trigger] s.drop_first()[j].spawn_time as int,
            lo,
            hi,
        ) by {
            assert(s.drop_first()[j] == s[j + 1]);
        }
        if k - 1 < s.drop_first().len() {
            assert(s.drop_first()[k - 1] == s[k]);
        }
        lemma_fired_count_is(s.drop_first(), lo, hi, k - 1);
    }
}

/// All entries of a schedule lie strictly after time `t`.
pub open spec fn all_later_than(s: Seq<ArrowTime>, t: int) -> bool {
    forall|i: int| 0 <= i < s.len() ==> (#[trigger] s[i]).spawn_time > t
}

/// On a sorted schedule whose entries all lie strictly after the window's
/// lower bound, the fired prefix is exactly the set of entries whose spawn
/// time falls in the window: each fires in the tick whose window contains
/// it, and what remains is still sorted and lies strictly after the
/// window's upper bound.
pub proof fn lemma_spawn_window_exact(s: Seq<ArrowTime>, lo: int, hi: int)
    requires
        sorted_by_spawn_time(s),
        all_later_than(s, lo),
        lo <= hi,
    ensures
        fired_count(s, lo, hi) <= s.len(),
        forall|j: int|
            0 <= j < s.len() ==> (in_window((#[trigger] s[j]).spawn_time as int, lo, hi) <==> j
                < fired_count(s, lo, hi)),
        all_later_than(s.skip(fired_count(s, lo, hi) as int), hi),
        sorted_by_spawn_time(s.skip(fired_count(s, lo, hi) as int)),
{
    lemma_fired_count_properties(s, lo, hi);
    let k = fired_count(s, lo, hi) as int;
    assert forall|j: int| 0 <= j < s.len() implies (in_window(
        (#[trigger] s[j]).spawn_time as int,
        lo,
        hi,
    ) <==> j < k) by {
        if j >= k {
            assert(s[k].spawn_time > lo);
            assert(s[k].spawn_time > hi);
            if j > k {
                assert(s[k].spawn_time <= s[j].spawn_time);
            }
        }
    }
    assert forall|i: int| 0 <= i < s.skip(k).len() implies (#[trigger] s.skip(k)[i]).spawn_time
        > hi by {
        assert(s.skip(k)[i] == s[k + i]);
    }
    assert forall|i: int, j: int| 0 <= i < j < s.skip(k).len() implies s.skip(k)[i].spawn_time
        <= s.skip(k)[j].spawn_time by {
        assert(s.skip(k)[i] == s[k + i]);
        assert(s.skip(k)[j] == s[k + j]);
    }
}

/// Whether a sequence of tick times never moves backwards, starting from
/// `prev`.
pub open spec fn ticks_monotone(prev: int, ticks: Seq<int>) -> bool
    decreases ticks.len(),
{
    ticks.len() == 0 || (prev <= ticks[0] && ticks_monotone(ticks[0], ticks.drop_first()))
}

/// Everything a full session of spawner ticks fires, in the order fired:
/// the fired prefix of each tick's window, concatenated tick after tick.
pub open spec fn session_spawned(s: Seq<ArrowTime>, prev: int, ticks: Seq<int>) -> Seq<ArrowTime>
    decreases ticks.len(),
{
    if ticks.len() == 0 {
        Seq::empty()
    } else {
        let k = fired_count(s, prev, ticks[0]) as int;
        s.take(k) + session_spawned(s.skip(k), ticks[0], ticks.drop_first())
    }
}

/// For any schedule sorted ascending by spawn time whose entries all lie
/// strictly after the session's starting instant, ticking the spawner
/// across the whole session — any non-backwards tick times whose last tick
/// reaches the last spawn time — fires every entry exactly once and in
/// schedule order: the concatenation of the fired prefixes is the schedule
/// itself. Together with `lemma_spawn_window_exact`, each entry fires
/// within the tick whose window contains its spawn time.
pub proof fn lemma_session_fires_each_exactly_once(s: Seq<ArrowTime>, prev: int, ticks: Seq<int>)
    requires
        sorted_by_spawn_time(s),
        all_later_than(s, prev),
        ticks_monotone(prev, ticks),
        s.len() > 0 ==> ticks.len() > 0 && s[s.len() - 1].spawn_time <= ticks[ticks.len() - 1],
    ensures
        session_spawned(s, prev, ticks) == s,
    decreases ticks.len(),
{
    if ticks.len() == 0 {
        assert(session_spawned(s, prev, ticks) =~= s);
    } else {
        let hi = ticks[0];
        lemma_spawn_window_exact(s, prev, hi);
        let k = fired_count(s, prev, hi) as int;
        let rest = s.skip(k);
        if rest.len() > 0 {
            assert(rest[rest.len() - 1] == s[s.len() - 1]);
            if ticks.len() == 1 {
                assert(rest[0].spawn_time > hi);
                assert(rest[0] == s[k]);
                assert(s[k].spawn_time <= s[s.len() - 1].spawn_time);
                assert(false);
            } else {
                assert(ticks.drop_first()[ticks.drop_first().len() - 1] == ticks[ticks.len() - 1]);
            }
        }
        lemma_session_fires_each_exactly_once(rest, hi, ticks.drop_first());
        assert(s.take(k) + rest =~= s);
    }
}

/// Spawns the arrows of the schedule that are due in the window between the
/// previous tick (`secs_last`, exclusive) and the current one (`secs`,
/// inclusive), in schedule order, removing them from the schedule. Because
/// the schedule is sorted ascending, the scan stops at the first entry still
/// in the future.
pub fn spawn_arrows(config: &mut SongConfig, secs: i64, secs_last: i64) -> (spawned: Vec<Arrow>)
    ensures
        final(config).name == old(config).name,
        spawned@.len() == fired_count(old(config).arrows@, secs_last as int, secs as int),
        spawned@ == old(config).arrows@.take(spawned@.len() as int).map_values(
            |a: ArrowTime| spawned_arrow(a),
        ),
        final(config).arrows@ == old(config).arrows@.skip(spawned@.len() as int),
{
    let ghost schedule = config.arrows@;
    let ghost lo = secs_last as int;
    let ghost hi = secs as int;

    let n = config.arrows.len();
    let mut k: usize = 0;
    let mut spawned: Vec<Arrow> = Vec::new();
    while k < n && secs_last < config.arrows[k].spawn_time && config.arrows[k].spawn_time <= secs
        invariant
            k <= n,
            n == config.arrows.len(),
            config.arrows@ == schedule,
            config.name == old(config).name,
            lo == secs_last as int,
            hi == secs as int,
            forall|j: int| 0 <= j < k ==> in_window(#[trigger] schedule[j].spawn_time as int, lo, hi),
            spawned@ == schedule.take(k as int).map_values(|a: ArrowTime| spawned_arrow(a)),
        decreases n - k,
    {
        let entry = config.arrows[k];
        let arrow = Arrow {
            speed: entry.speed,
            direction: entry.direction,
            x: SPAWN_POSITION,
            y: entry.direction.y(),
            scale: 1000,
            rotation: 0,
        };
        spawned.push(arrow);
        proof {
            assert(entry == schedule[k as int]);
            assert(in_window(schedule[k as int].spawn_time as int, lo, hi));
            assert(arrow == spawned_arrow(entry));
            assert(schedule.take(k + 1) =~= schedule.take(k as int).push(entry));
            assert(schedule.take(k + 1).map_values(|a: ArrowTime| spawned_arrow(a))
                =~= schedule.take(k as int).map_values(|a: ArrowTime| spawned_arrow(a)).push(
                spawned_arrow(entry),
            ));
        }
        k += 1;
    }
    proof {
        lemma_fired_count_is(schedule, lo, hi, k as int);
    }

    // Remove the fired prefix from the schedule.
    let mut remaining: Vec<ArrowTime> = Vec::new();
    let mut i: usize = k;
    while i < n
        invariant
            k <= i <= n,
            n == config.arrows.len(),
            config.arrows@ == schedule,
            config.name == old(config).name,
            remaining@ == schedule.subrange(k as int, i as int),
        decreases n - i,
    {
        let entry = config.arrows[i];
        remaining.push(entry);
        proof {
            assert(schedule.subrange(k as int, i + 1) =~= schedule.subrange(k as int, i as int).push(
                entry,
            ));
        }
        i += 1;
    }
    proof {
        assert(schedule.subrange(k as int, n as int) =~= schedule.skip(k as int));
    }
    config.arrows = remaining;
    spawned
}

/// Where an arrow's x coordinate lands after moving for `delta`
/// milliseconds at its class's speed.
pub open spec fn moved_x(a: Arrow, delta: int) -> int {
    a.x + delta * speed_value(a.speed)
}

/// How far past the end of the clickable window an x coordinate is.
pub open spec fn decay_margin(x: int) -> int {
    x - (TARGET_POSITION + THRESHOLD)
}

/// Where an arrow's y coordinate lands after falling off-path for `delta`
/// milliseconds at margin `d`: the fall is proportional to both.
pub open spec fn decayed_y(y: int, delta: int, d: int) -> int {
    y - delta * d * 2 / 1000
}

/// The scale of an arrow at margin `d` past the clickable window: it
/// shrinks with the margin, with a floor of 0.2 (200 thousandths).
pub open spec fn decayed_scale(d: int) -> int {
    let s = 1000 - d / 300;
    if s < 200 {
        200
    } else {
        s
    }
}

/// The spin an arrow accumulates at margin `d`: it spins increasingly fast
/// for faster classes.
pub open spec fn decayed_rotation(rotation: int, d: int, s: Speed) -> int {
    rotation - d * speed_multiplier(s) / 2_500_000
}

/// One movement step for one live arrow: it advances along x as a pure
/// function of the tick delta and its speed, and once it is at least
/// `DECAY_EPSILON` past the clickable window it also drops, shrinks and
/// spins. The decay is purely cosmetic: judging a miss is the judge's job.
pub open spec fn arrow_after_move(a: Arrow, delta: int) -> Arrow {
    let x2 = moved_x(a, delta);
    let d = decay_margin(x2);
    if d >= DECAY_EPSILON {
        Arrow {
            speed: a.speed,
            direction: a.direction,
            x: x2 as i64,
            y: decayed_y(a.y as int, delta, d) as i64,
            scale: decayed_scale(d) as i64,
            rotation: decayed_rotation(a.rotation as int, d, a.speed) as i64,
        }
    } else {
        Arrow {
            speed: a.speed,
            direction: a.direction,
            x: x2 as i64,
            y: a.y,
            scale: a.scale,
            rotation: a.rotation,
        }
    }
}

/// Moves every live arrow forwards by one tick of `delta` milliseconds.
pub fn move_arrows(arrows: &mut Vec<Arrow>, delta: i64)
    requires
        0 <= delta <= DELTA_LIMIT,
        forall|i: int|
            0 <= i < old(arrows)@.len() ==> arrow_in_bounds(#[trigger] old(arrows)@[i]),
    ensures
        final(arrows)@.len() == old(arrows)@.len(),
        forall|i: int|
            0 <= i < old(arrows)@.len() ==> final(arrows)@[i] == arrow_after_move(
                #[trigger] old(arrows)@[i],
                delta as int,
            ),
{
    let ghost orig = arrows@;
    let n = arrows.len();
    let mut out: Vec<Arrow> = Vec::new();
    let mut i: usize = 0;
    while i < n
        invariant
            i <= n,
            n == orig.len(),
            arrows@ == orig,
            0 <= delta <= DELTA_LIMIT,
            forall|j: int| 0 <= j < n ==> arrow_in_bounds(#[trigger] orig[j]),
            out@.len() == i,
            forall|j: int|
                0 <= j < i ==> out@[j] == arrow_after_move(#[trigger] orig[j], delta as int),
        decreases n - i,
    {
        let a = arrows[i];
        proof {
            lemma_speed_value_range(a.speed);
        }
        let v = a.speed.value();
        proof {
            assert(0 <= delta * v <= 3_000_000_000) by (nonlinear_arith)
                requires
                    0 <= delta <= 10_000_000,
                    200 <= v <= 300,
            ;
        }
        let x2 = a.x + delta * v;

        let distance_after_target = x2 - (TARGET_POSITION + THRESHOLD);
        let b = if distance_after_target >= DECAY_EPSILON {
            // Move the arrow down, shrink it and spin it according to how
            // far past its target it is.
            proof {
                assert(0 <= delta * distance_after_target <= 40_000_000_000_000_000)
                    by (nonlinear_arith)
                    requires
                        0 <= delta <= 10_000_000,
                        0 <= distance_after_target <= 4_000_000_000,
                ;
                lemma_speed_multiplier_range(a.speed);
            }
            let m = a.speed.multiplier();
            proof {
                assert(0 <= distance_after_target * m <= 6_000_000_000_000) by (nonlinear_arith)
                    requires
                        0 <= distance_after_target <= 4_000_000_000,
                        1000 <= m <= 1500,
                ;
            }
            let shrunk = 1000 - distance_after_target / 300;
            Arrow {
                speed: a.speed,
                direction: a.direction,
                x: x2,
                y: a.y - delta * distance_after_target * 2 / 1000,
                scale: if shrunk < 200 {
                    200
                } else {
                    shrunk
                },
                rotation: a.rotation - distance_after_target * m / 2_500_000,
            }
        } else {
            Arrow {
                speed: a.speed,
                direction: a.direction,
                x: x2,
                y: a.y,
                scale: a.scale,
                rotation: a.rotation,
            }
        };
        out.push(b);
        i += 1;
    }
    *arrows = out;
}

/// A freshly spawned arrow starts in bounds, at full scale, with no spin.
pub proof fn lemma_spawned_arrow_in_bounds(a: ArrowTime)
    ensures
        arrow_in_bounds(spawned_arrow(a)),
        spawned_arrow(a).scale == 1000,
        spawned_arrow(a).rotation == 0,
{
    match a.direction {
        Directions::Up => {},
        Directions::Down => {},
        Directions::Left => {},
        Directions::Right => {},
    }
}

/// While an arrow is live, its x position is a strictly increasing function
/// of elapsed time: any tick in which time advances moves it strictly
/// forwards, whatever its class.
pub proof fn lemma_motion_strictly_increasing(a: Arrow, delta: int)
    requires
        arrow_in_bounds(a),
        0 < delta <= DELTA_LIMIT,
    ensures
        arrow_after_move(a, delta).x > a.x,
{
    lemma_speed_value_range(a.speed);
    let v = speed_value(a.speed);
    assert(200 <= delta * v <= 3_000_000_000) by (nonlinear_arith)
        requires
            1 <= delta <= 10_000_000,
            200 <= v <= 300,
    ;
}

/// An arrow that starts within the scale bounds stays within them: the
/// scale never exceeds full size (1.0) and never drops below the floor
/// (0.2), in thousandths.
pub proof fn lemma_scale_bounded(a: Arrow, delta: int)
    requires
        arrow_in_bounds(a),
        0 <= delta <= DELTA_LIMIT,
        200 <= a.scale <= 1000,
    ensures
        200 <= arrow_after_move(a, delta).scale <= 1000,
{
    lemma_speed_value_range(a.speed);
    let v = speed_value(a.speed);
    assert(0 <= delta * v <= 3_000_000_000) by (nonlinear_arith)
        requires
            0 <= delta <= 10_000_000,
            200 <= v <= 300,
    ;
    let d = decay_margin(moved_x(a, delta));
    if d >= DECAY_EPSILON {
        assert(0 <= d / 300);
        assert(d / 300 <= d);
    }
}

/// Whether an x coordinate lies inside the clickable window around the
/// target: a closed interval of one threshold on each side.
pub open spec fn in_hit_window(x: int) -> bool {
    TARGET_POSITION - THRESHOLD <= x <= TARGET_POSITION + THRESHOLD
}

/// An arrow is hit when it is inside the clickable window and its
/// direction's key was just pressed this tick.
pub open spec fn arrow_hit(a: Arrow, input: InputState) -> bool {
    in_hit_window(a.x as int) && input.just_pressed(a.direction)
}

/// An arrow not hit this tick is missed once it has travelled to twice the
/// target position, fully off-screen. A hit takes precedence: a hit arrow is
/// gone before the miss check could see it.
pub open spec fn arrow_missed(a: Arrow, input: InputState) -> bool {
    !arrow_hit(a, input) && a.x >= 2 * (TARGET_POSITION as int)
}

/// An arrow leaves play this tick either by being hit or by being missed.
pub open spec fn arrow_resolved(a: Arrow, input: InputState) -> bool {
    arrow_hit(a, input) || arrow_missed(a, input)
}

/// The signed distance from an arrow to the target center.
pub open spec fn hit_distance(a: Arrow) -> int {
    TARGET_POSITION - a.x
}

/// The event emitted when an arrow is hit: its direction, and points scored
/// by how close to the target center it was.
pub open spec fn hit_event(a: Arrow) -> CorrectArrowEvent {
    CorrectArrowEvent { direction: a.direction, points: points_for(hit_distance(a)) as usize }
}

/// The arrows of `s` that survive a judging pass under `input`, in order.
pub open spec fn surviving(s: Seq<Arrow>, input: InputState) -> Seq<Arrow>
    decreases s.len(),
{
    if s.len() == 0 {
        Seq::empty()
    } else {
        let rest = surviving(s.drop_last(), input);
        if arrow_resolved(s.last(), input) {
            rest
        } else {
            rest.push(s.last())
        }
    }
}

/// The events a judging pass over `s` emits under `input`: one per hit
/// arrow, in order.
pub open spec fn hit_events(s: Seq<Arrow>, input: InputState) -> Seq<CorrectArrowEvent>
    decreases s.len(),
{
    if s.len() == 0 {
        Seq::empty()
    } else {
        let rest = hit_events(s.drop_last(), input);
        if arrow_hit(s.last(), input) {
            rest.push(hit_event(s.last()))
        } else {
            rest
        }
    }
}

/// How many arrows of `s` a judging pass under `input` counts as missed.
pub open spec fn miss_count(s: Seq<Arrow>, input: InputState) -> nat
    decreases s.len(),
{
    if s.len() == 0 {
        0
    } else {
        miss_count(s.drop_last(), input) + if arrow_missed(s.last(), input) {
            1nat
        } else {
            0nat
        }
    }
}

/// The total points a judging pass over `s` under `input` awards.
pub open spec fn hit_points_total(s: Seq<Arrow>, input: InputState) -> int
    decreases s.len(),
{
    if s.len() == 0 {
        0
    } else {
        hit_points_total(s.drop_last(), input) + if arrow_hit(s.last(), input) {
            points_for(hit_distance(s.last()))
        } else {
            0
        }
    }
}

/// Every arrow that survives a judging pass is still on screen: anything at
/// or past twice the target position was removed, hit or missed.
pub proof fn lemma_survivors_on_screen(s: Seq<Arrow>, input: InputState)
    ensures
        forall|i: int|
            0 <= i < surviving(s, input).len() ==> (#[trigger] surviving(s, input)[i]).x < 2 * (
            TARGET_POSITION as int),
    decreases s.len(),
{
    if s.len() > 0 {
        lemma_survivors_on_screen(s.drop_last(), input);
    }
}

/// One judging pass resolves at most as many arrows as it sees, and awards
/// between 0 and 100 points per arrow — never a negative total. The score
/// board's fields can therefore only grow, tick after tick.
pub proof fn lemma_judge_counts(s: Seq<Arrow>, input: InputState)
    ensures
        hit_events(s, input).len() + miss_count(s, input) <= s.len(),
        0 <= hit_points_total(s, input) <= 100 * s.len(),
    decreases s.len(),
{
    if s.len() > 0 {
        lemma_judge_counts(s.drop_last(), input);
        if arrow_hit(s.last(), input) {
            lemma_points_for_bounds(hit_distance(s.last()));
        }
    }
}

/// Judges every live arrow against this tick's input: an arrow inside the
/// clickable window whose direction was just pressed is removed as a hit,
/// scoring by its distance to the center and emitting an event; an arrow
/// that has left the screen unhandled is removed as a miss, with no event.
/// All other arrows stay, in order.
pub fn despawn_arrows(
    arrows: &mut Vec<Arrow>,
    input: &InputState,
    score: &mut ScoreResource,
) -> (events: Vec<CorrectArrowEvent>)
    requires
        forall|i: int|
            0 <= i < old(arrows)@.len() ==> arrow_in_bounds(#[trigger] old(arrows)@[i]),
        old(score).spec_corrects() + old(arrows)@.len() <= usize::MAX,
        old(score).spec_fails() + old(arrows)@.len() <= usize::MAX,
        old(score).spec_score() + 100 * old(arrows)@.len() <= usize::MAX,
    ensures
        final(arrows)@ == surviving(old(arrows)@, *input),
        events@ == hit_events(old(arrows)@, *input),
        final(score).spec_corrects() == old(score).spec_corrects() + hit_events(
            old(arrows)@,
            *input,
        ).len(),
        final(score).spec_fails() == old(score).spec_fails() + miss_count(old(arrows)@, *input),
        final(score).spec_score() == old(score).spec_score() + hit_points_total(
            old(arrows)@,
            *input,
        ),
        final(score).spec_corrects() >= old(score).spec_corrects(),
        final(score).spec_fails() >= old(score).spec_fails(),
        final(score).spec_score() >= old(score).spec_score(),
        forall|i: int|
            0 <= i < final(arrows)@.len() ==> (#[trigger] final(arrows)@[i]).x < 2 * (
            TARGET_POSITION as int),
{
    let ghost orig = arrows@;
    let ghost inp = *input;

    let n = arrows.len();
    let mut kept: Vec<Arrow> = Vec::new();
    let mut events: Vec<CorrectArrowEvent> = Vec::new();
    let mut i: usize = 0;
    while i < n
        invariant
            i <= n,
            n == orig.len(),
            arrows@ == orig,
            inp == *input,
            forall|j: int| 0 <= j < n ==> arrow_in_bounds(#[trigger] orig[j]),
            old(score).spec_corrects() + n <= usize::MAX,
            old(score).spec_fails() + n <= usize::MAX,
            old(score).spec_score() + 100 * n <= usize::MAX,
            kept@ == surviving(orig.take(i as int), inp),
            events@ == hit_events(orig.take(i as int), inp),
            score.spec_corrects() == old(score).spec_corrects() + hit_events(
                orig.take(i as int),
                inp,
            ).len(),
            score.spec_fails() == old(score).spec_fails() + miss_count(orig.take(i as int), inp),
            score.spec_score() == old(score).spec_score() + hit_points_total(
                orig.take(i as int),
                inp,
            ),
        decreases n - i,
    {
        let a = arrows[i];
        proof {
            lemma_judge_counts(orig.take(i as int), inp);
            assert(orig.take(i + 1).drop_last() =~= orig.take(i as int));
            assert(orig.take(i + 1).last() == orig[i as int]);
        }

        let pos = a.x;
        // Check if the arrow is inside the clicking threshold.
        if TARGET_POSITION - THRESHOLD <= pos && pos <= TARGET_POSITION + THRESHOLD
            && a.direction.key_just_pressed(input) {
            proof {
                lemma_points_for_bounds(hit_distance(a));
            }
            let points = score.increase_correct(TARGET_POSITION - pos);
            events.push(CorrectArrowEvent { direction: a.direction, points });
        } else if pos >= 2 * TARGET_POSITION {
            // The arrow left the screen without being handled.
            score.increase_fails();
        } else {
            kept.push(a);
        }
        i += 1;
    }
    proof {
        assert(orig.take(n as int) =~= orig);
        lemma_judge_counts(orig, inp);
        lemma_survivors_on_screen(orig, inp);
    }
    *arrows = kept;
    events
}

} // verus!
