//! The data the engine runs on: arrow directions and speed classes, the
//! per-tick input signal, and the song schedule with its authored records.

use vstd::prelude::*;

use crate::consts::BASE_SPEED;
use crate::consts::DISTANCE;
use crate::consts::TIME_LIMIT;

verus! {

/// The four directions an arrow can take.
#[derive(Clone, Copy, Debug, PartialEq, Eq, Structural)]
pub enum Directions {
    Up,
    Down,
    Left,
    Right,
}

/// The per-direction input signal for one tick: whether each direction's key
/// was just pressed this tick, and whether it is currently held.
#[derive(Clone, Copy, Debug, PartialEq, Eq, Structural)]
pub struct InputState {
    pub up_just_pressed: bool,
    pub down_just_pressed: bool,
    pub left_just_pressed: bool,
    pub right_just_pressed: bool,
    pub up_pressed: bool,
    pub down_pressed: bool,
    pub left_pressed: bool,
    pub right_pressed: bool,
}

impl InputState {
    /// The input with nothing pressed.
    pub fn none() -> (r: InputState)
        ensures
            forall|d: Directions| !r.just_pressed(d),
            forall|d: Directions| !r.pressed(d),
    {
        let r = InputState {
            up_just_pressed: false,
            down_just_pressed: false,
            left_just_pressed: false,
            right_just_pressed: false,
            up_pressed: false,
            down_pressed: false,
            left_pressed: false,
            right_pressed: false,
        };
        assert forall|d: Directions| !r.just_pressed(d) && !r.pressed(d) by {
            match d {
                Directions::Up => {},
                Directions::Down => {},
                Directions::Left => {},
                Directions::Right => {},
            }
        }
        r
    }

    /// Whether `d`'s key was just pressed this tick.
    pub open spec fn just_pressed(self, d: Directions) -> bool {
        match d {
            Directions::Up => self.up_just_pressed,
            Directions::Down => self.down_just_pressed,
            Directions::Left => self.left_just_pressed,
            Directions::Right => self.right_just_pressed,
        }
    }

    /// Whether `d`'s key is currently held.
    pub open spec fn pressed(self, d: Directions) -> bool {
        match d {
            Directions::Up => self.up_pressed,
            Directions::Down => self.down_pressed,
            Directions::Left => self.left_pressed,
            Directions::Right => self.right_pressed,
        }
    }
}

/// Base rotation of an arrow sprite with direction `d`, in quarter turns
/// counterclockwise from pointing right.
pub open spec fn direction_rotation(d: Directions) -> i64 {
    match d {
        Directions::Up => 1,
        Directions::Down => -1i64,
        Directions::Left => 2,
        Directions::Right => 0,
    }
}

/// Y coordinate of the lane for direction `d`, in millipixels.
pub open spec fn direction_y(d: Directions) -> i64 {
    match d {
        Directions::Up => 150_000,
        Directions::Down => 50_000,
        Directions::Left => -50_000i64,
        Directions::Right => -150_000i64,
    }
}

impl Directions {
    /// Checks if a key corresponding to this direction has been pressed.
    pub fn key_just_pressed(&self, input: &InputState) -> (r: bool)
        ensures
            r == input.just_pressed(*self),
    {
        match self {
            Directions::Up => input.up_just_pressed,
            Directions::Down => input.down_just_pressed,
            Directions::Left => input.left_just_pressed,
            Directions::Right => input.right_just_pressed,
        }
    }

    /// Checks if a key corresponding to this direction is being held.
    pub fn key_pressed(&self, input: &InputState) -> (r: bool)
        ensures
            r == input.pressed(*self),
    {
        match self {
            Directions::Up => input.up_pressed,
            Directions::Down => input.down_pressed,
            Directions::Left => input.left_pressed,
            Directions::Right => input.right_pressed,
        }
    }

    /// Returns the correct rotation for an arrow with this direction, in
    /// quarter turns counterclockwise from pointing right.
    pub fn rotation(&self) -> (r: i64)
        ensures
            r == direction_rotation(*self),
    {
        match self {
            Directions::Up => 1,
            Directions::Down => -1,
            Directions::Left => 2,
            Directions::Right => 0,
        }
    }

    /// Returns the correct y coordinate for an arrow with this direction, in
    /// millipixels.
    pub fn y(&self) -> (r: i64)
        ensures
            r == direction_y(*self),
    {
        match self {
            Directions::Up => 150_000,
            Directions::Down => 50_000,
            Directions::Left => -50_000,
            Directions::Right => -150_000,
        }
    }
}

/// The three speed classes an arrow can have.
#[derive(Clone, Copy, Debug, PartialEq, Eq, Structural)]
pub enum Speed {
    Slow,
    Medium,
    Fast,
}

/// Speed multiplier of class `s`, in thousandths.
pub open spec fn speed_multiplier(s: Speed) -> i64 {
    match s {
        Speed::Slow => 1000,
        Speed::Medium => 1200,
        Speed::Fast => 1500,
    }
}

/// Speed of an arrow of class `s`, in millipixels per millisecond.
pub open spec fn speed_value(s: Speed) -> int {
    BASE_SPEED * speed_multiplier(s) / 1000
}

/// The speed of every class is positive and small.
pub proof fn lemma_speed_value_range(s: Speed)
    ensures
        200 <= speed_value(s) <= 300,
{
    match s {
        Speed::Slow => {},
        Speed::Medium => {},
        Speed::Fast => {},
    }
}

/// The multiplier of every class lies between 1 and 1.5.
pub proof fn lemma_speed_multiplier_range(s: Speed)
    ensures
        1000 <= speed_multiplier(s) <= 1500,
{
    match s {
        Speed::Slow => {},
        Speed::Medium => {},
        Speed::Fast => {},
    }
}

/// Time an arrow of class `s` takes from spawn to target, in milliseconds.
pub open spec fn travel_time(s: Speed) -> int {
    DISTANCE as int / speed_value(s)
}

/// The travel time of every class lies between two and three seconds.
pub proof fn lemma_travel_time_range(s: Speed)
    ensures
        2000 <= travel_time(s) <= 3000,
{
    match s {
        Speed::Slow => {
            assert(speed_value(Speed::Slow) == 200);
            assert(DISTANCE as int / 200 == 3000);
        },
        Speed::Medium => {
            assert(speed_value(Speed::Medium) == 240);
            assert(DISTANCE as int / 240 == 2500);
        },
        Speed::Fast => {
            assert(speed_value(Speed::Fast) == 300);
            assert(DISTANCE as int / 300 == 2000);
        },
    }
}

impl Speed {
    /// Returns the actual speed at which arrows of this class move, in
    /// millipixels per millisecond.
    pub fn value(&self) -> (v: i64)
        ensures
            v == speed_value(*self),
    {
        proof {
            lemma_speed_value_range(*self);
        }
        BASE_SPEED * self.multiplier() / 1000
    }

    /// Speed multiplier, in thousandths.
    pub fn multiplier(&self) -> (m: i64)
        ensures
            m == speed_multiplier(*self),
    {
        match self {
            Speed::Slow => 1000,
            Speed::Medium => 1200,
            Speed::Fast => 1500,
        }
    }
}

/// An authored schedule record: when the arrow should be clicked, its speed
/// class and its direction. Click times are in milliseconds.
#[derive(Clone, Copy, Debug, PartialEq, Eq, Structural)]
pub struct ArrowTimeToml {
    pub click_time: i64,
    pub speed: Speed,
    pub direction: Directions,
}

/// A record is in bounds when its click time is an ordinary timestamp.
pub open spec fn record_in_bounds(r: ArrowTimeToml) -> bool {
    -TIME_LIMIT <= r.click_time <= TIME_LIMIT
}

/// Keeps track of when an arrow should spawn, its speed, and its direction.
/// Spawn times are in milliseconds.
#[derive(Clone, Copy, Debug, PartialEq, Eq, Structural)]
pub struct ArrowTime {
    pub spawn_time: i64,
    pub speed: Speed,
    pub direction: Directions,
}

/// The scheduled arrow a record describes: it spawns one travel time before
/// its authored click time.
pub open spec fn arrow_of_record(r: ArrowTimeToml) -> ArrowTime {
    ArrowTime {
        spawn_time: (r.click_time - travel_time(r.speed)) as i64,
        speed: r.speed,
        direction: r.direction,
    }
}

impl ArrowTime {
    /// Derives the spawn time of an authored record from its click time and
    /// its speed.
    pub fn new(arrow: &ArrowTimeToml) -> (r: ArrowTime)
        requires
            record_in_bounds(*arrow),
        ensures
            r == arrow_of_record(*arrow),
    {
        proof {
            lemma_speed_value_range(arrow.speed);
            lemma_travel_time_range(arrow.speed);
        }
        let speed_value = arrow.speed.value();
        ArrowTime {
            spawn_time: arrow.click_time - DISTANCE / speed_value,
            speed: arrow.speed,
            direction: arrow.direction,
        }
    }

    /// Gets the time that the arrow will be clicked at, in milliseconds.
    /// The lower bound admits every arrow built from an in-bounds record:
    /// a spawn time is at most one travel time (3000 ms) below its click
    /// time.
    pub fn get_click_time(&self) -> (t: i64)
        requires
            -TIME_LIMIT - 3000 <= self.spawn_time <= TIME_LIMIT,
        ensures
            t == self.spawn_time + travel_time(self.speed),
    {
        proof {
            lemma_speed_value_range(self.speed);
            lemma_travel_time_range(self.speed);
        }
        self.spawn_time + DISTANCE / self.speed.value()
    }
}

/// Whether a schedule is sorted ascending by spawn time.
pub open spec fn sorted_by_spawn_time(s: Seq<ArrowTime>) -> bool {
    forall|i: int, j: int| 0 <= i < j < s.len() ==> s[i].spawn_time <= s[j].spawn_time
}

/// The subsequence of a schedule's entries with spawn time exactly `t`, in
/// their stored order. Sorting preserves each of these subsequences, which
/// is how the contracts say that entries with equal spawn times are
/// resolved in stored order.
pub open spec fn with_spawn_time(s: Seq<ArrowTime>, t: i64) -> Seq<ArrowTime> {
    s.filter(|e: ArrowTime| e.spawn_time == t)
}

/// A schedule none of whose entries has spawn time `t` contributes nothing
/// to that time's subsequence.
proof fn lemma_with_spawn_time_empty(s: Seq<ArrowTime>, t: i64)
    requires
        forall|m: int| 0 <= m < s.len() ==> (#[trigger] s[m]).spawn_time != t,
    ensures
        with_spawn_time(s, t) == Seq::<ArrowTime>::empty(),
    decreases s.len(),
{
    reveal(Seq::filter);
    if s.len() > 0 {
        lemma_with_spawn_time_empty(s.drop_last(), t);
    }
}

/// Inserting an entry after every entry with spawn time no greater than its
/// own, and before every strictly later one, appends it to its own spawn
/// time's subsequence and leaves every other time's subsequence unchanged.
proof fn lemma_stable_insert(s: Seq<ArrowTime>, a: ArrowTime, j: int)
    requires
        0 <= j <= s.len(),
        forall|m: int| 0 <= m < j ==> (#[trigger] s[m]).spawn_time <= a.spawn_time,
        forall|m: int| j <= m < s.len() ==> (#[trigger] s[m]).spawn_time > a.spawn_time,
    ensures
        forall|t: i64| #[trigger] with_spawn_time(s.insert(j, a), t) == (if t == a.spawn_time {
            with_spawn_time(s, t).push(a)
        } else {
            with_spawn_time(s, t)
        }),
{
    broadcast use vstd::seq_lib::group_seq_lib_default;

    reveal(Seq::filter);
    let prefix = s.subrange(0, j);
    let suffix = s.subrange(j, s.len() as int);
    assert(s.insert(j, a) =~= prefix.push(a) + suffix);
    assert(s =~= prefix + suffix);
    assert forall|t: i64| #[trigger] with_spawn_time(s.insert(j, a), t) == (if t
        == a.spawn_time {
        with_spawn_time(s, t).push(a)
    } else {
        with_spawn_time(s, t)
    }) by {
        assert(prefix.push(a).drop_last() =~= prefix);
        assert(prefix.push(a).last() == a);
        if t == a.spawn_time {
            lemma_with_spawn_time_empty(suffix, t);
            assert(with_spawn_time(s.insert(j, a), t) =~= with_spawn_time(s, t).push(a));
        } else {
            assert(with_spawn_time(s.insert(j, a), t) =~= with_spawn_time(s, t));
        }
    }
}

/// The scheduled arrows that a sequence of authored records describes.
pub open spec fn mapped_records(records: Seq<ArrowTimeToml>) -> Seq<ArrowTime> {
    records.map_values(|r: ArrowTimeToml| arrow_of_record(r))
}

/// A song's schedule: the song's name and all the arrows in it, sorted
/// ascending by spawn time and consumed destructively from the front as they
/// fire.
#[derive(Debug)]
pub struct SongConfig {
    pub name: String,
    pub arrows: Vec<ArrowTime>,
}

/// Sorts a schedule ascending by spawn time, keeping exactly the same
/// arrows. The sort is stable: entries with equal spawn times keep their
/// stored order — for every spawn time, the subsequence of entries with
/// that time is unchanged.
pub fn sort_arrows(arrows: &mut Vec<ArrowTime>)
    ensures
        sorted_by_spawn_time(final(arrows)@),
        final(arrows)@.to_multiset() == old(arrows)@.to_multiset(),
        forall|t: i64| #[trigger] with_spawn_time(final(arrows)@, t) == with_spawn_time(
            old(arrows)@,
            t,
        ),
{
    broadcast use vstd::seq_lib::group_to_multiset_ensures;

    let mut out: Vec<ArrowTime> = Vec::new();
    let mut i: usize = 0;
    while i < arrows.len()
        invariant
            i <= arrows.len(),
            arrows@ == old(arrows)@,
            sorted_by_spawn_time(out@),
            out@.to_multiset() == arrows@.take(i as int).to_multiset(),
            forall|t: i64| #[trigger] with_spawn_time(out@, t) == with_spawn_time(
                arrows@.take(i as int),
                t,
            ),
        decreases arrows.len() - i,
    {
        let a = arrows[i];
        let ghost prev_out = out@;

        let mut j: usize = 0;
        while j < out.len() && out[j].spawn_time <= a.spawn_time
            invariant
                j <= out.len(),
                out@ == prev_out,
                forall|m: int| 0 <= m < j ==> out@[m].spawn_time <= a.spawn_time,
            decreases out.len() - j,
        {
            j += 1;
        }

        proof {
            broadcast use vstd::seq_lib::group_to_multiset_ensures;

            out@.insert_ensures(j as int, a);
            let inserted = out@.insert(j as int, a);
            assert forall|m: int| j <= m < out@.len() implies (#[trigger] out@[m]).spawn_time
                > a.spawn_time by {
                if m > j {
                    assert(out@[j as int].spawn_time <= out@[m].spawn_time);
                }
            }
            assert forall|m: int, n: int| 0 <= m < n < inserted.len() implies inserted[m].spawn_time
                <= inserted[n].spawn_time by {
                if n < j {
                    // both below the insertion point, ordered as before
                } else if m < j && n == j {
                    assert(inserted[m] == out@[m]);
                } else if m < j && n > j {
                    assert(inserted[m] == out@[m]);
                    assert(inserted[n] == out@[n - 1]);
                } else if m == j {
                    assert(inserted[n] == out@[n - 1]);
                    assert(out@[j as int].spawn_time > a.spawn_time);
                } else {
                    assert(inserted[m] == out@[m - 1]);
                    assert(inserted[n] == out@[n - 1]);
                }
            }
            assert(arrows@.take(i + 1) =~= arrows@.take(i as int).push(arrows@[i as int]));
            lemma_stable_insert(out@, a, j as int);
            assert forall|t: i64| #[trigger] with_spawn_time(inserted, t) == with_spawn_time(
                arrows@.take(i + 1),
                t,
            ) by {
                reveal(Seq::filter);
                assert(arrows@.take(i + 1).drop_last() =~= arrows@.take(i as int));
                assert(arrows@.take(i + 1).last() == a);
                if t == a.spawn_time {
                    assert(with_spawn_time(arrows@.take(i + 1), t) == with_spawn_time(
                        arrows@.take(i as int),
                        t,
                    ).push(a));
                } else {
                    assert(with_spawn_time(arrows@.take(i + 1), t) == with_spawn_time(
                        arrows@.take(i as int),
                        t,
                    ));
                }
            }
        }
        out.insert(j, a);
        i += 1;
    }
    proof {
        assert(arrows@.take(arrows@.len() as int) =~= arrows@);
    }
    *arrows = out;
}

impl SongConfig {
    /// Builds a song's schedule from its authored records: each record's
    /// spawn time is derived from its click time, and the result is sorted
    /// ascending by spawn time. Records with equal spawn times are all
    /// kept, and resolved in stored order: for every spawn time, the
    /// subsequence of records with that time keeps the authored order.
    pub fn from_records(name: String, records: &Vec<ArrowTimeToml>) -> (config: SongConfig)
        requires
            forall|i: int| 0 <= i < records@.len() ==> record_in_bounds(#[trigger] records@[i]),
        ensures
            config.name == name,
            sorted_by_spawn_time(config.arrows@),
            config.arrows@.to_multiset() == mapped_records(records@).to_multiset(),
            forall|t: i64| #[trigger] with_spawn_time(config.arrows@, t) == with_spawn_time(
                mapped_records(records@),
                t,
            ),
    {
        let mut arrows: Vec<ArrowTime> = Vec::new();
        let mut i: usize = 0;
        while i < records.len()
            invariant
                i <= records.len(),
                forall|k: int| 0 <= k < records@.len() ==> record_in_bounds(#[trigger] records@[k]),
                arrows@ == mapped_records(records@).take(i as int),
            decreases records.len() - i,
        {
            let a = ArrowTime::new(&records[i]);
            arrows.push(a);
            proof {
                assert(mapped_records(records@)[i as int] == arrow_of_record(records@[i as int]));
                assert(mapped_records(records@).take(i + 1) =~= mapped_records(records@).take(
                    i as int,
                ).push(arrow_of_record(records@[i as int])));
            }
            i += 1;
        }
        proof {
            assert(mapped_records(records@).take(records@.len() as int) =~= mapped_records(
                records@,
            ));
        }
        sort_arrows(&mut arrows);
        SongConfig { name, arrows }
    }
}

} // verus!
