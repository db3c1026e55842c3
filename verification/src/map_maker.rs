//! The authoring mode's recorder: every just-pressed direction is appended
//! with its elapsed timestamp, in the same record shape that song schedules
//! are loaded from, for round-trip compatibility.

use vstd::prelude::*;

use crate::types::ArrowTimeToml;
use crate::types::Directions;
use crate::types::InputState;
use crate::types::Speed;

verus! {

/// Keeps track of when keys are pressed while authoring a map.
#[derive(Debug)]
pub struct Presses {
    pub arrows: Vec<ArrowTimeToml>,
}

impl Default for Presses {
    /// A recorder with nothing recorded yet.
    fn default() -> (p: Presses)
        ensures
            p.arrows@ == Seq::<ArrowTimeToml>::empty(),
    {
        Presses { arrows: Vec::new() }
    }
}

/// The record one key press authors: the press's elapsed time as the click
/// time, at slow speed.
pub open spec fn press_record(direction: Directions, secs: i64) -> ArrowTimeToml {
    ArrowTimeToml { click_time: secs, speed: Speed::Slow, direction }
}

/// The record of `direction` if `pressed`, else nothing.
pub open spec fn maybe_record(pressed: bool, direction: Directions, secs: i64) -> Seq<
    ArrowTimeToml,
> {
    if pressed {
        seq![press_record(direction, secs)]
    } else {
        Seq::empty()
    }
}

/// Everything one tick of input at time `secs` records: each just-pressed
/// direction, in the fixed order up, down, left, right.
pub open spec fn pressed_records(input: InputState, secs: i64) -> Seq<ArrowTimeToml> {
    maybe_record(input.up_just_pressed, Directions::Up, secs) + maybe_record(
        input.down_just_pressed,
        Directions::Down,
        secs,
    ) + maybe_record(input.left_just_pressed, Directions::Left, secs) + maybe_record(
        input.right_just_pressed,
        Directions::Right,
        secs,
    )
}

/// Appends a record for every direction whose key was just pressed this
/// tick, stamped with the elapsed time `secs`.
pub fn save_key_presses(presses: &mut Presses, input: &InputState, secs: i64)
    ensures
        final(presses).arrows@ == old(presses).arrows@ + pressed_records(*input, secs),
{
    if Directions::Up.key_just_pressed(input) {
        presses.arrows.push(
            ArrowTimeToml { click_time: secs, speed: Speed::Slow, direction: Directions::Up },
        );
    }
    if Directions::Down.key_just_pressed(input) {
        presses.arrows.push(
            ArrowTimeToml { click_time: secs, speed: Speed::Slow, direction: Directions::Down },
        );
    }
    if Directions::Left.key_just_pressed(input) {
        presses.arrows.push(
            ArrowTimeToml { click_time: secs, speed: Speed::Slow, direction: Directions::Left },
        );
    }
    if Directions::Right.key_just_pressed(input) {
        presses.arrows.push(
            ArrowTimeToml { click_time: secs, speed: Speed::Slow, direction: Directions::Right },
        );
    }
    proof {
        assert(presses.arrows@ =~= old(presses).arrows@ + pressed_records(*input, secs));
    }
}

} // verus!
