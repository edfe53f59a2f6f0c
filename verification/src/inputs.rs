//! The input events and the decoders that produce them.
//!
//! A decoder is handed the state of a device in the previous and in the
//! current tick and returns the events of the current tick, in the order in
//! which the control step is to apply them.

use crate::vector::{lemma_normalize_gives_direction, Vec2, Vector, UNIT};
use vstd::prelude::*;

verus! {

/// A decoded input. A direction is a vector of length `UNIT` and never zero.
#[derive(Clone, Copy, Debug, PartialEq, Eq, Structural)]
pub enum InputEvent {
    /// A single push in a direction.
    Impulse { direction: Vec2 },
    /// A push in a direction for as long as it is held.
    Force { direction: Vec2 },
    /// Brake.
    Stabilisation,
    /// A push along the current heading.
    Accelerate,
}

impl InputEvent {
    /// A directed event carries a direction, as the decoders promise.
    pub open spec fn well_directed(self) -> bool {
        match self {
            InputEvent::Impulse { direction } => direction@.is_direction(),
            InputEvent::Force { direction } => direction@.is_direction(),
            InputEvent::Stabilisation => true,
            InputEvent::Accelerate => true,
        }
    }
}

/// A button or key, in the previous tick and in this one.
#[derive(Clone, Copy, Debug, PartialEq, Eq, Structural)]
pub struct Button {
    pub was_pressed: bool,
    pub pressed: bool,
}

impl Button {
    /// The button went down in this tick.
    pub open spec fn spec_just_pressed(&self) -> bool {
        self.pressed && !self.was_pressed
    }

    /// The button came up in this tick.
    pub open spec fn spec_just_released(&self) -> bool {
        !self.pressed && self.was_pressed
    }

    /// The button went down in this tick.
    #[verifier::when_used_as_spec(spec_just_pressed)]
    pub fn just_pressed(&self) -> (pressed: bool)
        ensures
            pressed == self.spec_just_pressed(),
    {
        self.pressed && !self.was_pressed
    }

    /// The button came up in this tick.
    #[verifier::when_used_as_spec(spec_just_released)]
    pub fn just_released(&self) -> (released: bool)
        ensures
            released == self.spec_just_released(),
    {
        !self.pressed && self.was_pressed
    }
}

/// The keys that steer the body. Holding `brake` charges an impulse, which
/// fires when the key comes up.
#[derive(Clone, Copy, Debug, PartialEq, Eq, Structural)]
pub struct Keys {
    pub up: bool,
    pub down: bool,
    pub left: bool,
    pub right: bool,
    pub brake: Button,
    pub boost: Button,
}

/// A gamepad: its south button, which brakes and charges, and its left stick.
#[derive(Clone, Copy, Debug, PartialEq, Eq, Structural)]
pub struct Gamepad {
    pub south: Button,
    pub stick: Vec2,
}

/// `1` for a held key, `0` for one that is up.
pub open spec fn held(key: bool) -> int {
    if key {
        1
    } else {
        0
    }
}

/// The sum of the held arrow keys, each a step of `UNIT` along its axis.
/// Opposite keys cancel.
pub open spec fn keys_sum(keys: Keys) -> Vector {
    Vector {
        x: (held(keys.right) - held(keys.left)) * UNIT,
        y: (held(keys.up) - held(keys.down)) * UNIT,
    }
}

/// The direction that the arrow keys give: their sum, normalised, or zero
/// where they cancel or none is held.
pub open spec fn keys_direction(keys: Keys) -> Vec2 {
    Vec2::from_vector(keys_sum(keys)).normalized()
}

/// `event` where `condition` holds, else nothing.
pub open spec fn event_if(condition: bool, event: InputEvent) -> Seq<InputEvent> {
    if condition {
        seq![event]
    } else {
        Seq::empty()
    }
}

/// The events of a tick of the keyboard, in order: a boost when its key
/// goes down, a brake when its key goes down, an impulse when the brake key
/// comes up, and a force while the brake key is up; the last two only in a
/// direction that is not zero.
pub open spec fn keyboard_events(keys: Keys) -> Seq<InputEvent> {
    let direction = keys_direction(keys);
    event_if(keys.boost.just_pressed(), InputEvent::Accelerate)
        + event_if(keys.brake.just_pressed(), InputEvent::Stabilisation)
        + event_if(
        keys.brake.just_released() && !direction@.is_zero(),
        InputEvent::Impulse { direction },
    ) + event_if(!keys.brake.pressed && !direction@.is_zero(), InputEvent::Force { direction })
}

/// The events of a tick of one gamepad, in order: a brake when the south
/// button goes down, and an impulse along the stick when it comes up, unless
/// the stick is centred.
pub open spec fn gamepad_events(gamepad: Gamepad) -> Seq<InputEvent> {
    let direction = gamepad.stick.normalized();
    event_if(gamepad.south.just_pressed(), InputEvent::Stabilisation) + event_if(
        gamepad.south.just_released() && !direction@.is_zero(),
        InputEvent::Impulse { direction },
    )
}

/// The events of a tick of the first `count` gamepads, one gamepad after
/// the other.
pub open spec fn gamepads_events(gamepads: Seq<Gamepad>, count: nat) -> Seq<InputEvent>
    decreases count,
{
    if count == 0 {
        Seq::empty()
    } else {
        gamepads_events(gamepads, (count - 1) as nat) + gamepad_events(gamepads[count - 1])
    }
}

/// The direction held on the arrow keys, of length `UNIT`, or zero.
pub fn keyboard_direction(keys: &Keys) -> (direction: Vec2)
    ensures
        direction == keys_direction(*keys),
        direction@.is_zero() <==> keys_sum(*keys).is_zero(),
        !direction@.is_zero() ==> direction@.is_direction(),
{
    let mut direction = Vec2::zero();
    if keys.up {
        direction.y = direction.y + UNIT;
    }
    if keys.down {
        direction.y = direction.y - UNIT;
    }
    if keys.left {
        direction.x = direction.x - UNIT;
    }
    if keys.right {
        direction.x = direction.x + UNIT;
    }
    direction.normalize_or_zero()
}

/// Decodes a tick of the keyboard.
pub fn keyboard_system(keys: &Keys) -> (input_events: Vec<InputEvent>)
    ensures
        input_events@ == keyboard_events(*keys),
        forall|i: int| 0 <= i < input_events@.len() ==> input_events@[i].well_directed(),
{
    let mut input_events: Vec<InputEvent> = Vec::new();
    if keys.boost.just_pressed() {
        input_events.push(InputEvent::Accelerate);
    }
    if keys.brake.just_pressed() {
        input_events.push(InputEvent::Stabilisation);
    }
    if keys.brake.just_released() {
        let direction = keyboard_direction(keys);
        if !direction.is_zero() {
            input_events.push(InputEvent::Impulse { direction });
        }
    }
    if !keys.brake.pressed {
        let direction = keyboard_direction(keys);
        if !direction.is_zero() {
            input_events.push(InputEvent::Force { direction });
        }
    }
    input_events
}

/// Decodes a tick of the gamepads, one after the other.
pub fn gamepad_system(gamepads: &Vec<Gamepad>) -> (input_events: Vec<InputEvent>)
    ensures
        input_events@ == gamepads_events(gamepads@, gamepads@.len()),
        forall|i: int| 0 <= i < input_events@.len() ==> input_events@[i].well_directed(),
{
    let mut input_events: Vec<InputEvent> = Vec::new();
    let mut index: usize = 0;
    while index < gamepads.len()
        invariant
            index <= gamepads@.len(),
            input_events@ == gamepads_events(gamepads@, index as nat),
            forall|i: int| 0 <= i < input_events@.len() ==> input_events@[i].well_directed(),
        decreases gamepads@.len() - index,
    {
        let gamepad = gamepads[index];
        if gamepad.south.just_pressed() {
            input_events.push(InputEvent::Stabilisation);
        }
        if gamepad.south.just_released() {
            let direction = gamepad.stick.normalize_or_zero();
            if !direction.is_zero() {
                input_events.push(InputEvent::Impulse { direction });
            }
        }
        index = index + 1;
    }
    input_events
}

/// Arrow keys that cancel push nowhere: with up and down both held or both
/// up, and left and right likewise, a tick of the keyboard gives neither a
/// force nor an impulse.
pub proof fn lemma_cancelling_keys_give_no_push(keys: Keys)
    requires
        keys.up == keys.down,
        keys.left == keys.right,
    ensures
        keys_direction(keys)@.is_zero(),
        forall|i: int|
            0 <= i < keyboard_events(keys).len() ==> !(#[trigger] keyboard_events(keys)[i] is Force)
                && !(keyboard_events(keys)[i] is Impulse),
{
}

/// Arrow keys that do not cancel give a direction, and while the brake key
/// is up a force along it is the last event of the tick.
pub proof fn lemma_held_keys_give_a_force(keys: Keys)
    requires
        keys.up != keys.down || keys.left != keys.right,
        !keys.brake.pressed,
    ensures
        keys_direction(keys)@.is_direction(),
        keyboard_events(keys).len() > 0,
        keyboard_events(keys).last() == (InputEvent::Force { direction: keys_direction(keys) }),
{
    lemma_normalize_gives_direction(keys_sum(keys));
}

} // verus!
