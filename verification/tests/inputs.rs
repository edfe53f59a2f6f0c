use arcade_control::inputs::{
    gamepad_system, keyboard_direction, keyboard_system, Button, Gamepad, InputEvent, Keys,
};
use arcade_control::vector::Vec2;

const UP: Button = Button { was_pressed: false, pressed: false };
const HELD: Button = Button { was_pressed: true, pressed: true };
const PRESSED: Button = Button { was_pressed: false, pressed: true };
const RELEASED: Button = Button { was_pressed: true, pressed: false };

fn arrows(up: bool, down: bool, left: bool, right: bool) -> Keys {
    Keys { up, down, left, right, brake: UP, boost: UP }
}

fn has_force(events: &[InputEvent]) -> bool {
    events.iter().any(|event| matches!(event, InputEvent::Force { .. }))
}

fn has_impulse(events: &[InputEvent]) -> bool {
    events.iter().any(|event| matches!(event, InputEvent::Impulse { .. }))
}

#[test]
fn button_edges() {
    assert!(PRESSED.just_pressed());
    assert!(!PRESSED.just_released());
    assert!(RELEASED.just_released());
    assert!(!RELEASED.just_pressed());
    assert!(!HELD.just_pressed());
    assert!(!HELD.just_released());
    assert!(!UP.just_pressed());
    assert!(!UP.just_released());
}

#[test]
fn no_arrow_gives_no_direction() {
    assert_eq!(keyboard_direction(&arrows(false, false, false, false)), Vec2::zero());
}

#[test]
fn single_arrows_give_axis_directions() {
    assert_eq!(keyboard_direction(&arrows(true, false, false, false)), Vec2::new(0, 1000));
    assert_eq!(keyboard_direction(&arrows(false, true, false, false)), Vec2::new(0, -1000));
    assert_eq!(keyboard_direction(&arrows(false, false, true, false)), Vec2::new(-1000, 0));
    assert_eq!(keyboard_direction(&arrows(false, false, false, true)), Vec2::new(1000, 0));
}

#[test]
fn two_arrows_give_a_diagonal() {
    assert_eq!(keyboard_direction(&arrows(true, false, false, true)), Vec2::new(707, 707));
    assert_eq!(keyboard_direction(&arrows(true, false, true, false)), Vec2::new(-707, 707));
    assert_eq!(keyboard_direction(&arrows(false, true, false, true)), Vec2::new(707, -707));
    assert_eq!(keyboard_direction(&arrows(false, true, true, false)), Vec2::new(-707, -707));
}

#[test]
fn opposite_arrows_cancel() {
    assert_eq!(keyboard_direction(&arrows(true, true, false, false)), Vec2::zero());
    assert_eq!(keyboard_direction(&arrows(false, false, true, true)), Vec2::zero());
    assert_eq!(keyboard_direction(&arrows(true, true, true, true)), Vec2::zero());
    assert_eq!(keyboard_direction(&arrows(true, true, false, true)), Vec2::new(1000, 0));
    assert_eq!(keyboard_direction(&arrows(true, true, true, false)), Vec2::new(-1000, 0));
    assert_eq!(keyboard_direction(&arrows(true, false, true, true)), Vec2::new(0, 1000));
    assert_eq!(keyboard_direction(&arrows(false, true, true, true)), Vec2::new(0, -1000));
}

#[test]
fn direction_ignores_the_buttons() {
    for brake in [UP, HELD, PRESSED, RELEASED] {
        for boost in [UP, HELD, PRESSED, RELEASED] {
            let keys = Keys { up: true, down: false, left: false, right: true, brake, boost };
            assert_eq!(keyboard_direction(&keys), Vec2::new(707, 707));
        }
    }
}

#[test]
fn up_and_down_never_give_a_force() {
    for brake in [UP, HELD, PRESSED, RELEASED] {
        for boost in [UP, HELD, PRESSED, RELEASED] {
            let keys = Keys { up: true, down: true, left: false, right: false, brake, boost };
            let events = keyboard_system(&keys);
            assert!(!has_force(&events));
            assert!(!has_impulse(&events));
        }
    }
    let events = keyboard_system(&arrows(true, true, false, false));
    assert!(events.is_empty());
    let events = keyboard_system(&arrows(true, true, true, true));
    assert!(events.is_empty());
}

#[test]
fn idle_keyboard_gives_no_event() {
    assert!(keyboard_system(&arrows(false, false, false, false)).is_empty());
}

#[test]
fn held_arrow_gives_a_force_every_tick() {
    let keys = arrows(false, false, false, true);
    for _ in 0..3 {
        assert_eq!(
            keyboard_system(&keys),
            vec![InputEvent::Force { direction: Vec2::new(1000, 0) }]
        );
    }
    assert_eq!(
        keyboard_system(&arrows(true, false, false, true)),
        vec![InputEvent::Force { direction: Vec2::new(707, 707) }]
    );
}

#[test]
fn boost_fires_on_press_only() {
    let mut keys = arrows(false, false, false, false);
    keys.boost = PRESSED;
    assert_eq!(keyboard_system(&keys), vec![InputEvent::Accelerate]);
    keys.boost = HELD;
    assert!(keyboard_system(&keys).is_empty());
    keys.boost = RELEASED;
    assert!(keyboard_system(&keys).is_empty());
}

#[test]
fn brake_fires_on_press_only() {
    let mut keys = arrows(false, false, false, false);
    keys.brake = PRESSED;
    assert_eq!(keyboard_system(&keys), vec![InputEvent::Stabilisation]);
    keys.brake = HELD;
    assert!(keyboard_system(&keys).is_empty());
}

#[test]
fn no_force_while_the_brake_is_held() {
    let mut keys = arrows(true, false, false, false);
    keys.brake = PRESSED;
    assert_eq!(keyboard_system(&keys), vec![InputEvent::Stabilisation]);
    keys.brake = HELD;
    assert!(keyboard_system(&keys).is_empty());
}

#[test]
fn releasing_the_brake_fires_an_impulse_then_a_force() {
    let mut keys = arrows(true, false, false, false);
    keys.brake = RELEASED;
    assert_eq!(
        keyboard_system(&keys),
        vec![
            InputEvent::Impulse { direction: Vec2::new(0, 1000) },
            InputEvent::Force { direction: Vec2::new(0, 1000) },
        ]
    );
}

#[test]
fn releasing_the_brake_without_direction_fires_nothing() {
    let mut keys = arrows(false, false, false, false);
    keys.brake = RELEASED;
    assert!(keyboard_system(&keys).is_empty());
    let mut keys = arrows(false, false, true, true);
    keys.brake = RELEASED;
    assert!(keyboard_system(&keys).is_empty());
}

#[test]
fn keyboard_events_come_in_order() {
    let keys = Keys {
        up: false,
        down: true,
        left: true,
        right: false,
        brake: RELEASED,
        boost: PRESSED,
    };
    assert_eq!(
        keyboard_system(&keys),
        vec![
            InputEvent::Accelerate,
            InputEvent::Impulse { direction: Vec2::new(-707, -707) },
            InputEvent::Force { direction: Vec2::new(-707, -707) },
        ]
    );
    let keys = Keys {
        up: false,
        down: true,
        left: true,
        right: false,
        brake: PRESSED,
        boost: PRESSED,
    };
    assert_eq!(keyboard_system(&keys), vec![InputEvent::Accelerate, InputEvent::Stabilisation]);
}

#[test]
fn no_gamepad_gives_no_event() {
    assert!(gamepad_system(&Vec::new()).is_empty());
}

#[test]
fn gamepad_brakes_on_press() {
    let gamepad = Gamepad { south: PRESSED, stick: Vec2::new(500, 500) };
    assert_eq!(gamepad_system(&vec![gamepad]), vec![InputEvent::Stabilisation]);
    let gamepad = Gamepad { south: HELD, stick: Vec2::new(500, 500) };
    assert!(gamepad_system(&vec![gamepad]).is_empty());
    let gamepad = Gamepad { south: UP, stick: Vec2::new(500, 500) };
    assert!(gamepad_system(&vec![gamepad]).is_empty());
}

#[test]
fn gamepad_fires_along_the_stick_on_release() {
    let gamepad = Gamepad { south: RELEASED, stick: Vec2::new(500, 500) };
    assert_eq!(
        gamepad_system(&vec![gamepad]),
        vec![InputEvent::Impulse { direction: Vec2::new(707, 707) }]
    );
    let gamepad = Gamepad { south: RELEASED, stick: Vec2::new(1000, -300) };
    assert_eq!(
        gamepad_system(&vec![gamepad]),
        vec![InputEvent::Impulse { direction: Vec2::new(957, -287) }]
    );
}

#[test]
fn centred_stick_fires_nothing() {
    let gamepad = Gamepad { south: RELEASED, stick: Vec2::zero() };
    assert!(gamepad_system(&vec![gamepad]).is_empty());
}

#[test]
fn gamepads_are_decoded_one_after_the_other() {
    let gamepads = vec![
        Gamepad { south: RELEASED, stick: Vec2::new(0, 12) },
        Gamepad { south: HELD, stick: Vec2::new(100, 0) },
        Gamepad { south: PRESSED, stick: Vec2::new(100, 0) },
        Gamepad { south: RELEASED, stick: Vec2::zero() },
        Gamepad { south: RELEASED, stick: Vec2::new(-300, -400) },
    ];
    assert_eq!(
        gamepad_system(&gamepads),
        vec![
            InputEvent::Impulse { direction: Vec2::new(0, 1000) },
            InputEvent::Stabilisation,
            InputEvent::Impulse { direction: Vec2::new(-600, -800) },
        ]
    );
}

#[test]
fn decoded_directions_are_never_zero() {
    let buttons = [UP, HELD, PRESSED, RELEASED];
    for bits in 0..16 {
        for brake in buttons {
            let keys = Keys {
                up: bits & 1 != 0,
                down: bits & 2 != 0,
                left: bits & 4 != 0,
                right: bits & 8 != 0,
                brake,
                boost: UP,
            };
            for event in keyboard_system(&keys) {
                match event {
                    InputEvent::Impulse { direction } | InputEvent::Force { direction } => {
                        assert!(!direction.is_zero());
                        assert_eq!(direction, keyboard_direction(&keys));
                    }
                    InputEvent::Stabilisation | InputEvent::Accelerate => {}
                }
            }
        }
    }
}
