//! Keyboard and mouse input, turned into the events that the game reacts to.

use crate::engine::{just_pressed, just_pressed_buttons, pressed, pressed_keys};
use bevy::input::keyboard::KeyCode;
use bevy::input::mouse::MouseButton;
use bevy::input::ButtonInput;
use vstd::prelude::*;

verus! {

/// What the player asks for in one frame.
#[derive(Clone, Copy, Debug, PartialEq, Eq, Structural)]
pub enum InputEvent {
    Up,
    Down,
    Left,
    Right,
    PrimaryAction,
    SecondaryAction,
}

/// The keys that steer the player's ship.
#[derive(Clone, Copy, Debug, PartialEq, Eq, Structural)]
pub enum SteeringKey {
    KeyW,
    ArrowUp,
    KeyS,
    ArrowDown,
    KeyA,
    ArrowLeft,
    KeyD,
    ArrowRight,
}

/// The mouse buttons that make the player's ship act.
#[derive(Clone, Copy, Debug, PartialEq, Eq, Structural)]
pub enum ActionButton {
    Left,
    Right,
}

/// The keys and mouse buttons that the game listens to, as they are in one
/// frame. A key counts while it is held down, a mouse button only in the
/// frame in which it goes down.
#[derive(Clone, Copy, Debug, PartialEq, Eq, Structural)]
pub struct Buttons {
    pub key_w: bool,
    pub arrow_up: bool,
    pub key_s: bool,
    pub arrow_down: bool,
    pub key_a: bool,
    pub arrow_left: bool,
    pub key_d: bool,
    pub arrow_right: bool,
    pub mouse_left_just_pressed: bool,
    pub mouse_right_just_pressed: bool,
}

/// `event` once if `pressed`, and nothing otherwise.
pub open spec fn emitted(pressed: bool, event: InputEvent) -> Seq<InputEvent> {
    if pressed {
        seq![event]
    } else {
        Seq::empty()
    }
}

/// The events of one frame: each direction and action at most once, in the
/// order up, down, left, right, primary, secondary.
pub open spec fn input_events(buttons: Buttons) -> Seq<InputEvent> {
    emitted(buttons.key_w || buttons.arrow_up, InputEvent::Up)
        + emitted(buttons.key_s || buttons.arrow_down, InputEvent::Down)
        + emitted(buttons.key_a || buttons.arrow_left, InputEvent::Left)
        + emitted(buttons.key_d || buttons.arrow_right, InputEvent::Right)
        + emitted(buttons.mouse_left_just_pressed, InputEvent::PrimaryAction)
        + emitted(buttons.mouse_right_just_pressed, InputEvent::SecondaryAction)
}

/// The buttons of a frame in which the keys of `down` are held and the
/// mouse buttons of `clicked` have just gone down.
pub open spec fn buttons_of(down: Set<SteeringKey>, clicked: Set<ActionButton>) -> Buttons {
    Buttons {
        key_w: down.contains(SteeringKey::KeyW),
        arrow_up: down.contains(SteeringKey::ArrowUp),
        key_s: down.contains(SteeringKey::KeyS),
        arrow_down: down.contains(SteeringKey::ArrowDown),
        key_a: down.contains(SteeringKey::KeyA),
        arrow_left: down.contains(SteeringKey::ArrowLeft),
        key_d: down.contains(SteeringKey::KeyD),
        arrow_right: down.contains(SteeringKey::ArrowRight),
        mouse_left_just_pressed: clicked.contains(ActionButton::Left),
        mouse_right_just_pressed: clicked.contains(ActionButton::Right),
    }
}

impl Buttons {
    /// Looks up, in the engine's records of keyboard and mouse, the buttons
    /// that the game listens to.
    pub fn read(keys: &ButtonInput<KeyCode>, mouse: &ButtonInput<MouseButton>) -> (buttons: Self)
        ensures
            buttons == buttons_of(pressed_keys(*keys), just_pressed_buttons(*mouse)),
    {
        Buttons {
            key_w: pressed(keys, SteeringKey::KeyW),
            arrow_up: pressed(keys, SteeringKey::ArrowUp),
            key_s: pressed(keys, SteeringKey::KeyS),
            arrow_down: pressed(keys, SteeringKey::ArrowDown),
            key_a: pressed(keys, SteeringKey::KeyA),
            arrow_left: pressed(keys, SteeringKey::ArrowLeft),
            key_d: pressed(keys, SteeringKey::KeyD),
            arrow_right: pressed(keys, SteeringKey::ArrowRight),
            mouse_left_just_pressed: just_pressed(mouse, ActionButton::Left),
            mouse_right_just_pressed: just_pressed(mouse, ActionButton::Right),
        }
    }

    /// The input events that these buttons stand for.
    ///
    /// W or the up arrow means up, S or the down arrow down, A or the left
    /// arrow left, D or the right arrow right; the left mouse button is the
    /// primary action and the right one the secondary action.
    pub fn events(&self) -> (events: Vec<InputEvent>)
        ensures
            events@ == input_events(*self),
    {
        let mut events: Vec<InputEvent> = Vec::new();
        if self.key_w || self.arrow_up {
            events.push(InputEvent::Up);
        }
        if self.key_s || self.arrow_down {
            events.push(InputEvent::Down);
        }
        if self.key_a || self.arrow_left {
            events.push(InputEvent::Left);
        }
        if self.key_d || self.arrow_right {
            events.push(InputEvent::Right);
        }
        if self.mouse_left_just_pressed {
            events.push(InputEvent::PrimaryAction);
        }
        if self.mouse_right_just_pressed {
            events.push(InputEvent::SecondaryAction);
        }
        events
    }
}

/// Turns the engine's records of keyboard and mouse into the input events
/// of a frame.
pub fn pc_input(keys: &ButtonInput<KeyCode>, mouse: &ButtonInput<MouseButton>) -> (events: Vec<
    InputEvent,
>)
    ensures
        events@ == input_events(buttons_of(pressed_keys(*keys), just_pressed_buttons(*mouse))),
{
    Buttons::read(keys, mouse).events()
}

/// How many of `events` are primary actions.
pub open spec fn primary_actions(events: Seq<InputEvent>) -> nat {
    events.filter(|event: InputEvent| event == InputEvent::PrimaryAction).len()
}

/// Counts the bullets that the player's ship fires in a frame: one for each
/// primary action among the input events.
pub fn shoot_bullet(events: &Vec<InputEvent>) -> (bullets: usize)
    ensures
        bullets == primary_actions(events@),
{
    let mut bullets: usize = 0;
    let mut i: usize = 0;
    while i < events.len()
        invariant
            i <= events.len(),
            bullets <= i,
            bullets == primary_actions(events@.take(i as int)),
        decreases events.len() - i,
    {
        proof {
            let is_primary = |event: InputEvent| event == InputEvent::PrimaryAction;
            let seen = events@.take(i as int);
            assert(events@.take(i + 1) == seen + seq![events[i as int]]);
            Seq::filter_distributes_over_add(seen, seq![events[i as int]], is_primary);
            reveal_with_fuel(Seq::filter, 2);
        }
        if let InputEvent::PrimaryAction = events[i] {
            bullets += 1;
        }
        i += 1;
    }
    assert(events@.take(events.len() as int) == events@);
    bullets
}

/// The input of one frame fires at most one bullet, and fires it exactly
/// when the left mouse button has just gone down.
pub proof fn lemma_one_bullet_per_click(buttons: Buttons)
    ensures
        primary_actions(input_events(buttons)) == if buttons.mouse_left_just_pressed {
            1nat
        } else {
            0nat
        },
{
    let is_primary = |event: InputEvent| event == InputEvent::PrimaryAction;
    let up = emitted(buttons.key_w || buttons.arrow_up, InputEvent::Up);
    let down = emitted(buttons.key_s || buttons.arrow_down, InputEvent::Down);
    let left = emitted(buttons.key_a || buttons.arrow_left, InputEvent::Left);
    let right = emitted(buttons.key_d || buttons.arrow_right, InputEvent::Right);
    let primary = emitted(buttons.mouse_left_just_pressed, InputEvent::PrimaryAction);
    let secondary = emitted(buttons.mouse_right_just_pressed, InputEvent::SecondaryAction);
    reveal_with_fuel(Seq::filter, 2);
    assert(primary.filter(is_primary).len() == if buttons.mouse_left_just_pressed {
        1nat
    } else {
        0nat
    });
    Seq::filter_distributes_over_add(up, down, is_primary);
    Seq::filter_distributes_over_add(up + down, left, is_primary);
    Seq::filter_distributes_over_add(up + down + left, right, is_primary);
    Seq::filter_distributes_over_add(up + down + left + right, primary, is_primary);
    Seq::filter_distributes_over_add(up + down + left + right + primary, secondary, is_primary);
}

} // verus!
