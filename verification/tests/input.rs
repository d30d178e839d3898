use asteroids::input::{pc_input, shoot_bullet, Buttons, InputEvent};
use bevy::input::keyboard::KeyCode;
use bevy::input::mouse::MouseButton;
use bevy::input::ButtonInput;

fn released() -> Buttons {
    Buttons {
        key_w: false,
        arrow_up: false,
        key_s: false,
        arrow_down: false,
        key_a: false,
        arrow_left: false,
        key_d: false,
        arrow_right: false,
        mouse_left_just_pressed: false,
        mouse_right_just_pressed: false,
    }
}

fn keyboard(down: &[KeyCode]) -> ButtonInput<KeyCode> {
    let mut keys = ButtonInput::default();
    for key in down {
        keys.press(*key);
    }
    keys
}

fn mouse(down: &[MouseButton]) -> ButtonInput<MouseButton> {
    let mut buttons = ButtonInput::default();
    for button in down {
        buttons.press(*button);
    }
    buttons
}

#[test]
fn nothing_pressed_no_event() {
    assert_eq!(released().events(), Vec::new());
    assert_eq!(pc_input(&keyboard(&[]), &mouse(&[])), Vec::new());
}

#[test]
fn everything_pressed_gives_each_event_once_in_order() {
    let buttons = Buttons {
        key_w: true,
        arrow_up: true,
        key_s: true,
        arrow_down: true,
        key_a: true,
        arrow_left: true,
        key_d: true,
        arrow_right: true,
        mouse_left_just_pressed: true,
        mouse_right_just_pressed: true,
    };
    let all = vec![
        InputEvent::Up,
        InputEvent::Down,
        InputEvent::Left,
        InputEvent::Right,
        InputEvent::PrimaryAction,
        InputEvent::SecondaryAction,
    ];
    assert_eq!(buttons.events(), all);
    let keys = keyboard(&[
        KeyCode::ArrowRight,
        KeyCode::KeyD,
        KeyCode::ArrowLeft,
        KeyCode::KeyA,
        KeyCode::ArrowDown,
        KeyCode::KeyS,
        KeyCode::ArrowUp,
        KeyCode::KeyW,
    ]);
    let clicks = mouse(&[MouseButton::Right, MouseButton::Left]);
    assert_eq!(Buttons::read(&keys, &clicks), buttons);
    assert_eq!(pc_input(&keys, &clicks), all);
}

#[test]
fn letters_steer() {
    assert_eq!(Buttons { key_w: true, ..released() }.events(), vec![InputEvent::Up]);
    assert_eq!(Buttons { key_s: true, ..released() }.events(), vec![InputEvent::Down]);
    assert_eq!(Buttons { key_a: true, ..released() }.events(), vec![InputEvent::Left]);
    assert_eq!(Buttons { key_d: true, ..released() }.events(), vec![InputEvent::Right]);
}

#[test]
fn arrows_steer() {
    assert_eq!(Buttons { arrow_up: true, ..released() }.events(), vec![InputEvent::Up]);
    assert_eq!(Buttons { arrow_down: true, ..released() }.events(), vec![InputEvent::Down]);
    assert_eq!(Buttons { arrow_left: true, ..released() }.events(), vec![InputEvent::Left]);
    assert_eq!(Buttons { arrow_right: true, ..released() }.events(), vec![InputEvent::Right]);
}

#[test]
fn mouse_buttons_act() {
    assert_eq!(
        Buttons { mouse_left_just_pressed: true, ..released() }.events(),
        vec![InputEvent::PrimaryAction]
    );
    assert_eq!(
        Buttons { mouse_right_just_pressed: true, ..released() }.events(),
        vec![InputEvent::SecondaryAction]
    );
}

#[test]
fn opposite_directions_are_both_given() {
    let buttons = Buttons { arrow_down: true, key_w: true, key_d: true, ..released() };
    assert_eq!(buttons.events(), vec![InputEvent::Up, InputEvent::Down, InputEvent::Right]);
}

#[test]
fn each_key_is_read_from_the_keyboard() {
    let none = mouse(&[]);
    assert_eq!(
        Buttons::read(&keyboard(&[KeyCode::KeyW]), &none),
        Buttons { key_w: true, ..released() }
    );
    assert_eq!(
        Buttons::read(&keyboard(&[KeyCode::ArrowUp]), &none),
        Buttons { arrow_up: true, ..released() }
    );
    assert_eq!(
        Buttons::read(&keyboard(&[KeyCode::KeyS]), &none),
        Buttons { key_s: true, ..released() }
    );
    assert_eq!(
        Buttons::read(&keyboard(&[KeyCode::ArrowDown]), &none),
        Buttons { arrow_down: true, ..released() }
    );
    assert_eq!(
        Buttons::read(&keyboard(&[KeyCode::KeyA]), &none),
        Buttons { key_a: true, ..released() }
    );
    assert_eq!(
        Buttons::read(&keyboard(&[KeyCode::ArrowLeft]), &none),
        Buttons { arrow_left: true, ..released() }
    );
    assert_eq!(
        Buttons::read(&keyboard(&[KeyCode::KeyD]), &none),
        Buttons { key_d: true, ..released() }
    );
    assert_eq!(
        Buttons::read(&keyboard(&[KeyCode::ArrowRight]), &none),
        Buttons { arrow_right: true, ..released() }
    );
}

#[test]
fn each_button_is_read_from_the_mouse() {
    let none = keyboard(&[]);
    assert_eq!(
        Buttons::read(&none, &mouse(&[MouseButton::Left])),
        Buttons { mouse_left_just_pressed: true, ..released() }
    );
    assert_eq!(
        Buttons::read(&none, &mouse(&[MouseButton::Right])),
        Buttons { mouse_right_just_pressed: true, ..released() }
    );
}

#[test]
fn other_keys_and_buttons_mean_nothing() {
    let keys = keyboard(&[KeyCode::Space, KeyCode::KeyQ, KeyCode::Enter, KeyCode::Escape]);
    let clicks = mouse(&[MouseButton::Middle, MouseButton::Back, MouseButton::Other(7)]);
    assert_eq!(Buttons::read(&keys, &clicks), released());
    assert_eq!(pc_input(&keys, &clicks), Vec::new());
}

#[test]
fn keyboard_and_mouse_give_events() {
    let keys = keyboard(&[KeyCode::KeyW, KeyCode::ArrowLeft, KeyCode::Space]);
    let clicks = mouse(&[MouseButton::Left]);
    assert_eq!(
        pc_input(&keys, &clicks),
        vec![InputEvent::Up, InputEvent::Left, InputEvent::PrimaryAction]
    );
    assert_eq!(pc_input(&keyboard(&[KeyCode::ArrowDown]), &mouse(&[])), vec![InputEvent::Down]);
    assert_eq!(
        pc_input(&keyboard(&[KeyCode::KeyD, KeyCode::ArrowRight]), &mouse(&[MouseButton::Right])),
        vec![InputEvent::Right, InputEvent::SecondaryAction]
    );
}

#[test]
fn a_key_counts_while_held_and_a_click_only_once() {
    let mut keys = keyboard(&[KeyCode::KeyS]);
    let mut clicks = mouse(&[MouseButton::Left]);
    assert_eq!(pc_input(&keys, &clicks), vec![InputEvent::Down, InputEvent::PrimaryAction]);
    keys.clear();
    clicks.clear();
    assert_eq!(pc_input(&keys, &clicks), vec![InputEvent::Down]);
    keys.release(KeyCode::KeyS);
    clicks.release(MouseButton::Left);
    assert_eq!(pc_input(&keys, &clicks), Vec::new());
    clicks.press(MouseButton::Left);
    assert_eq!(pc_input(&keys, &clicks), vec![InputEvent::PrimaryAction]);
}

#[test]
fn one_bullet_for_each_primary_action() {
    assert_eq!(shoot_bullet(&vec![InputEvent::PrimaryAction]), 1);
    let events = vec![
        InputEvent::Up,
        InputEvent::PrimaryAction,
        InputEvent::SecondaryAction,
        InputEvent::PrimaryAction,
        InputEvent::Left,
    ];
    assert_eq!(shoot_bullet(&events), 2);
}

#[test]
fn no_bullet_without_a_primary_action() {
    assert_eq!(shoot_bullet(&Vec::new()), 0);
    let events = vec![
        InputEvent::Up,
        InputEvent::Down,
        InputEvent::Left,
        InputEvent::Right,
        InputEvent::SecondaryAction,
    ];
    assert_eq!(shoot_bullet(&events), 0);
}

#[test]
fn a_click_fires_one_bullet() {
    let events = Buttons { key_w: true, mouse_left_just_pressed: true, ..released() }.events();
    assert_eq!(shoot_bullet(&events), 1);
    let events = Buttons { key_w: true, mouse_right_just_pressed: true, ..released() }.events();
    assert_eq!(shoot_bullet(&events), 0);
    let events = pc_input(&keyboard(&[KeyCode::KeyW]), &mouse(&[MouseButton::Left]));
    assert_eq!(shoot_bullet(&events), 1);
}
