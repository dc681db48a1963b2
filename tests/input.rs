use engine::game_input::{GameKey, InputContext};
use engine::input::{Event, Input, Key, State};

#[test]
fn key_codes_follow_declaration_order() {
    assert_eq!(Key::k_Escape.code(), 0);
    assert_eq!(Key::k_F1.code(), 1);
    assert_eq!(Key::k_Return.code(), 13);
    assert_eq!(Key::k_0.code(), 35);
    assert_eq!(Key::k_A.code(), 45);
    assert_eq!(Key::k_Z.code(), 70);
}

#[test]
fn input_starts_released_and_empty() {
    let mut input = Input::new();
    let state = input.take_state();
    assert!(!state.is_pressed(Key::k_A));
    assert!(!state.is_pressed(Key::k_Escape));
    assert!(input.take_events().is_empty());
    assert!(!State::default().is_pressed(Key::k_Z));
}

#[test]
fn input_set_state_marks_only_that_key() {
    let mut input = Input::default();
    input.set_state(Key::k_W, 1);
    let state = input.take_state();
    assert!(state.is_pressed(Key::k_W));
    assert!(!state.is_pressed(Key::k_S));
    input.set_state(Key::k_W, 0);
    assert!(!input.take_state().is_pressed(Key::k_W));
    // the copy taken earlier is unaffected
    assert!(state.is_pressed(Key::k_W));
}

#[test]
fn input_events_are_taken_in_order_once() {
    let mut input = Input::new();
    input.add_event(Event::KeyDown { key: Key::k_Space });
    input.add_event(Event::MouseMove { x: 3, y: -4 });
    input.add_event(Event::KeyUp { key: Key::k_Space });
    let events = input.take_events();
    assert_eq!(
        events,
        vec![
            Event::KeyDown { key: Key::k_Space },
            Event::MouseMove { x: 3, y: -4 },
            Event::KeyUp { key: Key::k_Space },
        ]
    );
    assert!(input.take_events().is_empty());
}

#[test]
fn game_keys_use_default_bindings() {
    let mut input = Input::new();
    input.set_state(Key::k_W, 1);
    input.set_state(Key::k_Space, 1);
    let mut ctx = InputContext::default();
    assert!(!ctx.is_pressed(GameKey::MoveForward));
    ctx.update_state(input.take_state());
    assert!(ctx.is_pressed(GameKey::MoveForward));
    assert!(ctx.is_pressed(GameKey::Accelerate));
    assert!(ctx.is_pressed(GameKey::Jump));
    assert!(ctx.is_pressed(GameKey::Handbrake));
    assert!(!ctx.is_pressed(GameKey::Brake));
    assert!(!ctx.is_pressed(GameKey::Menu));
    assert!(!ctx.is_pressed(GameKey::WorldMap));
}

#[test]
fn game_key_indices() {
    assert_eq!(GameKey::Menu.index(), 0);
    assert_eq!(GameKey::MoveForward.index(), 7);
    assert_eq!(GameKey::Lights.index(), 23);
}
