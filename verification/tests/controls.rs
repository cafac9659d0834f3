use cogs_gamedev::controls::{EventInputHandler, InputHandler, PollingInputHandler};
use std::collections::{HashMap, HashSet};

const JUMP: usize = 0;
const FIRE: usize = 1;
const PAUSE: usize = 2;

fn bindings() -> HashMap<char, usize> {
    let mut config = HashMap::new();
    config.insert('z', JUMP);
    config.insert('x', FIRE);
    config.insert('p', PAUSE);
    config
}

#[test]
fn event_handler_starts_released() {
    let handler: EventInputHandler<char> = EventInputHandler::new(3, bindings());
    for control in [JUMP, FIRE, PAUSE] {
        assert!(handler.released(control));
        assert!(!handler.pressed(control));
        assert!(!handler.clicked_down(control));
    }
    let empty: EventInputHandler<char> = EventInputHandler::new_empty(2);
    assert!(empty.released(0));
    assert!(empty.released(1));
}

#[test]
fn event_handler_counts_frames() {
    let mut handler: EventInputHandler<char> = EventInputHandler::new(3, bindings());
    handler.input_down('z');
    assert!(handler.released(JUMP));
    handler.update();
    assert!(handler.pressed(JUMP));
    assert!(handler.clicked_down(JUMP));
    assert!(handler.released(FIRE));
    handler.update();
    assert!(handler.pressed(JUMP));
    assert!(!handler.clicked_down(JUMP));
    handler.input_down('x');
    handler.input_up('z');
    handler.update();
    assert!(handler.released(JUMP));
    assert!(handler.clicked_down(FIRE));
    assert!(handler.released(PAUSE));
}

#[test]
fn event_handler_ignores_unbound_inputs() {
    let mut handler: EventInputHandler<char> = EventInputHandler::new(3, bindings());
    handler.input_down('q');
    handler.input_up('w');
    assert!(handler.try_update());
    for control in [JUMP, FIRE, PAUSE] {
        assert!(handler.released(control));
    }
}

#[test]
fn event_handler_clears_inputs() {
    let mut handler: EventInputHandler<char> = EventInputHandler::new(3, bindings());
    handler.input_down('z');
    handler.input_down('p');
    handler.update();
    assert!(handler.pressed(JUMP));
    assert!(handler.pressed(PAUSE));
    handler.clear_inputs();
    assert!(handler.pressed(JUMP));
    handler.update();
    assert!(handler.released(JUMP));
    assert!(handler.released(PAUSE));
}

#[test]
fn event_handler_clone_is_independent() {
    let mut handler: EventInputHandler<char> = EventInputHandler::new(3, bindings());
    handler.input_down('x');
    handler.update();
    let mut copy = handler.clone();
    assert!(copy.clicked_down(FIRE));
    copy.update();
    assert!(copy.pressed(FIRE));
    assert!(!copy.clicked_down(FIRE));
    assert!(handler.clicked_down(FIRE));
}

#[test]
fn polling_handler_counts_frames() {
    let mut handler: PollingInputHandler<char> = PollingInputHandler::new(3, bindings());
    assert!(handler.released(JUMP));
    let mut pressed = HashSet::new();
    pressed.insert('z');
    handler.update(&pressed);
    assert!(handler.clicked_down(JUMP));
    assert!(handler.released(FIRE));
    pressed.insert('x');
    handler.update(&pressed);
    assert!(handler.pressed(JUMP));
    assert!(!handler.clicked_down(JUMP));
    assert!(handler.clicked_down(FIRE));
    pressed.remove(&'z');
    assert!(handler.try_update(&pressed));
    assert!(handler.released(JUMP));
    assert!(handler.pressed(FIRE));
    assert!(!handler.clicked_down(FIRE));
    assert!(handler.released(PAUSE));
}

#[test]
fn polling_handler_without_bindings() {
    let mut handler: PollingInputHandler<char> = PollingInputHandler::new_empty(2);
    let mut pressed = HashSet::new();
    pressed.insert('z');
    handler.update(&pressed);
    assert!(handler.released(0));
    assert!(handler.released(1));
}

#[test]
fn polling_handler_two_inputs_for_one_control() {
    let mut config = HashMap::new();
    config.insert('a', JUMP);
    config.insert('b', JUMP);
    let mut handler: PollingInputHandler<char> = PollingInputHandler::new(1, config);
    let mut pressed = HashSet::new();
    pressed.insert('a');
    pressed.insert('b');
    handler.update(&pressed);
    assert!(handler.pressed(JUMP));
    assert!(!handler.clicked_down(JUMP));
    let none = HashSet::new();
    handler.update(&none);
    assert!(handler.released(JUMP));
}
