use chip8::input::crossterm_input::CrosstermInput;
use chip8::input::{ChipKeys, KeyPress, Keyboard, NUMBER_OF_KEYS};

const ALL_KEYS: [ChipKeys; 17] = [
    ChipKeys::Key0,
    ChipKeys::Key1,
    ChipKeys::Key2,
    ChipKeys::Key3,
    ChipKeys::Key4,
    ChipKeys::Key5,
    ChipKeys::Key6,
    ChipKeys::Key7,
    ChipKeys::Key8,
    ChipKeys::Key9,
    ChipKeys::KeyA,
    ChipKeys::KeyB,
    ChipKeys::KeyC,
    ChipKeys::KeyD,
    ChipKeys::KeyE,
    ChipKeys::KeyF,
    ChipKeys::ESC,
];

#[test]
fn number_of_keys() {
    assert_eq!(NUMBER_OF_KEYS, 17);
    assert_eq!(ALL_KEYS.len(), NUMBER_OF_KEYS);
}

#[test]
fn to_hex_of_every_key() {
    for (value, key) in ALL_KEYS[..16].iter().enumerate() {
        assert_eq!(key.to_hex() as usize, value);
    }
    assert_eq!(ChipKeys::KeyA.to_hex(), 0xA);
    assert_eq!(ChipKeys::KeyF.to_hex(), 0xF);
    assert_eq!(ChipKeys::ESC.to_hex(), 0x0);
}

#[test]
fn positions_in_keypad_order() {
    for (place, key) in ALL_KEYS.iter().enumerate() {
        assert_eq!(key.position(), place);
        assert_eq!(ChipKeys::at_position(place), *key);
    }
    assert_eq!(ChipKeys::ESC.position(), 16);
}

#[test]
fn reference_layout_of_the_host_keys() {
    let layout = [
        ('1', ChipKeys::Key1),
        ('2', ChipKeys::Key2),
        ('3', ChipKeys::Key3),
        ('4', ChipKeys::KeyC),
        ('q', ChipKeys::Key4),
        ('w', ChipKeys::Key5),
        ('e', ChipKeys::Key6),
        ('r', ChipKeys::KeyD),
        ('a', ChipKeys::Key7),
        ('s', ChipKeys::Key8),
        ('d', ChipKeys::Key9),
        ('f', ChipKeys::KeyE),
        ('z', ChipKeys::KeyA),
        ('x', ChipKeys::Key0),
        ('c', ChipKeys::KeyB),
        ('v', ChipKeys::KeyF),
    ];
    for (character, key) in layout {
        assert_eq!(ChipKeys::from_key_press(KeyPress::Char(character)), Some(key));
    }
    assert_eq!(ChipKeys::from_key_press(KeyPress::Esc), Some(ChipKeys::ESC));
}

#[test]
fn other_host_keys_stand_for_no_key() {
    for character in ['0', '5', '9', 'Q', 'X', 'b', 'g', ' ', '\n', 'é'] {
        assert_eq!(ChipKeys::from_key_press(KeyPress::Char(character)), None);
    }
}

#[test]
fn new_keyboard_has_no_key_down() {
    let keyboard = Keyboard::new();
    assert_eq!(keyboard.keys, [false; 17]);
    assert!(keyboard.get_active_inputs().is_empty());
    for key in ALL_KEYS {
        assert!(!keyboard.is_key_pressed(key));
    }
    assert_eq!(Keyboard::default().keys, [false; 17]);
}

#[test]
fn press_sets_one_flag() {
    for key in ALL_KEYS {
        let mut keyboard = Keyboard::new();
        keyboard.press(key);
        assert_eq!(keyboard.get_active_inputs(), vec![key]);
        for other in ALL_KEYS {
            assert_eq!(keyboard.is_key_pressed(other), other == key);
        }
    }
}

#[test]
fn press_keeps_the_keys_that_are_down() {
    let mut keyboard = Keyboard::new();
    keyboard.press(ChipKeys::Key7);
    keyboard.press(ChipKeys::Key7);
    keyboard.press(ChipKeys::Key2);
    assert_eq!(keyboard.get_active_inputs(), vec![ChipKeys::Key2, ChipKeys::Key7]);
}

#[test]
fn active_inputs_come_in_keypad_order() {
    let mut keyboard = Keyboard::new();
    keyboard.press(ChipKeys::ESC);
    keyboard.press(ChipKeys::KeyF);
    keyboard.press(ChipKeys::Key0);
    keyboard.press(ChipKeys::Key9);
    assert_eq!(
        keyboard.get_active_inputs(),
        vec![ChipKeys::Key0, ChipKeys::Key9, ChipKeys::KeyF, ChipKeys::ESC]
    );
    let mut all = Keyboard::new();
    for key in ALL_KEYS.iter().rev() {
        all.press(*key);
    }
    assert_eq!(all.get_active_inputs(), ALL_KEYS.to_vec());
}

#[test]
fn clear_lets_every_key_up() {
    let mut keyboard = Keyboard::new();
    for key in ALL_KEYS {
        keyboard.press(key);
    }
    keyboard.clear();
    assert_eq!(keyboard.keys, [false; 17]);
    assert!(keyboard.get_active_inputs().is_empty());
}

#[test]
fn is_pressed_by_hex_value() {
    let mut keyboard = Keyboard::new();
    keyboard.press(ChipKeys::KeyB);
    keyboard.press(ChipKeys::ESC);
    for value in 0..=255u8 {
        assert_eq!(keyboard.is_pressed(value), value == 0xB);
    }
    // the exit key has no hex value of its own
    assert!(!keyboard.is_pressed(16));
    assert!(!keyboard.is_pressed(0));
    assert!(keyboard.is_key_pressed(ChipKeys::ESC));
}

#[test]
fn update_replaces_the_whole_state() {
    let mut keyboard = Keyboard::new();
    keyboard.press(ChipKeys::Key1);
    keyboard.press(ChipKeys::Key2);
    assert!(keyboard.update(Some(KeyPress::Char('w'))));
    assert_eq!(keyboard.get_active_inputs(), vec![ChipKeys::Key5]);
    assert!(keyboard.update(Some(KeyPress::Esc)));
    assert_eq!(keyboard.get_active_inputs(), vec![ChipKeys::ESC]);
    assert!(keyboard.update(Some(KeyPress::Char('4'))));
    assert_eq!(keyboard.get_active_inputs(), vec![ChipKeys::KeyC]);
}

#[test]
fn update_without_a_known_key_clears() {
    let mut keyboard = Keyboard::new();
    keyboard.press(ChipKeys::Key1);
    assert!(!keyboard.update(None));
    assert!(keyboard.get_active_inputs().is_empty());
    keyboard.press(ChipKeys::Key1);
    assert!(!keyboard.update(Some(KeyPress::Char('p'))));
    assert!(keyboard.get_active_inputs().is_empty());
}

#[test]
fn crossterm_input_starts_with_no_key_down() {
    let input = CrosstermInput::new(25);
    assert_eq!(input.poll_timeout_millis, 25);
    assert!(input.get_active_inputs().is_empty());
    assert_eq!(input.keyboard.keys, [false; 17]);
}

#[test]
fn crossterm_input_takes_one_key_per_poll() {
    let mut input = CrosstermInput::new(0);
    input.update(Some(KeyPress::Char('x')));
    assert_eq!(input.get_active_inputs(), vec![ChipKeys::Key0]);
    input.update(Some(KeyPress::Char('v')));
    assert_eq!(input.get_active_inputs(), vec![ChipKeys::KeyF]);
    input.update(Some(KeyPress::Char('?')));
    assert!(input.get_active_inputs().is_empty());
    input.update(Some(KeyPress::Esc));
    assert_eq!(input.get_active_inputs(), vec![ChipKeys::ESC]);
    input.update(None);
    assert!(input.get_active_inputs().is_empty());
    assert_eq!(input.poll_timeout_millis, 0);
}
