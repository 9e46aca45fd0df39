use chip8::keypad::{Keypad, Keystate, KEY_COUNT};

#[test]
fn no_key_of_a_new_pad_is_pressed() {
    let pad = Keypad::new();
    for key in 0..KEY_COUNT {
        assert_eq!(pad.get_key_state(key), Keystate::Released);
    }
}

#[test]
fn a_key_keeps_the_state_it_was_given() {
    let mut pad = Keypad::new();
    pad.set_key_state(0, Keystate::Pressed);
    pad.set_key_state(15, Keystate::Pressed);
    for key in 0..KEY_COUNT {
        let expected = if key == 0 || key == 15 { Keystate::Pressed } else { Keystate::Released };
        assert_eq!(pad.get_key_state(key), expected);
    }
    pad.set_key_state(0, Keystate::Released);
    assert_eq!(pad.get_key_state(0), Keystate::Released);
    assert_eq!(pad.get_key_state(15), Keystate::Pressed);
}

#[test]
fn pressing_a_pressed_key_changes_nothing() {
    let mut pad = Keypad::new();
    pad.set_key_state(7, Keystate::Pressed);
    pad.set_key_state(7, Keystate::Pressed);
    assert_eq!(pad.get_key_state(7), Keystate::Pressed);
    assert_eq!(pad.get_key_state(6), Keystate::Released);
    assert_eq!(pad.get_key_state(8), Keystate::Released);
}
