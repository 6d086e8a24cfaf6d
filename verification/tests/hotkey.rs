use eee::hotkey::{hotkey_held, next_key};

const DOWN: i16 = -32768;

/// Asks for the keys of a keyboard, given as E, Ctrl, Alt, Shift.
fn ask(keyboard: [i16; 4]) -> (Vec<i32>, bool) {
    let mut asked = Vec::new();
    let mut states = Vec::new();
    while let Some(key) = next_key(&states) {
        asked.push(key);
        states.push(match key {
            0x45 => keyboard[0],
            0x11 => keyboard[1],
            0x12 => keyboard[2],
            0x10 => keyboard[3],
            other => panic!("{}", other),
        });
    }
    (asked, hotkey_held(&states))
}

#[test]
fn all_keys_down_are_the_hotkey() {
    assert_eq!(ask([DOWN, DOWN, DOWN, DOWN]), (vec![0x45, 0x11, 0x12, 0x10], true));
    assert_eq!(ask([-1, -1, -32767, DOWN]), (vec![0x45, 0x11, 0x12, 0x10], true));
}

#[test]
fn asking_stops_at_the_first_key_that_is_up() {
    assert_eq!(ask([0, DOWN, DOWN, DOWN]), (vec![0x45], false));
    assert_eq!(ask([DOWN, 0, DOWN, DOWN]), (vec![0x45, 0x11], false));
    assert_eq!(ask([DOWN, DOWN, 0, DOWN]), (vec![0x45, 0x11, 0x12], false));
    assert_eq!(ask([DOWN, DOWN, DOWN, 0]), (vec![0x45, 0x11, 0x12, 0x10], false));
}

#[test]
fn a_key_pressed_since_the_last_look_is_not_down() {
    assert_eq!(ask([1, DOWN, DOWN, DOWN]), (vec![0x45], false));
    assert_eq!(ask([DOWN, DOWN, DOWN, 1]).1, false);
}

#[test]
fn every_keyboard_is_settled() {
    for bits in 0..16u8 {
        let key = |i: u8| if bits & (1 << i) != 0 { DOWN } else { 0 };
        assert_eq!(ask([key(0), key(1), key(2), key(3)]).1, bits == 15);
    }
}

#[test]
fn keys_not_asked_for_show_nothing() {
    assert!(!hotkey_held(&vec![]));
    assert!(!hotkey_held(&vec![DOWN, DOWN, DOWN]));
}
