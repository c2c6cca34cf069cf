use chip8::Keyboard;

#[test]
fn new_keyboard_has_no_key_pressed() {
    let k = Keyboard::new();
    for key in 0..16 {
        assert!(!k.is_key_pressed(key));
    }
    assert_eq!(k.get_pressed_key(), None);
}

#[test]
fn set_press_and_release() {
    let mut k = Keyboard::new();
    k.set(5, true);
    assert!(k.is_key_pressed(5));
    assert!(!k.is_key_pressed(4));
    k.set(5, false);
    assert!(!k.is_key_pressed(5));
}

#[test]
fn get_pressed_key_returns_lowest_index() {
    let mut k = Keyboard::new();
    k.set(9, true);
    k.set(3, true);
    assert_eq!(k.get_pressed_key(), Some(3));
    k.set(3, false);
    assert_eq!(k.get_pressed_key(), Some(9));
}

#[test]
fn map_key_follows_hex_keypad_layout() {
    let hosts = ['1', '2', '3', '4', 'q', 'w', 'e', 'r', 'a', 's', 'd', 'f', 'z', 'x', 'c', 'v'];
    for (device, host) in hosts.iter().enumerate() {
        assert_eq!(Keyboard::map_key(*host), device);
    }
}

#[test]
fn map_key_unmapped_host_key_yields_zero() {
    assert_eq!(Keyboard::map_key('p'), 0);
    assert_eq!(Keyboard::map_key(' '), 0);
}
