use chip8::{Chip8, InputEvent, InputHandler, KeyEvent};

const LAYOUT: [char; 16] = [
    'x', '&', 'é', '"', 'a', 'z', 'e', 'q', 's', 'd', 'w', 'c', '\'', 'r', 'f', 'v',
];

#[test]
fn every_button_has_its_host_key() {
    for code in 0..16u8 {
        assert_eq!(
            Chip8::kkey_from_code(code),
            Some(KeyEvent::Char(LAYOUT[code as usize]))
        );
    }
    assert_eq!(Chip8::kkey_from_code(16), None);
    assert_eq!(Chip8::kkey_from_code(255), None);
}

#[test]
fn every_host_key_has_its_button() {
    for code in 0..16u8 {
        assert_eq!(
            Chip8::code_from_kkey(KeyEvent::Char(LAYOUT[code as usize])),
            Some(code)
        );
    }
    assert_eq!(Chip8::code_from_kkey(KeyEvent::Char('p')), None);
    assert_eq!(Chip8::code_from_kkey(KeyEvent::Char('X')), None);
    assert_eq!(Chip8::code_from_kkey(KeyEvent::Ctrl('a')), None);
    assert_eq!(Chip8::code_from_kkey(KeyEvent::Alt('a')), None);
    assert_eq!(Chip8::code_from_kkey(KeyEvent::Esc), None);
    assert_eq!(Chip8::code_from_kkey(KeyEvent::F(1)), None);
}

#[test]
fn the_two_key_tables_are_inverse() {
    for code in 0..=255u8 {
        if let Some(key) = Chip8::kkey_from_code(code) {
            assert_eq!(Chip8::code_from_kkey(key), Some(code));
        }
    }
    for c in (0..0x250u32).filter_map(char::from_u32) {
        if let Some(code) = Chip8::code_from_kkey(KeyEvent::Char(c)) {
            assert_eq!(Chip8::kkey_from_code(code), Some(KeyEvent::Char(c)));
        }
    }
}

#[test]
fn a_new_handler_has_seen_nothing() {
    let input = InputHandler::new();
    assert_eq!(input.last_input, None);
    assert!(!input.should_quit());
    assert!(!input.is_key_down(KeyEvent::Char('a')));
    assert!(input.is_key_up(KeyEvent::Char('a')));
    assert_eq!(input.any_key_pressed(), None);
}

#[test]
fn update_replaces_the_last_event() {
    let mut input = InputHandler::new();
    input.update(Some(InputEvent::Key(KeyEvent::Char('a'))));
    assert_eq!(input.last_input, Some(InputEvent::Key(KeyEvent::Char('a'))));
    assert!(input.is_key_down(KeyEvent::Char('a')));
    assert!(!input.is_key_up(KeyEvent::Char('a')));
    assert!(!input.is_key_down(KeyEvent::Char('z')));
    assert!(input.is_key_up(KeyEvent::Char('z')));
    assert!(!input.is_key_down(KeyEvent::Ctrl('a')));
    assert_eq!(input.any_key_pressed(), Some(0x4));

    input.update(None);
    assert_eq!(input.last_input, None);
    assert!(input.is_key_up(KeyEvent::Char('a')));
    assert_eq!(input.any_key_pressed(), None);
}

#[test]
fn only_ctrl_c_quits() {
    let mut input = InputHandler::new();
    input.update(Some(InputEvent::Key(KeyEvent::Ctrl('c'))));
    assert!(input.should_quit());
    assert_eq!(input.any_key_pressed(), None);
    input.update(Some(InputEvent::Key(KeyEvent::Char('c'))));
    assert!(!input.should_quit());
    assert_eq!(input.any_key_pressed(), Some(0xB));
    input.update(Some(InputEvent::Key(KeyEvent::Ctrl('d'))));
    assert!(!input.should_quit());
    input.update(Some(InputEvent::Mouse));
    assert!(!input.should_quit());
}

#[test]
fn events_that_are_no_key_strokes_press_nothing() {
    let mut input = InputHandler::new();
    input.update(Some(InputEvent::Mouse));
    assert_eq!(input.any_key_pressed(), None);
    assert!(input.is_key_up(KeyEvent::Char('a')));
    input.update(Some(InputEvent::Unsupported));
    assert_eq!(input.any_key_pressed(), None);
    input.update(Some(InputEvent::Key(KeyEvent::Char('p'))));
    assert_eq!(input.any_key_pressed(), None);
}
