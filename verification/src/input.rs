use vstd::prelude::*;
use crate::machine::Chip8;

verus! {

/// A key stroke as the terminal reports it.
#[derive(Copy, Clone, Debug, PartialEq, Eq, Structural)]
pub enum KeyEvent {
    Backspace,
    Left,
    Right,
    Up,
    Down,
    Home,
    End,
    PageUp,
    PageDown,
    BackTab,
    Delete,
    Insert,
    F(u8),
    Char(char),
    Alt(char),
    Ctrl(char),
    Null,
    Esc,
}

/// What the terminal delivered at the last poll. Only key strokes carry
/// data that the interpreter reads.
#[derive(Copy, Clone, Debug, PartialEq, Eq, Structural)]
pub enum InputEvent {
    Key(KeyEvent),
    Mouse,
    Unsupported,
}

/// The most recent input event, as the instructions that read the keypad
/// see it.
pub struct InputHandler {
    pub last_input: Option<InputEvent>,
}

/// The character that stands for each keypad button on the host keyboard,
/// indexed by the button's value.
pub open spec fn keypad_layout() -> Seq<char> {
    seq![
        'x', '&', '\u{e9}', '"',
        'a', 'z', 'e', 'q',
        's', 'd', 'w', 'c',
        '\'', 'r', 'f', 'v',
    ]
}

/// The host key of a keypad button, for the sixteen buttons.
pub open spec fn key_of_code(code: u8) -> Option<KeyEvent> {
    if code < 16 {
        Some(KeyEvent::Char(keypad_layout()[code as int]))
    } else {
        None
    }
}

/// True if `code` is a keypad button and `key` is its host key.
pub open spec fn is_key_of(key: KeyEvent, code: u8) -> bool {
    key_of_code(code) == Some(key)
}

/// The keypad button that a host key stands for, if it stands for one.
pub open spec fn code_of_key(key: KeyEvent) -> Option<u8> {
    if exists|code: u8| is_key_of(key, code) {
        Some(choose|code: u8| is_key_of(key, code))
    } else {
        None
    }
}

/// No two keypad buttons share a host key.
pub proof fn lemma_keypad_layout_injective(a: u8, b: u8)
    requires
        a < 16,
        b < 16,
        keypad_layout()[a as int] == keypad_layout()[b as int],
    ensures
        a == b,
{
}

/// Looking up the host key of a button and then the button of that key
/// gives the button back.
pub proof fn lemma_code_of_key_of_code(code: u8)
    requires
        code < 16,
    ensures
        code_of_key(key_of_code(code).unwrap()) == Some(code),
{
    let key = key_of_code(code).unwrap();
    assert(is_key_of(key, code));
    let found = choose|c: u8| is_key_of(key, c);
    lemma_keypad_layout_injective(found, code);
}

/// Looking up the button of a host key and then the host key of that button
/// gives the key back.
pub proof fn lemma_key_of_code_of_key(key: KeyEvent)
    requires
        code_of_key(key) is Some,
    ensures
        key_of_code(code_of_key(key).unwrap()) == Some(key),
{
}

impl Chip8 {
    /// The host key that stands for keypad button `code`.
    pub fn kkey_from_code(code: u8) -> (res: Option<KeyEvent>)
        ensures
            res == key_of_code(code),
    {
        match code {
            0x1 => Some(KeyEvent::Char('&')),
            0x2 => Some(KeyEvent::Char('\u{e9}')),
            0x3 => Some(KeyEvent::Char('"')),
            0xC => Some(KeyEvent::Char('\'')),
            0x4 => Some(KeyEvent::Char('a')),
            0x5 => Some(KeyEvent::Char('z')),
            0x6 => Some(KeyEvent::Char('e')),
            0xD => Some(KeyEvent::Char('r')),
            0x7 => Some(KeyEvent::Char('q')),
            0x8 => Some(KeyEvent::Char('s')),
            0x9 => Some(KeyEvent::Char('d')),
            0xE => Some(KeyEvent::Char('f')),
            0xA => Some(KeyEvent::Char('w')),
            0x0 => Some(KeyEvent::Char('x')),
            0xB => Some(KeyEvent::Char('c')),
            0xF => Some(KeyEvent::Char('v')),
            _ => None,
        }
    }

    /// The keypad button that host key `key` stands for.
    pub fn code_from_kkey(key: KeyEvent) -> (res: Option<u8>)
        ensures
            res == code_of_key(key),
    {
        let res: Option<u8> = match key {
            KeyEvent::Char('&') => Some(0x1),
            KeyEvent::Char('\u{e9}') => Some(0x2),
            KeyEvent::Char('"') => Some(0x3),
            KeyEvent::Char('\'') => Some(0xC),
            KeyEvent::Char('a') => Some(0x4),
            KeyEvent::Char('z') => Some(0x5),
            KeyEvent::Char('e') => Some(0x6),
            KeyEvent::Char('r') => Some(0xD),
            KeyEvent::Char('q') => Some(0x7),
            KeyEvent::Char('s') => Some(0x8),
            KeyEvent::Char('d') => Some(0x9),
            KeyEvent::Char('f') => Some(0xE),
            KeyEvent::Char('w') => Some(0xA),
            KeyEvent::Char('x') => Some(0x0),
            KeyEvent::Char('c') => Some(0xB),
            KeyEvent::Char('v') => Some(0xF),
            _ => None,
        };
        proof {
            match res {
                Some(code) => {
                    assert(is_key_of(key, code));
                    let found = choose|c: u8| is_key_of(key, c);
                    lemma_keypad_layout_injective(found, code);
                },
                None => {
                    assert forall|c: u8| !is_key_of(key, c) by {}
                },
            }
        }
        res
    }
}

impl InputHandler {
    /// A handler that has seen no event yet.
    pub fn new() -> (res: InputHandler)
        ensures
            res.last_input is None,
    {
        InputHandler { last_input: None }
    }

    /// Records the outcome of the latest poll of the terminal, replacing the
    /// previous one.
    pub fn update(&mut self, event: Option<InputEvent>)
        ensures
            final(self).last_input == event,
    {
        self.last_input = event;
    }

    /// True if the last event is the stroke Ctrl+C.
    pub fn should_quit(&self) -> (res: bool)
        ensures
            res == (self.last_input == Some(InputEvent::Key(KeyEvent::Ctrl('c')))),
    {
        self.is_key_down(KeyEvent::Ctrl('c'))
    }

    /// True if the last event is a stroke of `key`.
    pub fn is_key_down(&self, key: KeyEvent) -> (res: bool)
        ensures
            res == (self.last_input == Some(InputEvent::Key(key))),
    {
        match self.last_input {
            Some(InputEvent::Key(last)) => last == key,
            _ => false,
        }
    }

    /// True if the last event is anything but a stroke of `key`.
    pub fn is_key_up(&self, key: KeyEvent) -> (res: bool)
        ensures
            res == (self.last_input != Some(InputEvent::Key(key))),
    {
        !self.is_key_down(key)
    }

    /// The keypad button of the last event, if that event is a stroke of a
    /// key that stands for one.
    pub fn any_key_pressed(&self) -> (res: Option<u8>)
        ensures
            res == self.pressed_code(),
    {
        if let Some(InputEvent::Key(key)) = self.last_input {
            return Chip8::code_from_kkey(key);
        }
        return None;
    }

    /// The keypad button that the last event pressed, if any.
    pub open spec fn pressed_code(&self) -> Option<u8> {
        match self.last_input {
            Some(InputEvent::Key(key)) => code_of_key(key),
            _ => None,
        }
    }
}

} // verus!
