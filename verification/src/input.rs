//! Turning key presses into the three things a session can be told to do.

use vstd::prelude::*;

verus! {

/// A key on the keyboard, as the terminal reports it.
#[derive(Clone, Copy, Debug, PartialEq, Eq, Structural)]
pub enum KeyCode {
    Backspace,
    Enter,
    Left,
    Right,
    Up,
    Down,
    Home,
    End,
    PageUp,
    PageDown,
    Tab,
    BackTab,
    Delete,
    Insert,
    /// A function key, by number.
    F(u8),
    /// A key that types a character.
    Char(char),
    Null,
    Esc,
    CapsLock,
    ScrollLock,
    NumLock,
    PrintScreen,
    Pause,
    Menu,
    KeypadBegin,
    /// A media key, such as play or mute.
    Media,
    /// A modifier key pressed on its own.
    Modifier,
}

/// The modifier keys held with a key.
#[derive(Clone, Copy, Debug, PartialEq, Eq, Structural)]
pub struct KeyModifiers {
    pub shift: bool,
    pub control: bool,
    pub alt: bool,
    pub super_key: bool,
    pub hyper: bool,
    pub meta: bool,
}

impl KeyModifiers {
    /// No modifier held.
    pub fn none() -> (held: KeyModifiers)
        ensures
            held.shift == false,
            held.control == false,
            held.alt == false,
            held.super_key == false,
            held.hyper == false,
            held.meta == false,
    {
        KeyModifiers {
            shift: false,
            control: false,
            alt: false,
            super_key: false,
            hyper: false,
            meta: false,
        }
    }

    /// Shift held.
    pub fn shift() -> (held: KeyModifiers)
        ensures
            held.shift == true,
            held.control == false,
            held.alt == false,
            held.super_key == false,
            held.hyper == false,
            held.meta == false,
    {
        KeyModifiers {
            shift: true,
            control: false,
            alt: false,
            super_key: false,
            hyper: false,
            meta: false,
        }
    }

    /// Control held.
    pub fn control() -> (held: KeyModifiers)
        ensures
            held.shift == false,
            held.control == true,
            held.alt == false,
            held.super_key == false,
            held.hyper == false,
            held.meta == false,
    {
        KeyModifiers {
            shift: false,
            control: true,
            alt: false,
            super_key: false,
            hyper: false,
            meta: false,
        }
    }

    /// Alt held.
    pub fn alt() -> (held: KeyModifiers)
        ensures
            held.shift == false,
            held.control == false,
            held.alt == true,
            held.super_key == false,
            held.hyper == false,
            held.meta == false,
    {
        KeyModifiers {
            shift: false,
            control: false,
            alt: true,
            super_key: false,
            hyper: false,
            meta: false,
        }
    }

    /// Returns the modifiers held in either set.
    pub fn union(self, other: KeyModifiers) -> (both: KeyModifiers)
        ensures
            both.shift == (self.shift || other.shift),
            both.control == (self.control || other.control),
            both.alt == (self.alt || other.alt),
            both.super_key == (self.super_key || other.super_key),
            both.hyper == (self.hyper || other.hyper),
            both.meta == (self.meta || other.meta),
    {
        KeyModifiers {
            shift: self.shift || other.shift,
            control: self.control || other.control,
            alt: self.alt || other.alt,
            super_key: self.super_key || other.super_key,
            hyper: self.hyper || other.hyper,
            meta: self.meta || other.meta,
        }
    }
}

/// A key press: the key and the modifiers held with it.
#[derive(Clone, Copy, Debug, PartialEq, Eq, Structural)]
pub struct KeyEvent {
    pub code: KeyCode,
    pub modifiers: KeyModifiers,
}

impl KeyEvent {
    /// Returns a press of `code` with `modifiers` held.
    pub fn new(code: KeyCode, modifiers: KeyModifiers) -> (key: KeyEvent)
        ensures
            key.code == code,
            key.modifiers == modifiers,
    {
        KeyEvent { code, modifiers }
    }
}

/// Something the user asked of a running session.
#[derive(Clone, Copy, Debug, PartialEq, Eq, Structural)]
pub enum Command {
    /// Leave, printing the summary.
    Quit,
    /// Stop or restart the clock where it stands.
    Pause,
    /// Treat the current phase as over, without notifying.
    Skip,
}

/// What a key asks of the session: Ctrl-C quits whatever else is held; any
/// other key with Control or Alt held is left alone; otherwise `q` quits, the
/// space bar pauses and `s` skips, in either case.
pub open spec fn command_for(key: KeyEvent) -> Option<Command> {
    let control = key.modifiers.control;
    if control && (key.code == KeyCode::Char('c') || key.code == KeyCode::Char('C')) {
        Some(Command::Quit)
    } else if control || key.modifiers.alt {
        None
    } else if key.code == KeyCode::Char('q') || key.code == KeyCode::Char('Q') {
        Some(Command::Quit)
    } else if key.code == KeyCode::Char(' ') {
        Some(Command::Pause)
    } else if key.code == KeyCode::Char('s') || key.code == KeyCode::Char('S') {
        Some(Command::Skip)
    } else {
        None
    }
}

impl Command {
    /// Reads a key as a command, or as nothing.
    ///
    /// Raw mode delivers Ctrl-C as a key rather than as a signal, so quitting
    /// on it here is what keeps the habit working; without this the terminal
    /// would only be restored by `q`.
    pub fn from_key(key: KeyEvent) -> (command: Option<Self>)
        ensures
            command == command_for(key),
    {
        let control = key.modifiers.control;
        match key.code {
            KeyCode::Char('c') if control => Some(Command::Quit),
            KeyCode::Char('C') if control => Some(Command::Quit),
            // A modified letter is someone else's shortcut, not ours.
            _ if control || key.modifiers.alt => None,
            KeyCode::Char('q') | KeyCode::Char('Q') => Some(Command::Quit),
            KeyCode::Char(' ') => Some(Command::Pause),
            KeyCode::Char('s') | KeyCode::Char('S') => Some(Command::Skip),
            _ => None,
        }
    }
}

/// Only Ctrl-C acts while Control is held, and nothing acts while Alt is
/// held, so a shortcut meant for the terminal or the desktop is never read
/// as one of ours; and a key reads the same whether or not Caps Lock is on.
pub proof fn law_shortcuts_are_left_alone(key: KeyEvent, lower: char, upper: char)
    requires
        (lower == 'q' && upper == 'Q') || (lower == 's' && upper == 'S'),
    ensures
        key.modifiers.control ==> (command_for(key) is Some <==> (key.code == KeyCode::Char('c')
            || key.code == KeyCode::Char('C'))),
        key.modifiers.alt && !key.modifiers.control ==> command_for(key) is None,
        command_for(KeyEvent { code: KeyCode::Char(lower), modifiers: key.modifiers })
            == command_for(KeyEvent { code: KeyCode::Char(upper), modifiers: key.modifiers }),
{
}

} // verus!
