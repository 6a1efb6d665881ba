use pomctl::input::{Command, KeyCode, KeyEvent, KeyModifiers};

fn press(code: KeyCode) -> Option<Command> {
    Command::from_key(KeyEvent::new(code, KeyModifiers::none()))
}

fn press_with(code: KeyCode, modifiers: KeyModifiers) -> Option<Command> {
    Command::from_key(KeyEvent::new(code, modifiers))
}

#[test]
fn the_documented_keys_do_what_the_help_says() {
    assert_eq!(press(KeyCode::Char('q')), Some(Command::Quit));
    assert_eq!(press(KeyCode::Char(' ')), Some(Command::Pause));
    assert_eq!(press(KeyCode::Char('s')), Some(Command::Skip));
}

#[test]
fn caps_lock_does_not_disable_the_controls() {
    assert_eq!(press(KeyCode::Char('Q')), Some(Command::Quit));
    assert_eq!(press(KeyCode::Char('S')), Some(Command::Skip));
}

#[test]
fn control_c_quits_because_raw_mode_swallows_the_signal() {
    assert_eq!(
        press_with(KeyCode::Char('c'), KeyModifiers::control()),
        Some(Command::Quit)
    );
    assert_eq!(
        press_with(
            KeyCode::Char('C'),
            KeyModifiers::control().union(KeyModifiers::shift())
        ),
        Some(Command::Quit)
    );
}

#[test]
fn a_plain_c_keeps_running() {
    assert_eq!(press(KeyCode::Char('c')), None);
}

#[test]
fn a_shortcut_meant_for_something_else_is_left_alone() {
    // Ctrl-S is flow control and Alt-S a menu key on many terminals;
    // reading either as skip would throw away a phase the user is in.
    assert_eq!(press_with(KeyCode::Char('s'), KeyModifiers::control()), None);
    assert_eq!(press_with(KeyCode::Char('s'), KeyModifiers::alt()), None);
    assert_eq!(press_with(KeyCode::Char('q'), KeyModifiers::alt()), None);
}

#[test]
fn an_unbound_key_is_ignored_rather_than_guessed_at() {
    for code in [
        KeyCode::Enter,
        KeyCode::Esc,
        KeyCode::Up,
        KeyCode::Backspace,
        KeyCode::Char('p'),
    ] {
        assert_eq!(press(code), None, "{code:?} is not a control");
    }
}

#[test]
fn shift_alone_does_not_stop_a_key_working() {
    assert_eq!(
        press_with(KeyCode::Char('Q'), KeyModifiers::shift()),
        Some(Command::Quit)
    );
    assert_eq!(
        press_with(KeyCode::Char('c'), KeyModifiers::alt().union(KeyModifiers::control())),
        Some(Command::Quit)
    );
}
