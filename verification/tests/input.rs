use kandume::input::{
    ctrl_byte, encode_char, encode_function_key, encode_key, InputAction, InputState, KeyCode,
    KeyEvent, KeyModifiers,
};

fn key(code: KeyCode) -> KeyEvent {
    KeyEvent { code, modifiers: KeyModifiers::empty() }
}

fn ctrl(ch: char) -> KeyEvent {
    KeyEvent { code: KeyCode::Char(ch), modifiers: KeyModifiers { shift: false, control: true, alt: false } }
}

#[test]
fn prefix_then_command() {
    let mut input = InputState::new();
    assert_eq!(input.handle_key(ctrl('b')), InputAction::NoAction);
    assert!(input.is_prefix_active());
    assert_eq!(input.handle_key(key(KeyCode::Char('%'))), InputAction::SplitVertical);
    assert!(!input.is_prefix_active());
}

#[test]
fn every_prefixed_command() {
    let table = [
        ('t', InputAction::NewProject),
        ('c', InputAction::NewWindow),
        ('%', InputAction::SplitVertical),
        ('"', InputAction::SplitHorizontal),
        ('n', InputAction::NextProject),
        ('p', InputAction::PreviousProject),
        (']', InputAction::NextWindow),
        ('[', InputAction::PreviousWindow),
        ('o', InputAction::NextPane),
        (';', InputAction::PreviousPane),
        ('x', InputAction::ClosePane),
        (',', InputAction::StartProjectRename),
        ('.', InputAction::StartWindowRename),
        ('r', InputAction::StartPaneRename),
        ('d', InputAction::SaveAndQuit),
        ('q', InputAction::Quit),
        ('?', InputAction::ToggleHelp),
        ('1', InputAction::SelectProject(0)),
        ('9', InputAction::SelectProject(8)),
        ('0', InputAction::NoAction),
        ('z', InputAction::NoAction),
    ];
    for (ch, action) in table {
        let mut input = InputState::new();
        input.handle_key(ctrl('b'));
        assert_eq!(input.handle_key(key(KeyCode::Char(ch))), action, "key {ch}");
        assert!(!input.is_prefix_active());
    }
}

#[test]
fn prefix_twice_sends_literal_ctrl_b() {
    let mut input = InputState::new();
    input.handle_key(ctrl('b'));
    assert_eq!(input.handle_key(ctrl('b')), InputAction::Send(vec![0x02]));
    assert!(!input.is_prefix_active());
}

#[test]
fn prefix_then_non_character_key_does_nothing() {
    let mut input = InputState::new();
    input.handle_key(ctrl('b'));
    assert_eq!(input.handle_key(key(KeyCode::Enter)), InputAction::NoAction);
    assert_eq!(input.handle_key(key(KeyCode::Enter)), InputAction::Send(vec![b'\r']));
}

#[test]
fn plain_keys_are_sent() {
    let mut input = InputState::new();
    assert_eq!(input.handle_key(key(KeyCode::Char('a'))), InputAction::Send(b"a".to_vec()));
    assert_eq!(input.handle_key(ctrl('c')), InputAction::Send(vec![3]));
    assert_eq!(input.handle_key(key(KeyCode::CapsLock)), InputAction::NoAction);
    assert!(!input.is_prefix_active());
}

#[test]
fn control_bytes() {
    assert_eq!(ctrl_byte('a'), Some(1));
    assert_eq!(ctrl_byte('z'), Some(26));
    assert_eq!(ctrl_byte('A'), Some(1));
    assert_eq!(ctrl_byte('Z'), Some(26));
    assert_eq!(ctrl_byte('['), Some(0x1b));
    assert_eq!(ctrl_byte('\\'), Some(0x1c));
    assert_eq!(ctrl_byte(']'), Some(0x1d));
    assert_eq!(ctrl_byte('^'), Some(0x1e));
    assert_eq!(ctrl_byte('_'), Some(0x1f));
    assert_eq!(ctrl_byte('1'), None);
    assert_eq!(ctrl_byte('é'), None);
}

#[test]
fn ctrl_ignores_case() {
    for ch in 'a'..='z' {
        assert_eq!(ctrl_byte(ch), ctrl_byte(ch.to_ascii_uppercase()));
    }
}

#[test]
fn function_keys() {
    assert_eq!(encode_function_key(1), Some(b"\x1bOP".to_vec()));
    assert_eq!(encode_function_key(4), Some(b"\x1bOS".to_vec()));
    assert_eq!(encode_function_key(5), Some(b"\x1b[15~".to_vec()));
    assert_eq!(encode_function_key(10), Some(b"\x1b[21~".to_vec()));
    assert_eq!(encode_function_key(11), Some(b"\x1b[23~".to_vec()));
    assert_eq!(encode_function_key(12), Some(b"\x1b[24~".to_vec()));
    assert_eq!(encode_function_key(0), None);
    assert_eq!(encode_function_key(13), None);
}

#[test]
fn special_keys() {
    let table: [(KeyCode, &[u8]); 16] = [
        (KeyCode::Enter, b"\r"),
        (KeyCode::Backspace, &[0x7f]),
        (KeyCode::Tab, b"\t"),
        (KeyCode::BackTab, b"\x1b[Z"),
        (KeyCode::Esc, &[0x1b]),
        (KeyCode::Delete, b"\x1b[3~"),
        (KeyCode::Insert, b"\x1b[2~"),
        (KeyCode::Home, b"\x1b[H"),
        (KeyCode::End, b"\x1b[F"),
        (KeyCode::PageUp, b"\x1b[5~"),
        (KeyCode::PageDown, b"\x1b[6~"),
        (KeyCode::Up, b"\x1b[A"),
        (KeyCode::Down, b"\x1b[B"),
        (KeyCode::Right, b"\x1b[C"),
        (KeyCode::Left, b"\x1b[D"),
        (KeyCode::F(7), b"\x1b[18~"),
    ];
    for (code, bytes) in table {
        assert_eq!(encode_key(key(code)), Some(bytes.to_vec()));
    }
    for code in [
        KeyCode::Null,
        KeyCode::CapsLock,
        KeyCode::ScrollLock,
        KeyCode::NumLock,
        KeyCode::PrintScreen,
        KeyCode::Pause,
        KeyCode::Menu,
        KeyCode::KeypadBegin,
        KeyCode::Media,
        KeyCode::Modifier,
    ] {
        assert_eq!(encode_key(key(code)), None);
    }
    assert_eq!(encode_key(ctrl('1')), None);
}

#[test]
fn characters_are_utf8_encoded() {
    for ch in ['a', 'é', 'ß', '€', 'あ', '😀', '\u{7f}', '\u{80}', '\u{7ff}', '\u{800}', '\u{ffff}', '\u{10000}', '\u{10ffff}'] {
        assert_eq!(encode_char(ch), ch.to_string().into_bytes());
        assert_eq!(encode_key(key(KeyCode::Char(ch))), Some(ch.to_string().into_bytes()));
    }
}

#[test]
fn prefix_then_delete_or_shell_edit() {
    let mut input = InputState::new();
    assert_eq!(input.handle_key(ctrl('b')), InputAction::NoAction);
    assert_eq!(input.handle_key(key(KeyCode::Char('D'))), InputAction::DeleteProject);
    assert_eq!(input.handle_key(ctrl('b')), InputAction::NoAction);
    assert_eq!(input.handle_key(key(KeyCode::Char('e'))), InputAction::EditShell);
    assert!(!input.is_prefix_active());
}
