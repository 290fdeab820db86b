//! Keys: the `Ctrl-b` prefix layer that turns a second key into a command,
//! and the bytes that any other key sends to the shell.
use vstd::prelude::*;
use vstd::utf8::encode_scalar;

verus! {

/// A key, as the terminal reports it.
#[derive(Debug, Clone, Copy, PartialEq, Eq)]
pub enum KeyCode {
    Backspace,
    Enter,
    Left,
    Right,
    Up,
    Down,
    Home,
    End,
    PageUp,
    PageDown,
    Tab,
    BackTab,
    Delete,
    Insert,
    F(u8),
    Char(char),
    Null,
    Esc,
    CapsLock,
    ScrollLock,
    NumLock,
    PrintScreen,
    Pause,
    Menu,
    KeypadBegin,
    Media,
    Modifier,
}

/// The modifier keys held with a key or a mouse event.
#[derive(Debug, Clone, Copy, PartialEq, Eq)]
pub struct KeyModifiers {
    pub shift: bool,
    pub control: bool,
    pub alt: bool,
}

impl KeyModifiers {
    /// No modifier held.
    pub fn empty() -> (r: KeyModifiers)
        ensures
            !r.shift && !r.control && !r.alt,
    {
        KeyModifiers { shift: false, control: false, alt: false }
    }
}

/// A key press with its modifiers.
#[derive(Debug, Clone, Copy, PartialEq, Eq)]
pub struct KeyEvent {
    pub code: KeyCode,
    pub modifiers: KeyModifiers,
}

/// What a key press asks for.
#[derive(Debug, Clone, PartialEq, Eq)]
pub enum InputAction {
    Send(Vec<u8>),
    NewProject,
    NewWindow,
    SplitVertical,
    SplitHorizontal,
    NextProject,
    PreviousProject,
    SelectProject(usize),
    NextWindow,
    PreviousWindow,
    NextPane,
    PreviousPane,
    ClosePane,
    StartProjectRename,
    StartWindowRename,
    StartPaneRename,
    DeleteProject,
    EditShell,
    SaveAndQuit,
    Quit,
    ToggleHelp,
    NoAction,
}

/// An `InputAction` as a value for specifications.
pub enum ActionView {
    Send(Seq<u8>),
    NewProject,
    NewWindow,
    SplitVertical,
    SplitHorizontal,
    NextProject,
    PreviousProject,
    SelectProject(usize),
    NextWindow,
    PreviousWindow,
    NextPane,
    PreviousPane,
    ClosePane,
    StartProjectRename,
    StartWindowRename,
    StartPaneRename,
    DeleteProject,
    EditShell,
    SaveAndQuit,
    Quit,
    ToggleHelp,
    NoAction,
}

impl View for InputAction {
    type V = ActionView;

    open spec fn view(&self) -> ActionView {
        match self {
            InputAction::Send(bytes) => ActionView::Send(bytes@),
            InputAction::NewProject => ActionView::NewProject,
            InputAction::NewWindow => ActionView::NewWindow,
            InputAction::SplitVertical => ActionView::SplitVertical,
            InputAction::SplitHorizontal => ActionView::SplitHorizontal,
            InputAction::NextProject => ActionView::NextProject,
            InputAction::PreviousProject => ActionView::PreviousProject,
            InputAction::SelectProject(i) => ActionView::SelectProject(*i),
            InputAction::NextWindow => ActionView::NextWindow,
            InputAction::PreviousWindow => ActionView::PreviousWindow,
            InputAction::NextPane => ActionView::NextPane,
            InputAction::PreviousPane => ActionView::PreviousPane,
            InputAction::ClosePane => ActionView::ClosePane,
            InputAction::StartProjectRename => ActionView::StartProjectRename,
            InputAction::StartWindowRename => ActionView::StartWindowRename,
            InputAction::StartPaneRename => ActionView::StartPaneRename,
            InputAction::DeleteProject => ActionView::DeleteProject,
            InputAction::EditShell => ActionView::EditShell,
            InputAction::SaveAndQuit => ActionView::SaveAndQuit,
            InputAction::Quit => ActionView::Quit,
            InputAction::ToggleHelp => ActionView::ToggleHelp,
            InputAction::NoAction => ActionView::NoAction,
        }
    }
}

/// The control byte that `Ctrl` with `ch` sends: `1..=26` for the letters
/// of either case, `0x1b..=0x1f` for `[ \ ] ^ _`, none for anything else.
pub open spec fn spec_ctrl_byte(ch: char) -> Option<u8> {
    if 'a' <= ch && ch <= 'z' {
        Some(((ch as u32) - ('a' as u32) + 1) as u8)
    } else if 'A' <= ch && ch <= 'Z' {
        Some(((ch as u32) - ('A' as u32) + 1) as u8)
    } else if ch == '[' {
        Some(0x1b)
    } else if ch == '\\' {
        Some(0x1c)
    } else if ch == ']' {
        Some(0x1d)
    } else if ch == '^' {
        Some(0x1e)
    } else if ch == '_' {
        Some(0x1f)
    } else {
        None
    }
}

/// The control byte that `Ctrl` with `ch` sends.
pub fn ctrl_byte(ch: char) -> (r: Option<u8>)
    ensures
        r == spec_ctrl_byte(ch),
{
    if 'a' <= ch && ch <= 'z' {
        Some(((ch as u32) - ('a' as u32) + 1) as u8)
    } else if 'A' <= ch && ch <= 'Z' {
        Some(((ch as u32) - ('A' as u32) + 1) as u8)
    } else if ch == '[' {
        Some(0x1b)
    } else if ch == '\\' {
        Some(0x1c)
    } else if ch == ']' {
        Some(0x1d)
    } else if ch == '^' {
        Some(0x1e)
    } else if ch == '_' {
        Some(0x1f)
    } else {
        None
    }
}

/// The escape sequence of the function key `F(n)`, for `n` in `1..=12`.
pub open spec fn spec_function_key(n: u8) -> Option<Seq<u8>> {
    if n == 1 {
        Some(seq![0x1bu8, 0x4f, 0x50])
    } else if n == 2 {
        Some(seq![0x1bu8, 0x4f, 0x51])
    } else if n == 3 {
        Some(seq![0x1bu8, 0x4f, 0x52])
    } else if n == 4 {
        Some(seq![0x1bu8, 0x4f, 0x53])
    } else if n == 5 {
        Some(seq![0x1bu8, 0x5b, 0x31, 0x35, 0x7e])
    } else if n == 6 {
        Some(seq![0x1bu8, 0x5b, 0x31, 0x37, 0x7e])
    } else if n == 7 {
        Some(seq![0x1bu8, 0x5b, 0x31, 0x38, 0x7e])
    } else if n == 8 {
        Some(seq![0x1bu8, 0x5b, 0x31, 0x39, 0x7e])
    } else if n == 9 {
        Some(seq![0x1bu8, 0x5b, 0x32, 0x30, 0x7e])
    } else if n == 10 {
        Some(seq![0x1bu8, 0x5b, 0x32, 0x31, 0x7e])
    } else if n == 11 {
        Some(seq![0x1bu8, 0x5b, 0x32, 0x33, 0x7e])
    } else if n == 12 {
        Some(seq![0x1bu8, 0x5b, 0x32, 0x34, 0x7e])
    } else {
        None
    }
}

/// `ESC O` followed by `last`.
fn ss3(last: u8) -> (r: Vec<u8>)
    ensures
        r@ == seq![0x1bu8, 0x4f, last],
{
    let v = vec![0x1bu8, 0x4f, last];
    assert(v@ =~= seq![0x1bu8, 0x4f, last]);
    v
}

/// `ESC [ a b ~`.
fn csi_tilde2(a: u8, b: u8) -> (r: Vec<u8>)
    ensures
        r@ == seq![0x1bu8, 0x5b, a, b, 0x7e],
{
    let v = vec![0x1bu8, 0x5b, a, b, 0x7e];
    assert(v@ =~= seq![0x1bu8, 0x5b, a, b, 0x7e]);
    v
}

/// The escape sequence of the function key `F(n)`.
pub fn encode_function_key(n: u8) -> (r: Option<Vec<u8>>)
    ensures
        match spec_function_key(n) {
            Some(s) => r matches Some(v) && v@ == s,
            None => r is None,
        },
{
    if n == 1 {
        Some(ss3(0x50))
    } else if n == 2 {
        Some(ss3(0x51))
    } else if n == 3 {
        Some(ss3(0x52))
    } else if n == 4 {
        Some(ss3(0x53))
    } else if n == 5 {
        Some(csi_tilde2(0x31, 0x35))
    } else if n == 6 {
        Some(csi_tilde2(0x31, 0x37))
    } else if n == 7 {
        Some(csi_tilde2(0x31, 0x38))
    } else if n == 8 {
        Some(csi_tilde2(0x31, 0x39))
    } else if n == 9 {
        Some(csi_tilde2(0x32, 0x30))
    } else if n == 10 {
        Some(csi_tilde2(0x32, 0x31))
    } else if n == 11 {
        Some(csi_tilde2(0x32, 0x33))
    } else if n == 12 {
        Some(csi_tilde2(0x32, 0x34))
    } else {
        None
    }
}

/// The UTF-8 encoding of `ch`.
pub fn encode_char(ch: char) -> (r: Vec<u8>)
    ensures
        r@ == encode_scalar(ch as u32),
{
    let c = ch as u32;
    if c <= 0x7F {
        let v = vec![(c & 0x7F) as u8];
        assert(v@ =~= encode_scalar(c));
        v
    } else if c <= 0x7FF {
        let v = vec![0xC0 | ((c >> 6) & 0x1F) as u8, 0x80 | (c & 0x3F) as u8];
        assert(v@ =~= encode_scalar(c));
        v
    } else if c <= 0xFFFF && !(0xD800 <= c && c <= 0xDFFF) {
        let v = vec![
            0xE0 | ((c >> 12) & 0x0F) as u8,
            0x80 | ((c >> 6) & 0x3F) as u8,
            0x80 | (c & 0x3F) as u8,
        ];
        assert(v@ =~= encode_scalar(c));
        v
    } else {
        let v = vec![
            0xF0 | ((c >> 18) & 0x7) as u8,
            0x80 | ((c >> 12) & 0x3F) as u8,
            0x80 | ((c >> 6) & 0x3F) as u8,
            0x80 | (c & 0x3F) as u8,
        ];
        assert(v@ =~= encode_scalar(c));
        v
    }
}

/// The bytes that a key sends to the shell, if it sends any: the control
/// byte for `Ctrl` with a character, the character's UTF-8 encoding
/// otherwise, and the usual terminal sequences for the other keys.
pub open spec fn spec_encode_key(key: KeyEvent) -> Option<Seq<u8>> {
    match key.code {
        KeyCode::Char(ch) => if key.modifiers.control {
            match spec_ctrl_byte(ch) {
                Some(b) => Some(seq![b]),
                None => None,
            }
        } else {
            Some(encode_scalar(ch as u32))
        },
        KeyCode::Enter => Some(seq![0x0du8]),
        KeyCode::Backspace => Some(seq![0x7fu8]),
        KeyCode::Tab => Some(seq![0x09u8]),
        KeyCode::BackTab => Some(seq![0x1bu8, 0x5b, 0x5a]),
        KeyCode::Esc => Some(seq![0x1bu8]),
        KeyCode::Delete => Some(seq![0x1bu8, 0x5b, 0x33, 0x7e]),
        KeyCode::Insert => Some(seq![0x1bu8, 0x5b, 0x32, 0x7e]),
        KeyCode::Home => Some(seq![0x1bu8, 0x5b, 0x48]),
        KeyCode::End => Some(seq![0x1bu8, 0x5b, 0x46]),
        KeyCode::PageUp => Some(seq![0x1bu8, 0x5b, 0x35, 0x7e]),
        KeyCode::PageDown => Some(seq![0x1bu8, 0x5b, 0x36, 0x7e]),
        KeyCode::Up => Some(seq![0x1bu8, 0x5b, 0x41]),
        KeyCode::Down => Some(seq![0x1bu8, 0x5b, 0x42]),
        KeyCode::Right => Some(seq![0x1bu8, 0x5b, 0x43]),
        KeyCode::Left => Some(seq![0x1bu8, 0x5b, 0x44]),
        KeyCode::F(n) => spec_function_key(n),
        _ => None,
    }
}

fn bytes1(a: u8) -> (r: Vec<u8>)
    ensures
        r@ == seq![a],
{
    let v = vec![a];
    assert(v@ =~= seq![a]);
    v
}

fn csi1(a: u8) -> (r: Vec<u8>)
    ensures
        r@ == seq![0x1bu8, 0x5b, a],
{
    let v = vec![0x1bu8, 0x5b, a];
    assert(v@ =~= seq![0x1bu8, 0x5b, a]);
    v
}

fn csi_tilde1(a: u8) -> (r: Vec<u8>)
    ensures
        r@ == seq![0x1bu8, 0x5b, a, 0x7e],
{
    let v = vec![0x1bu8, 0x5b, a, 0x7e];
    assert(v@ =~= seq![0x1bu8, 0x5b, a, 0x7e]);
    v
}

/// The bytes that a key sends to the shell (see `spec_encode_key`).
pub fn encode_key(key: KeyEvent) -> (r: Option<Vec<u8>>)
    ensures
        match spec_encode_key(key) {
            Some(s) => r matches Some(v) && v@ == s,
            None => r is None,
        },
{
    match key.code {
        KeyCode::Char(ch) => {
            if key.modifiers.control {
                match ctrl_byte(ch) {
                    Some(b) => Some(bytes1(b)),
                    None => None,
                }
            } else {
                Some(encode_char(ch))
            }
        },
        KeyCode::Enter => Some(bytes1(0x0d)),
        KeyCode::Backspace => Some(bytes1(0x7f)),
        KeyCode::Tab => Some(bytes1(0x09)),
        KeyCode::BackTab => Some(csi1(0x5a)),
        KeyCode::Esc => Some(bytes1(0x1b)),
        KeyCode::Delete => Some(csi_tilde1(0x33)),
        KeyCode::Insert => Some(csi_tilde1(0x32)),
        KeyCode::Home => Some(csi1(0x48)),
        KeyCode::End => Some(csi1(0x46)),
        KeyCode::PageUp => Some(csi_tilde1(0x35)),
        KeyCode::PageDown => Some(csi_tilde1(0x36)),
        KeyCode::Up => Some(csi1(0x41)),
        KeyCode::Down => Some(csi1(0x42)),
        KeyCode::Right => Some(csi1(0x43)),
        KeyCode::Left => Some(csi1(0x44)),
        KeyCode::F(n) => encode_function_key(n),
        KeyCode::Null | KeyCode::CapsLock | KeyCode::ScrollLock | KeyCode::NumLock
        | KeyCode::PrintScreen | KeyCode::Pause | KeyCode::Menu | KeyCode::KeypadBegin
        | KeyCode::Media | KeyCode::Modifier => None,
    }
}

/// Whether `key` is `Ctrl-b`, the prefix key.
pub open spec fn is_prefix_key(key: KeyEvent) -> bool {
    key.code == KeyCode::Char('b') && key.modifiers.control
}

/// The command that `key` names after the prefix.
pub open spec fn spec_prefixed_action(key: KeyEvent) -> ActionView {
    match key.code {
        KeyCode::Char(ch) => {
            if ch == 't' {
                ActionView::NewProject
            } else if ch == 'c' {
                ActionView::NewWindow
            } else if ch == '%' {
                ActionView::SplitVertical
            } else if ch == '"' {
                ActionView::SplitHorizontal
            } else if ch == 'n' {
                ActionView::NextProject
            } else if ch == 'p' {
                ActionView::PreviousProject
            } else if ch == ']' {
                ActionView::NextWindow
            } else if ch == '[' {
                ActionView::PreviousWindow
            } else if ch == 'o' {
                ActionView::NextPane
            } else if ch == ';' {
                ActionView::PreviousPane
            } else if ch == 'x' {
                ActionView::ClosePane
            } else if ch == ',' {
                ActionView::StartProjectRename
            } else if ch == '.' {
                ActionView::StartWindowRename
            } else if ch == 'r' {
                ActionView::StartPaneRename
            } else if ch == 'D' {
                ActionView::DeleteProject
            } else if ch == 'e' {
                ActionView::EditShell
            } else if ch == 'd' {
                ActionView::SaveAndQuit
            } else if ch == 'q' {
                ActionView::Quit
            } else if ch == '?' {
                ActionView::ToggleHelp
            } else if '1' <= ch && ch <= '9' {
                ActionView::SelectProject(((ch as u32) - ('1' as u32)) as usize)
            } else if ch == 'b' && key.modifiers.control {
                ActionView::Send(seq![0x02u8])
            } else {
                ActionView::NoAction
            }
        },
        _ => ActionView::NoAction,
    }
}

/// The prefix state after `key` and what `key` asks for, given whether the
/// prefix was active: after the prefix, the key names a command and the
/// prefix ends; otherwise `Ctrl-b` starts the prefix and any other key
/// sends its bytes, if it has any.
pub open spec fn spec_handle_key(prefix: bool, key: KeyEvent) -> (bool, ActionView) {
    if prefix {
        (false, spec_prefixed_action(key))
    } else if is_prefix_key(key) {
        (true, ActionView::NoAction)
    } else {
        match spec_encode_key(key) {
            Some(bytes) => (false, ActionView::Send(bytes)),
            None => (false, ActionView::NoAction),
        }
    }
}

/// The prefix layer: whether `Ctrl-b` was just pressed.
#[derive(Debug)]
pub struct InputState {
    pub prefix: bool,
}

impl InputState {
    /// No prefix pending.
    pub fn new() -> (r: InputState)
        ensures
            !r.prefix,
    {
        InputState { prefix: false }
    }

    fn prefixed_action(key: KeyEvent) -> (r: InputAction)
        ensures
            r@ == spec_prefixed_action(key),
    {
        match key.code {
            KeyCode::Char(ch) => {
                if ch == 't' {
                    InputAction::NewProject
                } else if ch == 'c' {
                    InputAction::NewWindow
                } else if ch == '%' {
                    InputAction::SplitVertical
                } else if ch == '"' {
                    InputAction::SplitHorizontal
                } else if ch == 'n' {
                    InputAction::NextProject
                } else if ch == 'p' {
                    InputAction::PreviousProject
                } else if ch == ']' {
                    InputAction::NextWindow
                } else if ch == '[' {
                    InputAction::PreviousWindow
                } else if ch == 'o' {
                    InputAction::NextPane
                } else if ch == ';' {
                    InputAction::PreviousPane
                } else if ch == 'x' {
                    InputAction::ClosePane
                } else if ch == ',' {
                    InputAction::StartProjectRename
                } else if ch == '.' {
                    InputAction::StartWindowRename
                } else if ch == 'r' {
                    InputAction::StartPaneRename
                } else if ch == 'D' {
                    InputAction::DeleteProject
                } else if ch == 'e' {
                    InputAction::EditShell
                } else if ch == 'd' {
                    InputAction::SaveAndQuit
                } else if ch == 'q' {
                    InputAction::Quit
                } else if ch == '?' {
                    InputAction::ToggleHelp
                } else if '1' <= ch && ch <= '9' {
                    InputAction::SelectProject(((ch as u32) - ('1' as u32)) as usize)
                } else if ch == 'b' && key.modifiers.control {
                    InputAction::Send(bytes1(0x02))
                } else {
                    InputAction::NoAction
                }
            },
            _ => InputAction::NoAction,
        }
    }

    /// Handles one key (see `spec_handle_key`).
    pub fn handle_key(&mut self, key: KeyEvent) -> (r: InputAction)
        ensures
            (final(self).prefix, r@) == spec_handle_key(old(self).prefix, key),
    {
        if self.prefix {
            self.prefix = false;
            return Self::prefixed_action(key);
        }
        let is_b = match key.code {
            KeyCode::Char(ch) => ch == 'b',
            _ => false,
        };
        if is_b && key.modifiers.control {
            self.prefix = true;
            return InputAction::NoAction;
        }
        match encode_key(key) {
            Some(bytes) => InputAction::Send(bytes),
            None => InputAction::NoAction,
        }
    }

    /// Whether the prefix is pending.
    pub fn is_prefix_active(&self) -> (r: bool)
        ensures
            r == self.prefix,
    {
        self.prefix
    }
}

/// A prefix never outlives the key after it, and only `Ctrl-b` starts one:
/// after any key the prefix is pending exactly when it was not and the key
/// was `Ctrl-b`.
pub proof fn law_prefix_lasts_one_key(prefix: bool, key: KeyEvent)
    ensures
        spec_handle_key(prefix, key).0 == (!prefix && is_prefix_key(key)),
{
}

/// `Ctrl` with a letter sends the same byte whatever the letter's case.
pub proof fn law_ctrl_ignores_case(ch: char)
    requires
        'a' <= ch <= 'z',
    ensures
        spec_ctrl_byte(ch) == spec_ctrl_byte((((ch as u32) - 32) as char)),
{
    assert(('A' <= (((ch as u32) - 32) as char)) && ((((ch as u32) - 32) as char) <= 'Z'));
}

/// The number in xterm's `ESC [ code ~` sequence for the function key
/// `n`, from F5 to F12: the numbers run from 15 and skip 16 and 22.
pub open spec fn xterm_function_code(n: int) -> int {
    if n <= 5 {
        15
    } else if n <= 10 {
        n + 11
    } else {
        n + 12
    }
}

/// Each function key is sent as xterm sends it: F1 to F4 as `ESC O` and the
/// letters `P` to `S`, F5 to F12 as `ESC [`, the two decimal digits of
/// their code number (15, 17, 18, 19, 20, 21, 23, 24) and `~`; no other
/// function key sends anything.
pub proof fn law_function_keys_are_xterm(n: u8)
    ensures
        1 <= n <= 4 ==> spec_function_key(n) == Some(seq![0x1bu8, 0x4f, (0x50 + n - 1) as u8]),
        5 <= n <= 12 ==> ({
            let code = xterm_function_code(n as int);
            spec_function_key(n) == Some(
                seq![0x1bu8, 0x5b, (0x30 + code / 10) as u8, (0x30 + code % 10) as u8, 0x7e],
            )
        }),
        n == 0 || n > 12 ==> spec_function_key(n) is None,
{
    if 5 <= n <= 12 {
        let code = xterm_function_code(n as int);
        if n == 5 {
            assert(code == 15);
        } else if n == 6 {
            assert(code == 17);
        } else if n == 7 {
            assert(code == 18);
        } else if n == 8 {
            assert(code == 19);
        } else if n == 9 {
            assert(code == 20);
        } else if n == 10 {
            assert(code == 21);
        } else if n == 11 {
            assert(code == 23);
        } else {
            assert(code == 24);
        }
    }
}

/// `Ctrl` with a character sends the control byte of its ASCII code: the
/// code less 0x40 for `A` to `_` (letters, `[`, `\\`, `]`, `^`, `_`), the
/// code less 0x60 for `a` to `z`; no other character has a control byte.
pub proof fn law_ctrl_bytes_are_ascii(ch: char)
    ensures
        0x41 <= (ch as u32) <= 0x5f ==> spec_ctrl_byte(ch) == Some(((ch as u32) - 0x40) as u8),
        0x61 <= (ch as u32) <= 0x7a ==> spec_ctrl_byte(ch) == Some(((ch as u32) - 0x60) as u8),
        !(0x41 <= (ch as u32) <= 0x5f) && !(0x61 <= (ch as u32) <= 0x7a) ==> spec_ctrl_byte(ch) is None,
{
}

/// The keys that are neither characters nor function keys are sent as
/// xterm sends them: Enter as CR, Tab as HT, Backspace as DEL, Esc as ESC;
/// the arrows as `ESC [` and `A`, `B`, `C`, `D` (up, down, right, left),
/// Home and End as `ESC [ H` and `ESC [ F`, Shift-Tab as `ESC [ Z`; Insert,
/// Delete, Page Up and Page Down as `ESC [`, the digit 2, 3, 5 or 6, and
/// `~`; whatever the modifiers.
pub proof fn law_named_keys_are_xterm(modifiers: KeyModifiers)
    ensures
        spec_encode_key(KeyEvent { code: KeyCode::Enter, modifiers }) == Some(seq![0x0du8]),
        spec_encode_key(KeyEvent { code: KeyCode::Tab, modifiers }) == Some(seq![0x09u8]),
        spec_encode_key(KeyEvent { code: KeyCode::Backspace, modifiers }) == Some(seq![0x7fu8]),
        spec_encode_key(KeyEvent { code: KeyCode::Esc, modifiers }) == Some(seq![0x1bu8]),
        spec_encode_key(KeyEvent { code: KeyCode::Up, modifiers }) == Some(seq![0x1bu8, 0x5b, (0x41 + 0) as u8]),
        spec_encode_key(KeyEvent { code: KeyCode::Down, modifiers }) == Some(seq![0x1bu8, 0x5b, (0x41 + 1) as u8]),
        spec_encode_key(KeyEvent { code: KeyCode::Right, modifiers }) == Some(seq![0x1bu8, 0x5b, (0x41 + 2) as u8]),
        spec_encode_key(KeyEvent { code: KeyCode::Left, modifiers }) == Some(seq![0x1bu8, 0x5b, (0x41 + 3) as u8]),
        spec_encode_key(KeyEvent { code: KeyCode::Home, modifiers }) == Some(seq![0x1bu8, 0x5b, 0x48]),
        spec_encode_key(KeyEvent { code: KeyCode::End, modifiers }) == Some(seq![0x1bu8, 0x5b, 0x46]),
        spec_encode_key(KeyEvent { code: KeyCode::BackTab, modifiers }) == Some(seq![0x1bu8, 0x5b, 0x5a]),
        spec_encode_key(KeyEvent { code: KeyCode::Insert, modifiers }) == Some(
            seq![0x1bu8, 0x5b, (0x30 + 2) as u8, 0x7e],
        ),
        spec_encode_key(KeyEvent { code: KeyCode::Delete, modifiers }) == Some(
            seq![0x1bu8, 0x5b, (0x30 + 3) as u8, 0x7e],
        ),
        spec_encode_key(KeyEvent { code: KeyCode::PageUp, modifiers }) == Some(
            seq![0x1bu8, 0x5b, (0x30 + 5) as u8, 0x7e],
        ),
        spec_encode_key(KeyEvent { code: KeyCode::PageDown, modifiers }) == Some(
            seq![0x1bu8, 0x5b, (0x30 + 6) as u8, 0x7e],
        ),
{
}

} // verus!
