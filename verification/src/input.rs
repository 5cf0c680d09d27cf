//! Keyboard, mouse and paste input encoded as VT sequences for the PTY.

use vstd::prelude::*;

use vstd::string::StringSliceAdditionalSpecFns;

use crate::bytes::{decimal, extend_all, push_decimal};

verus! {

/// A key on the keyboard, as far as the terminal input mapping tells keys apart.
#[derive(Debug, Clone, Copy, PartialEq, Eq, Structural)]
pub enum Key {
    ArrowDown,
    ArrowLeft,
    ArrowRight,
    ArrowUp,
    Escape,
    Tab,
    Backspace,
    Enter,
    Insert,
    Delete,
    Home,
    End,
    PageUp,
    PageDown,
    A,
    B,
    C,
    D,
    E,
    F,
    G,
    H,
    I,
    J,
    K,
    L,
    M,
    N,
    O,
    P,
    Q,
    R,
    S,
    T,
    U,
    V,
    W,
    X,
    Y,
    Z,
    F1,
    F2,
    F3,
    F4,
    F5,
    F6,
    F7,
    F8,
    F9,
    F10,
    F11,
    F12,
    /// Any other key (digits, punctuation, space, ...): its text, if any, is sent.
    Other,
}

/// The modifier keys held during an input event.
#[derive(Debug, Clone, Copy, PartialEq, Eq, Default)]
pub struct Modifiers {
    pub alt: bool,
    pub ctrl: bool,
    pub shift: bool,
}

/// Position of a letter key in the alphabet, counting from 1 (`A` is 1, `Z` is 26).
pub open spec fn letter_number(key: Key) -> Option<u8> {
    match key {
        Key::A => Some(1u8),
        Key::B => Some(2u8),
        Key::C => Some(3u8),
        Key::D => Some(4u8),
        Key::E => Some(5u8),
        Key::F => Some(6u8),
        Key::G => Some(7u8),
        Key::H => Some(8u8),
        Key::I => Some(9u8),
        Key::J => Some(10u8),
        Key::K => Some(11u8),
        Key::L => Some(12u8),
        Key::M => Some(13u8),
        Key::N => Some(14u8),
        Key::O => Some(15u8),
        Key::P => Some(16u8),
        Key::Q => Some(17u8),
        Key::R => Some(18u8),
        Key::S => Some(19u8),
        Key::T => Some(20u8),
        Key::U => Some(21u8),
        Key::V => Some(22u8),
        Key::W => Some(23u8),
        Key::X => Some(24u8),
        Key::Y => Some(25u8),
        Key::Z => Some(26u8),
        _ => None,
    }
}

/// The letter key whose lowercase letter is `c`, if any.
pub fn letter_key(c: char) -> (r: Option<Key>)
    ensures
        match r {
            Some(k) => letter_number(k) is Some && letter_number(k)->0 == (c as u32) - 96,
            None => !('a' <= c <= 'z'),
        },
{
    match c {
        'a' => Some(Key::A),
        'b' => Some(Key::B),
        'c' => Some(Key::C),
        'd' => Some(Key::D),
        'e' => Some(Key::E),
        'f' => Some(Key::F),
        'g' => Some(Key::G),
        'h' => Some(Key::H),
        'i' => Some(Key::I),
        'j' => Some(Key::J),
        'k' => Some(Key::K),
        'l' => Some(Key::L),
        'm' => Some(Key::M),
        'n' => Some(Key::N),
        'o' => Some(Key::O),
        'p' => Some(Key::P),
        'q' => Some(Key::Q),
        'r' => Some(Key::R),
        's' => Some(Key::S),
        't' => Some(Key::T),
        'u' => Some(Key::U),
        'v' => Some(Key::V),
        'w' => Some(Key::W),
        'x' => Some(Key::X),
        'y' => Some(Key::Y),
        'z' => Some(Key::Z),
        _ => None,
    }
}

/// ESC `[` followed by `body`: a control sequence introducer.
pub open spec fn csi(body: Seq<u8>) -> Seq<u8> {
    seq![0x1bu8, 0x5bu8] + body
}

/// ESC `O` followed by `c`: a single-shift-3 sequence.
pub open spec fn ss3(c: u8) -> Seq<u8> {
    seq![0x1bu8, 0x4fu8, c]
}

/// An arrow key: SS3 in application cursor mode, CSI otherwise.
pub open spec fn arrow(app_cursor: bool, c: u8) -> Seq<u8> {
    if app_cursor {
        ss3(c)
    } else {
        csi(seq![c])
    }
}

/// CSI `n ~` for a two-digit or one-digit parameter given as ASCII digits.
pub open spec fn tilde(digits: Seq<u8>) -> Seq<u8> {
    csi(digits + seq![0x7eu8])
}

/// The VT sequence of a key pressed without Ctrl, when the key has one of its own.
pub open spec fn key_sequence(app_cursor: bool, key: Key) -> Option<Seq<u8>> {
    match key {
        Key::Enter => Some(seq![0x0du8]),
        Key::Tab => Some(seq![0x09u8]),
        Key::Backspace => Some(seq![0x7fu8]),
        Key::Escape => Some(seq![0x1bu8]),
        Key::ArrowUp => Some(arrow(app_cursor, 0x41u8)),
        Key::ArrowDown => Some(arrow(app_cursor, 0x42u8)),
        Key::ArrowRight => Some(arrow(app_cursor, 0x43u8)),
        Key::ArrowLeft => Some(arrow(app_cursor, 0x44u8)),
        Key::Home => Some(csi(seq![0x48u8])),
        Key::End => Some(csi(seq![0x46u8])),
        Key::PageUp => Some(tilde(seq![0x35u8])),
        Key::PageDown => Some(tilde(seq![0x36u8])),
        Key::Insert => Some(tilde(seq![0x32u8])),
        Key::Delete => Some(tilde(seq![0x33u8])),
        Key::F1 => Some(ss3(0x50u8)),
        Key::F2 => Some(ss3(0x51u8)),
        Key::F3 => Some(ss3(0x52u8)),
        Key::F4 => Some(ss3(0x53u8)),
        Key::F5 => Some(tilde(seq![0x31u8, 0x35u8])),
        Key::F6 => Some(tilde(seq![0x31u8, 0x37u8])),
        Key::F7 => Some(tilde(seq![0x31u8, 0x38u8])),
        Key::F8 => Some(tilde(seq![0x31u8, 0x39u8])),
        Key::F9 => Some(tilde(seq![0x32u8, 0x30u8])),
        Key::F10 => Some(tilde(seq![0x32u8, 0x31u8])),
        Key::F11 => Some(tilde(seq![0x32u8, 0x33u8])),
        Key::F12 => Some(tilde(seq![0x32u8, 0x34u8])),
        _ => None,
    }
}

/// Ctrl + letter sends the control character of that letter (Ctrl+A is 0x01,
/// Ctrl+Z is 0x1A); Ctrl with any other key sends nothing.
pub open spec fn ctrl_sequence(key: Key) -> Option<Seq<u8>> {
    match letter_number(key) {
        Some(n) => Some(seq![n]),
        None => None,
    }
}

/// What `map_key` sends for `key` with Ctrl held or not and the event's text.
pub open spec fn key_input(app_cursor: bool, key: Key, ctrl: bool, text: Option<Seq<u8>>) -> Option<
    Seq<u8>,
> {
    if ctrl {
        ctrl_sequence(key)
    } else {
        match key_sequence(app_cursor, key) {
            Some(s) => Some(s),
            None => text,
        }
    }
}

/// A mouse button, or a wheel direction.
#[derive(Debug, Clone, Copy, PartialEq, Eq, Structural)]
pub enum MouseButton {
    Left,
    Middle,
    Right,
    ScrollUp,
    ScrollDown,
}

/// Whether a mouse button went down or up.
#[derive(Debug, Clone, Copy, PartialEq, Eq, Structural)]
pub enum MouseAction {
    Press,
    Release,
}

/// The SGR button number of a mouse event: 0, 1, 2 for pressing the left,
/// middle and right buttons, 3 for any release, 64 and 65 for the wheel.
pub open spec fn mouse_button_code(button: MouseButton, action: MouseAction) -> nat {
    match (button, action) {
        (MouseButton::Left, MouseAction::Press) => 0,
        (MouseButton::Middle, MouseAction::Press) => 1,
        (MouseButton::Right, MouseAction::Press) => 2,
        (_, MouseAction::Release) => 3,
        (MouseButton::ScrollUp, _) => 64,
        (MouseButton::ScrollDown, _) => 65,
    }
}

/// The SGR modifier bits: 4 for Shift, 8 for Alt, 16 for Ctrl.
pub open spec fn mouse_modifier_code(m: Modifiers) -> nat {
    (if m.shift { 4nat } else { 0nat }) + (if m.alt { 8nat } else { 0nat }) + (if m.ctrl {
        16nat
    } else {
        0nat
    })
}

/// The SGR extended mouse report `ESC [ < b ; x ; y M` (press) or `... m`
/// (release), with 1-based cell coordinates.
pub open spec fn mouse_report(
    button: MouseButton,
    action: MouseAction,
    x: u16,
    y: u16,
    m: Modifiers,
) -> Seq<u8> {
    csi(seq![0x3cu8]) + decimal(mouse_button_code(button, action) + mouse_modifier_code(m)) + seq![
        0x3bu8,
    ] + decimal(x as nat + 1) + seq![0x3bu8] + decimal(y as nat + 1) + seq![
        if action == MouseAction::Press {
            0x4du8
        } else {
            0x6du8
        },
    ]
}

/// The start marker of a bracketed paste, `ESC [ 200 ~`.
pub open spec fn paste_start() -> Seq<u8> {
    tilde(seq![0x32u8, 0x30u8, 0x30u8])
}

/// The end marker of a bracketed paste, `ESC [ 201 ~`.
pub open spec fn paste_end() -> Seq<u8> {
    tilde(seq![0x32u8, 0x30u8, 0x31u8])
}

/// What `encode_paste` sends for pasted `text`.
pub open spec fn paste_input(bracketed: bool, text: Seq<u8>) -> Seq<u8> {
    if bracketed {
        paste_start() + text + paste_end()
    } else {
        text
    }
}

/// The contents of an optional byte vector.
pub open spec fn vec_view_opt(r: Option<Vec<u8>>) -> Option<Seq<u8>> {
    match r {
        Some(v) => Some(v@),
        None => None,
    }
}

/// The UTF-8 bytes of an optional string.
pub open spec fn str_bytes_opt(t: Option<&str>) -> Option<Seq<u8>> {
    match t {
        Some(s) => Some(s.spec_bytes()),
        None => None,
    }
}

/// Maps key events to VT escape sequences.
pub struct InputMapper {
    /// Whether the terminal is in application cursor mode.
    app_cursor_mode: bool,
    /// Whether bracketed paste mode is enabled.
    bracketed_paste: bool,
}

impl InputMapper {
    /// Whether arrow keys are sent in application cursor mode.
    pub closed spec fn app_cursor(&self) -> bool {
        self.app_cursor_mode
    }

    /// Whether pasted text is wrapped in bracketed-paste markers.
    pub closed spec fn bracketed(&self) -> bool {
        self.bracketed_paste
    }

    /// Create a new input mapper: normal cursor mode, no bracketed paste.
    pub fn new() -> (r: Self)
        ensures
            !r.app_cursor(),
            !r.bracketed(),
    {
        InputMapper { app_cursor_mode: false, bracketed_paste: false }
    }

    /// Set application cursor mode.
    pub fn set_app_cursor_mode(&mut self, enabled: bool)
        ensures
            final(self).app_cursor() == enabled,
            final(self).bracketed() == old(self).bracketed(),
    {
        self.app_cursor_mode = enabled;
    }

    /// Set bracketed paste mode.
    pub fn set_bracketed_paste(&mut self, enabled: bool)
        ensures
            final(self).bracketed() == enabled,
            final(self).app_cursor() == old(self).app_cursor(),
    {
        self.bracketed_paste = enabled;
    }

    /// Convert a key event to a VT sequence.
    ///
    /// Returns the bytes to send to the PTY, or `None` if the key should be
    /// handled by the UI instead.
    pub fn map_key(&self, key: Key, modifiers: &Modifiers, text: Option<&str>) -> (r: Option<
        Vec<u8>,
    >)
        ensures
            vec_view_opt(r) == key_input(
                self.app_cursor(),
                key,
                modifiers.ctrl,
                str_bytes_opt(text),
            ),
    {
        if modifiers.ctrl {
            return self.map_ctrl_key(key);
        }
        let app = self.app_cursor_mode;
        let r: Option<Vec<u8>> = match key {
            Key::Enter => Some(vec![0x0du8]),
            Key::Tab => Some(vec![0x09u8]),
            Key::Backspace => Some(vec![0x7fu8]),
            Key::Escape => Some(vec![0x1bu8]),
            Key::ArrowUp => Some(if app { vec![0x1bu8, 0x4f, 0x41] } else { vec![0x1bu8, 0x5b, 0x41] }),
            Key::ArrowDown => Some(if app { vec![0x1bu8, 0x4f, 0x42] } else { vec![0x1bu8, 0x5b, 0x42] }),
            Key::ArrowRight => Some(if app { vec![0x1bu8, 0x4f, 0x43] } else { vec![0x1bu8, 0x5b, 0x43] }),
            Key::ArrowLeft => Some(if app { vec![0x1bu8, 0x4f, 0x44] } else { vec![0x1bu8, 0x5b, 0x44] }),
            Key::Home => Some(vec![0x1bu8, 0x5b, 0x48]),
            Key::End => Some(vec![0x1bu8, 0x5b, 0x46]),
            Key::PageUp => Some(vec![0x1bu8, 0x5b, 0x35, 0x7e]),
            Key::PageDown => Some(vec![0x1bu8, 0x5b, 0x36, 0x7e]),
            Key::Insert => Some(vec![0x1bu8, 0x5b, 0x32, 0x7e]),
            Key::Delete => Some(vec![0x1bu8, 0x5b, 0x33, 0x7e]),
            Key::F1 => Some(vec![0x1bu8, 0x4f, 0x50]),
            Key::F2 => Some(vec![0x1bu8, 0x4f, 0x51]),
            Key::F3 => Some(vec![0x1bu8, 0x4f, 0x52]),
            Key::F4 => Some(vec![0x1bu8, 0x4f, 0x53]),
            Key::F5 => Some(vec![0x1bu8, 0x5b, 0x31, 0x35, 0x7e]),
            Key::F6 => Some(vec![0x1bu8, 0x5b, 0x31, 0x37, 0x7e]),
            Key::F7 => Some(vec![0x1bu8, 0x5b, 0x31, 0x38, 0x7e]),
            Key::F8 => Some(vec![0x1bu8, 0x5b, 0x31, 0x39, 0x7e]),
            Key::F9 => Some(vec![0x1bu8, 0x5b, 0x32, 0x30, 0x7e]),
            Key::F10 => Some(vec![0x1bu8, 0x5b, 0x32, 0x31, 0x7e]),
            Key::F11 => Some(vec![0x1bu8, 0x5b, 0x32, 0x33, 0x7e]),
            Key::F12 => Some(vec![0x1bu8, 0x5b, 0x32, 0x34, 0x7e]),
            _ => {
                // For printable characters, use the text input
                match text {
                    Some(t) => {
                        let mut v: Vec<u8> = Vec::new();
                        extend_all(&mut v, t.as_bytes());
                        Some(v)
                    },
                    None => None,
                }
            },
        };
        r
    }

    /// Map Ctrl+key combinations to VT sequences.
    fn map_ctrl_key(&self, key: Key) -> (r: Option<Vec<u8>>)
        ensures
            vec_view_opt(r) == ctrl_sequence(key),
    {
        let n: Option<u8> = match key {
            Key::A => Some(1u8),
            Key::B => Some(2u8),
            Key::C => Some(3u8),
            Key::D => Some(4u8),
            Key::E => Some(5u8),
            Key::F => Some(6u8),
            Key::G => Some(7u8),
            Key::H => Some(8u8),
            Key::I => Some(9u8),
            Key::J => Some(10u8),
            Key::K => Some(11u8),
            Key::L => Some(12u8),
            Key::M => Some(13u8),
            Key::N => Some(14u8),
            Key::O => Some(15u8),
            Key::P => Some(16u8),
            Key::Q => Some(17u8),
            Key::R => Some(18u8),
            Key::S => Some(19u8),
            Key::T => Some(20u8),
            Key::U => Some(21u8),
            Key::V => Some(22u8),
            Key::W => Some(23u8),
            Key::X => Some(24u8),
            Key::Y => Some(25u8),
            Key::Z => Some(26u8),
            _ => None,
        };
        assert(n == letter_number(key));
        match n {
            Some(b) => {
                let v = vec![b];
                assert(v@ =~= seq![b]);
                Some(v)
            },
            None => None,
        }
    }

    /// Encode a mouse event as an SGR extended mouse report.
    pub fn encode_mouse_event(
        &self,
        button: MouseButton,
        action: MouseAction,
        x: u16,
        y: u16,
        modifiers: &Modifiers,
    ) -> (r: Vec<u8>)
        requires
            x < u16::MAX,
            y < u16::MAX,
        ensures
            r@ == mouse_report(button, action, x, y, *modifiers),
    {
        let cb: u32 = match (button, action) {
            (MouseButton::Left, MouseAction::Press) => 0,
            (MouseButton::Middle, MouseAction::Press) => 1,
            (MouseButton::Right, MouseAction::Press) => 2,
            (_, MouseAction::Release) => 3,
            (MouseButton::ScrollUp, _) => 64,
            (MouseButton::ScrollDown, _) => 65,
        };
        let cm: u32 = (if modifiers.shift { 4u32 } else { 0u32 }) + (if modifiers.alt {
            8u32
        } else {
            0u32
        }) + (if modifiers.ctrl { 16u32 } else { 0u32 });
        let mut out: Vec<u8> = vec![0x1bu8, 0x5b, 0x3c];
        push_decimal(&mut out, cb + cm);
        out.push(0x3b);
        push_decimal(&mut out, (x + 1) as u32);
        out.push(0x3b);
        push_decimal(&mut out, (y + 1) as u32);
        let last: u8 = match action {
            MouseAction::Press => 0x4d,
            MouseAction::Release => 0x6d,
        };
        out.push(last);
        proof {
            assert(out@ =~= mouse_report(button, action, x, y, *modifiers));
        }
        out
    }

    /// Encode paste text, with bracketing if enabled.
    pub fn encode_paste(&self, text: &str) -> (r: Vec<u8>)
        ensures
            r@ == paste_input(self.bracketed(), text.spec_bytes()),
    {
        let mut result: Vec<u8> = Vec::new();
        if self.bracketed_paste {
            result.push(0x1b);
            result.push(0x5b);
            result.push(0x32);
            result.push(0x30);
            result.push(0x30);
            result.push(0x7e);
        }
        extend_all(&mut result, text.as_bytes());
        if self.bracketed_paste {
            result.push(0x1b);
            result.push(0x5b);
            result.push(0x32);
            result.push(0x30);
            result.push(0x31);
            result.push(0x7e);
        }
        proof {
            assert(result@ =~= paste_input(self.bracketed(), text.spec_bytes()));
        }
        result
    }
}

impl Default for InputMapper {
    fn default() -> (r: Self)
        ensures
            !r.app_cursor(),
            !r.bracketed(),
    {
        Self::new()
    }
}


/// Application shortcuts, bound to Ctrl+Shift and a letter.
#[derive(Debug, Clone, Copy, PartialEq, Eq, Structural)]
pub enum AppShortcut {
    /// Ctrl+Shift+F: open the search overlay.
    OpenSearch,
    /// Ctrl+Shift+P: open the command palette.
    OpenCommandPalette,
    /// Ctrl+Shift+T: open a new tab.
    NewTab,
    /// Ctrl+Shift+W: close the current tab.
    CloseTab,
}

/// The application shortcut a key press triggers, if any: Ctrl and Shift
/// held with F, P, T or W. Such presses are not sent to the terminal.
pub open spec fn shortcut_of(key: Key, m: Modifiers) -> Option<AppShortcut> {
    if m.ctrl && m.shift {
        match key {
            Key::F => Some(AppShortcut::OpenSearch),
            Key::P => Some(AppShortcut::OpenCommandPalette),
            Key::T => Some(AppShortcut::NewTab),
            Key::W => Some(AppShortcut::CloseTab),
            _ => None,
        }
    } else {
        None
    }
}

/// The application shortcut for a key press, if any.
pub fn app_shortcut(key: Key, modifiers: &Modifiers) -> (r: Option<AppShortcut>)
    ensures
        r == shortcut_of(key, *modifiers),
{
    if modifiers.ctrl && modifiers.shift {
        match key {
            Key::F => Some(AppShortcut::OpenSearch),
            Key::P => Some(AppShortcut::OpenCommandPalette),
            Key::T => Some(AppShortcut::NewTab),
            Key::W => Some(AppShortcut::CloseTab),
            _ => None,
        }
    } else {
        None
    }
}

/// What closing a tab sends to its shell: `exit` and a newline.
pub open spec fn close_tab_input() -> Seq<u8> {
    seq![0x65u8, 0x78u8, 0x69u8, 0x74u8, 0x0au8]
}

/// The bytes sent to the shell of a tab that is being closed.
pub fn close_tab_command() -> (r: Vec<u8>)
    ensures
        r@ == close_tab_input(),
{
    let r = vec![0x65u8, 0x78, 0x69, 0x74, 0x0a];
    assert(r@ =~= close_tab_input());
    r
}

/// Without Ctrl, the function keys send the xterm sequences: F1 to F4 send
/// ESC O P to ESC O S, and F5 to F12 send ESC [ n ~ with n = 15, 17, 18,
/// 19, 20, 21, 23, 24, in either cursor mode and whatever the event text.
pub proof fn law_function_key_sequences(app_cursor: bool, text: Option<Seq<u8>>)
    ensures
        key_input(app_cursor, Key::F1, false, text) == Some(seq![0x1bu8, 0x4fu8, 0x50u8]),
        key_input(app_cursor, Key::F2, false, text) == Some(seq![0x1bu8, 0x4fu8, 0x51u8]),
        key_input(app_cursor, Key::F3, false, text) == Some(seq![0x1bu8, 0x4fu8, 0x52u8]),
        key_input(app_cursor, Key::F4, false, text) == Some(seq![0x1bu8, 0x4fu8, 0x53u8]),
        key_input(app_cursor, Key::F5, false, text) == Some(seq![0x1bu8, 0x5bu8, 0x31u8, 0x35u8, 0x7eu8]),
        key_input(app_cursor, Key::F6, false, text) == Some(seq![0x1bu8, 0x5bu8, 0x31u8, 0x37u8, 0x7eu8]),
        key_input(app_cursor, Key::F7, false, text) == Some(seq![0x1bu8, 0x5bu8, 0x31u8, 0x38u8, 0x7eu8]),
        key_input(app_cursor, Key::F8, false, text) == Some(seq![0x1bu8, 0x5bu8, 0x31u8, 0x39u8, 0x7eu8]),
        key_input(app_cursor, Key::F9, false, text) == Some(seq![0x1bu8, 0x5bu8, 0x32u8, 0x30u8, 0x7eu8]),
        key_input(app_cursor, Key::F10, false, text) == Some(seq![0x1bu8, 0x5bu8, 0x32u8, 0x31u8, 0x7eu8]),
        key_input(app_cursor, Key::F11, false, text) == Some(seq![0x1bu8, 0x5bu8, 0x32u8, 0x33u8, 0x7eu8]),
        key_input(app_cursor, Key::F12, false, text) == Some(seq![0x1bu8, 0x5bu8, 0x32u8, 0x34u8, 0x7eu8]),
{
}


/// Without Ctrl, the editing keys send their VT sequences: CR, TAB, DEL and
/// ESC for Enter, Tab, Backspace and Escape; ESC [ H and ESC [ F for Home
/// and End; ESC [ 5 ~, ESC [ 6 ~, ESC [ 2 ~ and ESC [ 3 ~ for Page Up, Page
/// Down, Insert and Delete. The arrows send ESC [ A/B/C/D (Up, Down, Right,
/// Left), or ESC O A/B/C/D in application cursor mode.
pub proof fn law_editing_key_sequences(app_cursor: bool, text: Option<Seq<u8>>)
    ensures
        key_input(app_cursor, Key::Enter, false, text) == Some(seq![0x0du8]),
        key_input(app_cursor, Key::Tab, false, text) == Some(seq![0x09u8]),
        key_input(app_cursor, Key::Backspace, false, text) == Some(seq![0x7fu8]),
        key_input(app_cursor, Key::Escape, false, text) == Some(seq![0x1bu8]),
        key_input(app_cursor, Key::Home, false, text) == Some(seq![0x1bu8, 0x5bu8, 0x48u8]),
        key_input(app_cursor, Key::End, false, text) == Some(seq![0x1bu8, 0x5bu8, 0x46u8]),
        key_input(app_cursor, Key::PageUp, false, text) == Some(seq![0x1bu8, 0x5bu8, 0x35u8, 0x7eu8]),
        key_input(app_cursor, Key::PageDown, false, text) == Some(seq![0x1bu8, 0x5bu8, 0x36u8, 0x7eu8]),
        key_input(app_cursor, Key::Insert, false, text) == Some(seq![0x1bu8, 0x5bu8, 0x32u8, 0x7eu8]),
        key_input(app_cursor, Key::Delete, false, text) == Some(seq![0x1bu8, 0x5bu8, 0x33u8, 0x7eu8]),
        key_input(false, Key::ArrowUp, false, text) == Some(seq![0x1bu8, 0x5bu8, 0x41u8]),
        key_input(true, Key::ArrowUp, false, text) == Some(seq![0x1bu8, 0x4fu8, 0x41u8]),
        key_input(false, Key::ArrowDown, false, text) == Some(seq![0x1bu8, 0x5bu8, 0x42u8]),
        key_input(true, Key::ArrowDown, false, text) == Some(seq![0x1bu8, 0x4fu8, 0x42u8]),
        key_input(false, Key::ArrowRight, false, text) == Some(seq![0x1bu8, 0x5bu8, 0x43u8]),
        key_input(true, Key::ArrowRight, false, text) == Some(seq![0x1bu8, 0x4fu8, 0x43u8]),
        key_input(false, Key::ArrowLeft, false, text) == Some(seq![0x1bu8, 0x5bu8, 0x44u8]),
        key_input(true, Key::ArrowLeft, false, text) == Some(seq![0x1bu8, 0x4fu8, 0x44u8]),
{
}


/// With Ctrl held, a letter sends its control character (A is 0x01 through
/// Z is 0x1A) and any other key sends nothing, whatever the event text;
/// without Ctrl, a letter or other key sends the event text.
pub proof fn law_ctrl_and_text_keys(app_cursor: bool, text: Option<Seq<u8>>)
    ensures
        key_input(app_cursor, Key::A, true, text) == Some(seq![1u8]),
        key_input(app_cursor, Key::B, true, text) == Some(seq![2u8]),
        key_input(app_cursor, Key::C, true, text) == Some(seq![3u8]),
        key_input(app_cursor, Key::D, true, text) == Some(seq![4u8]),
        key_input(app_cursor, Key::E, true, text) == Some(seq![5u8]),
        key_input(app_cursor, Key::F, true, text) == Some(seq![6u8]),
        key_input(app_cursor, Key::G, true, text) == Some(seq![7u8]),
        key_input(app_cursor, Key::H, true, text) == Some(seq![8u8]),
        key_input(app_cursor, Key::I, true, text) == Some(seq![9u8]),
        key_input(app_cursor, Key::J, true, text) == Some(seq![10u8]),
        key_input(app_cursor, Key::K, true, text) == Some(seq![11u8]),
        key_input(app_cursor, Key::L, true, text) == Some(seq![12u8]),
        key_input(app_cursor, Key::M, true, text) == Some(seq![13u8]),
        key_input(app_cursor, Key::N, true, text) == Some(seq![14u8]),
        key_input(app_cursor, Key::O, true, text) == Some(seq![15u8]),
        key_input(app_cursor, Key::P, true, text) == Some(seq![16u8]),
        key_input(app_cursor, Key::Q, true, text) == Some(seq![17u8]),
        key_input(app_cursor, Key::R, true, text) == Some(seq![18u8]),
        key_input(app_cursor, Key::S, true, text) == Some(seq![19u8]),
        key_input(app_cursor, Key::T, true, text) == Some(seq![20u8]),
        key_input(app_cursor, Key::U, true, text) == Some(seq![21u8]),
        key_input(app_cursor, Key::V, true, text) == Some(seq![22u8]),
        key_input(app_cursor, Key::W, true, text) == Some(seq![23u8]),
        key_input(app_cursor, Key::X, true, text) == Some(seq![24u8]),
        key_input(app_cursor, Key::Y, true, text) == Some(seq![25u8]),
        key_input(app_cursor, Key::Z, true, text) == Some(seq![26u8]),
        key_input(app_cursor, Key::Enter, true, text) == None::<Seq<u8>>,
        key_input(app_cursor, Key::Tab, true, text) == None::<Seq<u8>>,
        key_input(app_cursor, Key::Escape, true, text) == None::<Seq<u8>>,
        key_input(app_cursor, Key::ArrowUp, true, text) == None::<Seq<u8>>,
        key_input(app_cursor, Key::F1, true, text) == None::<Seq<u8>>,
        key_input(app_cursor, Key::F12, true, text) == None::<Seq<u8>>,
        key_input(app_cursor, Key::Home, true, text) == None::<Seq<u8>>,
        key_input(app_cursor, Key::Other, true, text) == None::<Seq<u8>>,
        key_input(app_cursor, Key::A, false, text) == text,
        key_input(app_cursor, Key::B, false, text) == text,
        key_input(app_cursor, Key::C, false, text) == text,
        key_input(app_cursor, Key::D, false, text) == text,
        key_input(app_cursor, Key::E, false, text) == text,
        key_input(app_cursor, Key::F, false, text) == text,
        key_input(app_cursor, Key::G, false, text) == text,
        key_input(app_cursor, Key::H, false, text) == text,
        key_input(app_cursor, Key::I, false, text) == text,
        key_input(app_cursor, Key::J, false, text) == text,
        key_input(app_cursor, Key::K, false, text) == text,
        key_input(app_cursor, Key::L, false, text) == text,
        key_input(app_cursor, Key::M, false, text) == text,
        key_input(app_cursor, Key::N, false, text) == text,
        key_input(app_cursor, Key::O, false, text) == text,
        key_input(app_cursor, Key::P, false, text) == text,
        key_input(app_cursor, Key::Q, false, text) == text,
        key_input(app_cursor, Key::R, false, text) == text,
        key_input(app_cursor, Key::S, false, text) == text,
        key_input(app_cursor, Key::T, false, text) == text,
        key_input(app_cursor, Key::U, false, text) == text,
        key_input(app_cursor, Key::V, false, text) == text,
        key_input(app_cursor, Key::W, false, text) == text,
        key_input(app_cursor, Key::X, false, text) == text,
        key_input(app_cursor, Key::Y, false, text) == text,
        key_input(app_cursor, Key::Z, false, text) == text,
        key_input(app_cursor, Key::Other, false, text) == text,
{
}


/// Bracketed paste wraps the text in ESC [ 200 ~ and ESC [ 201 ~; otherwise
/// the text is sent as it is.
pub proof fn law_paste_brackets(text: Seq<u8>)
    ensures
        paste_input(true, text) == seq![0x1bu8, 0x5bu8, 0x32u8, 0x30u8, 0x30u8, 0x7eu8] + text + seq![
            0x1bu8,
            0x5bu8,
            0x32u8,
            0x30u8,
            0x31u8,
            0x7eu8,
        ],
        paste_input(false, text) == text,
{
    assert(paste_start() =~= seq![0x1bu8, 0x5bu8, 0x32u8, 0x30u8, 0x30u8, 0x7eu8]);
    assert(paste_end() =~= seq![0x1bu8, 0x5bu8, 0x32u8, 0x30u8, 0x31u8, 0x7eu8]);
}

/// The SGR mouse report is ESC [ < code ; column ; row, then `M` for a
/// press or `m` for a release, with the 1-based cell and the code written in
/// decimal. The code is 0, 1 or 2 for pressing the left, middle or right
/// button, 3 for any release, 64 and 65 for the wheel up and down, plus 4
/// when Shift is held, 8 when Alt is and 16 when Ctrl is.
pub proof fn law_mouse_report_layout(
    button: MouseButton,
    action: MouseAction,
    x: u16,
    y: u16,
    m: Modifiers,
)
    ensures
        mouse_report(button, action, x, y, m) == seq![0x1bu8, 0x5bu8, 0x3cu8] + decimal(
            (match (button, action) {
                (MouseButton::Left, MouseAction::Press) => 0nat,
                (MouseButton::Middle, MouseAction::Press) => 1nat,
                (MouseButton::Right, MouseAction::Press) => 2nat,
                (_, MouseAction::Release) => 3nat,
                (MouseButton::ScrollUp, _) => 64nat,
                (MouseButton::ScrollDown, _) => 65nat,
            }) + (if m.shift {
                4nat
            } else {
                0nat
            }) + (if m.alt {
                8nat
            } else {
                0nat
            }) + (if m.ctrl {
                16nat
            } else {
                0nat
            }),
        ) + seq![0x3bu8] + decimal(x as nat + 1) + seq![0x3bu8] + decimal(y as nat + 1) + (
        if action == MouseAction::Press {
            seq![0x4du8]
        } else {
            seq![0x6du8]
        }),
{
    assert(mouse_report(button, action, x, y, m) =~= seq![0x1bu8, 0x5bu8, 0x3cu8] + decimal(
        mouse_button_code(button, action) + mouse_modifier_code(m),
    ) + seq![0x3bu8] + decimal(x as nat + 1) + seq![0x3bu8] + decimal(y as nat + 1) + (
    if action == MouseAction::Press {
        seq![0x4du8]
    } else {
        seq![0x6du8]
    }));
}

/// Each modifier alone adds its own bit to the code of the same event
/// without modifiers: Shift 4, Alt 8, Ctrl 16.
pub proof fn law_mouse_modifier_bits(button: MouseButton, action: MouseAction)
    ensures
        mouse_modifier_code(Modifiers { alt: false, ctrl: false, shift: false }) == 0,
        mouse_modifier_code(Modifiers { alt: false, ctrl: false, shift: true }) == 4,
        mouse_modifier_code(Modifiers { alt: true, ctrl: false, shift: false }) == 8,
        mouse_modifier_code(Modifiers { alt: false, ctrl: true, shift: false }) == 16,
        mouse_button_code(button, action) < 4 || mouse_button_code(button, action) == 64
            || mouse_button_code(button, action) == 65,
{
}

/// The application shortcuts are Ctrl+Shift with F (search), P (command
/// palette), T (new tab) and W (close tab); without both Ctrl and Shift no
/// key is a shortcut.
pub proof fn law_app_shortcut_keys(key: Key, m: Modifiers)
    ensures
        shortcut_of(Key::F, Modifiers { alt: m.alt, ctrl: true, shift: true }) == Some(
            AppShortcut::OpenSearch,
        ),
        shortcut_of(Key::P, Modifiers { alt: m.alt, ctrl: true, shift: true }) == Some(
            AppShortcut::OpenCommandPalette,
        ),
        shortcut_of(Key::T, Modifiers { alt: m.alt, ctrl: true, shift: true }) == Some(
            AppShortcut::NewTab,
        ),
        shortcut_of(Key::W, Modifiers { alt: m.alt, ctrl: true, shift: true }) == Some(
            AppShortcut::CloseTab,
        ),
        !(m.ctrl && m.shift) ==> shortcut_of(key, m) is None,
        key != Key::F && key != Key::P && key != Key::T && key != Key::W ==> shortcut_of(key, m)
            is None,
{
}

} // verus!
