use mythterm::input::{
    app_shortcut, close_tab_command, letter_key, AppShortcut, InputMapper, Key, Modifiers,
    MouseAction, MouseButton,
};

fn plain() -> Modifiers {
    Modifiers { alt: false, ctrl: false, shift: false }
}

fn ctrl() -> Modifiers {
    Modifiers { alt: false, ctrl: true, shift: false }
}

#[test]
fn ctrl_letters_send_control_characters() {
    let m = InputMapper::new();
    assert_eq!(m.map_key(Key::A, &ctrl(), None), Some(vec![0x01]));
    assert_eq!(m.map_key(Key::C, &ctrl(), Some("c")), Some(vec![0x03]));
    assert_eq!(m.map_key(Key::Z, &ctrl(), None), Some(vec![0x1a]));
    assert_eq!(m.map_key(Key::Enter, &ctrl(), None), None);
    assert_eq!(m.map_key(Key::Other, &ctrl(), Some("1")), None);
}

#[test]
fn named_keys() {
    let m = InputMapper::new();
    assert_eq!(m.map_key(Key::Enter, &plain(), None), Some(vec![b'\r']));
    assert_eq!(m.map_key(Key::Tab, &plain(), None), Some(vec![b'\t']));
    assert_eq!(m.map_key(Key::Backspace, &plain(), None), Some(vec![0x7f]));
    assert_eq!(m.map_key(Key::Escape, &plain(), None), Some(vec![0x1b]));
    assert_eq!(m.map_key(Key::Home, &plain(), None), Some(b"\x1b[H".to_vec()));
    assert_eq!(m.map_key(Key::End, &plain(), None), Some(b"\x1b[F".to_vec()));
    assert_eq!(m.map_key(Key::PageUp, &plain(), None), Some(b"\x1b[5~".to_vec()));
    assert_eq!(m.map_key(Key::PageDown, &plain(), None), Some(b"\x1b[6~".to_vec()));
    assert_eq!(m.map_key(Key::Insert, &plain(), None), Some(b"\x1b[2~".to_vec()));
    assert_eq!(m.map_key(Key::Delete, &plain(), None), Some(b"\x1b[3~".to_vec()));
}

#[test]
fn function_keys() {
    let m = InputMapper::new();
    assert_eq!(m.map_key(Key::F1, &plain(), None), Some(b"\x1bOP".to_vec()));
    assert_eq!(m.map_key(Key::F4, &plain(), None), Some(b"\x1bOS".to_vec()));
    assert_eq!(m.map_key(Key::F5, &plain(), None), Some(b"\x1b[15~".to_vec()));
    assert_eq!(m.map_key(Key::F10, &plain(), None), Some(b"\x1b[21~".to_vec()));
    assert_eq!(m.map_key(Key::F12, &plain(), None), Some(b"\x1b[24~".to_vec()));
}

#[test]
fn arrows_follow_cursor_mode() {
    let mut m = InputMapper::new();
    assert_eq!(m.map_key(Key::ArrowUp, &plain(), None), Some(b"\x1b[A".to_vec()));
    assert_eq!(m.map_key(Key::ArrowLeft, &plain(), None), Some(b"\x1b[D".to_vec()));
    m.set_app_cursor_mode(true);
    assert_eq!(m.map_key(Key::ArrowUp, &plain(), None), Some(b"\x1bOA".to_vec()));
    assert_eq!(m.map_key(Key::ArrowRight, &plain(), None), Some(b"\x1bOC".to_vec()));
    m.set_app_cursor_mode(false);
    assert_eq!(m.map_key(Key::ArrowDown, &plain(), None), Some(b"\x1b[B".to_vec()));
}

#[test]
fn printable_keys_send_their_text() {
    let m = InputMapper::new();
    assert_eq!(m.map_key(Key::A, &plain(), Some("a")), Some(b"a".to_vec()));
    assert_eq!(m.map_key(Key::Other, &plain(), Some("é")), Some("é".as_bytes().to_vec()));
    assert_eq!(m.map_key(Key::Other, &plain(), None), None);
}

#[test]
fn paste_is_bracketed_only_when_enabled() {
    let mut m = InputMapper::new();
    assert_eq!(m.encode_paste("ls"), b"ls".to_vec());
    m.set_bracketed_paste(true);
    assert_eq!(m.encode_paste("ls"), b"\x1b[200~ls\x1b[201~".to_vec());
    assert_eq!(m.encode_paste(""), b"\x1b[200~\x1b[201~".to_vec());
}

#[test]
fn mouse_reports_are_sgr() {
    let m = InputMapper::new();
    assert_eq!(
        m.encode_mouse_event(MouseButton::Left, MouseAction::Press, 0, 0, &plain()),
        b"\x1b[<0;1;1M".to_vec()
    );
    assert_eq!(
        m.encode_mouse_event(MouseButton::Right, MouseAction::Release, 9, 19, &plain()),
        b"\x1b[<3;10;20m".to_vec()
    );
    let all = Modifiers { alt: true, ctrl: true, shift: true };
    assert_eq!(
        m.encode_mouse_event(MouseButton::ScrollDown, MouseAction::Press, 122, 4, &all),
        b"\x1b[<93;123;5M".to_vec()
    );
    assert_eq!(
        m.encode_mouse_event(MouseButton::Middle, MouseAction::Press, 0, 0, &ctrl()),
        b"\x1b[<17;1;1M".to_vec()
    );
}

#[test]
fn letter_keys_by_char() {
    assert_eq!(letter_key('a'), Some(Key::A));
    assert_eq!(letter_key('z'), Some(Key::Z));
    assert_eq!(letter_key('A'), None);
    assert_eq!(letter_key('1'), None);
}

#[test]
fn shortcuts_need_ctrl_and_shift() {
    let cs = Modifiers { alt: false, ctrl: true, shift: true };
    assert_eq!(app_shortcut(Key::F, &cs), Some(AppShortcut::OpenSearch));
    assert_eq!(app_shortcut(Key::P, &cs), Some(AppShortcut::OpenCommandPalette));
    assert_eq!(app_shortcut(Key::T, &cs), Some(AppShortcut::NewTab));
    assert_eq!(app_shortcut(Key::W, &cs), Some(AppShortcut::CloseTab));
    assert_eq!(app_shortcut(Key::X, &cs), None);
    assert_eq!(app_shortcut(Key::T, &ctrl()), None);
}

#[test]
fn closing_a_tab_sends_exit() {
    assert_eq!(close_tab_command(), b"exit\n".to_vec());
}

#[test]
fn mapper_defaults() {
    let m = InputMapper::default();
    assert_eq!(m.encode_paste("x"), b"x".to_vec());
    assert_eq!(m.map_key(Key::ArrowUp, &Modifiers::default(), None), Some(b"\x1b[A".to_vec()));
}
