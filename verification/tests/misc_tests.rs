use mythterm::bloom::{bloom_mip_sizes, bloom_passes, BloomPass, BLOOM_LEVELS};
use mythterm::bytes::{extend_all, extend_range, push_decimal};
use mythterm::cell::{Cell, CellAttributes, ColorAttribute};
use mythterm::clipboard::{osc52_reply, osc52_text_to_set, ClipboardHandler, ClipboardProvider};
use mythterm::colored::{ColoredChar, ColoredLine};
use mythterm::config::{reload_due, ColorScheme, ExitBehavior, MuxConfig};
use mythterm::splits::{SplitDirection, SplitLayout, SplitNode, HALF_RATIO_BITS};
use mythterm::text::{contains_chars, is_blank, is_whitespace, same_text};
use mythterm::texture::{build_content_texture, label_for_size};
use mythterm::ui::{content_grid_size, cursor_shown, AppState, TabBarClick};
use std::sync::{Arc, Mutex};

#[test]
fn mip_chain_halves_down_to_one() {
    assert_eq!(BLOOM_LEVELS, 3);
    assert_eq!(bloom_mip_sizes(1920, 1080), vec![(960, 540), (480, 270), (240, 135)]);
    assert_eq!(bloom_mip_sizes(5, 2), vec![(2, 1), (1, 1), (1, 1)]);
    assert_eq!(bloom_mip_sizes(0, 0), vec![(1, 1), (1, 1), (1, 1)]);
}

#[test]
fn bloom_pass_order() {
    assert_eq!(
        bloom_passes(3),
        vec![
            BloomPass::Threshold { target: 0 },
            BloomPass::Blur { source: 0, target: 1 },
            BloomPass::Blur { source: 1, target: 2 },
            BloomPass::Upsample { source: 2, target: 1 },
            BloomPass::Upsample { source: 1, target: 0 },
            BloomPass::Combine,
        ]
    );
    assert_eq!(bloom_passes(1), vec![BloomPass::Threshold { target: 0 }, BloomPass::Combine]);
    assert_eq!(bloom_passes(0), vec![]);
}

#[test]
fn byte_helpers() {
    let mut v = vec![1u8];
    extend_range(&mut v, &[5, 6, 7, 8], 1, 3);
    assert_eq!(v, vec![1, 6, 7]);
    extend_all(&mut v, &[9]);
    assert_eq!(v, vec![1, 6, 7, 9]);
    let mut d = Vec::new();
    push_decimal(&mut d, 0);
    d.push(b',');
    push_decimal(&mut d, 4294967295);
    assert_eq!(d, b"0,4294967295".to_vec());
}

#[test]
fn text_helpers() {
    assert!(is_blank(""));
    assert!(is_blank(" \t\n"));
    assert!(!is_blank(" x "));
    assert!(same_text("abc", "abc"));
    assert!(!same_text("abc", "abd"));
    let hay: Vec<char> = "hello world".chars().collect();
    let needle: Vec<char> = "o w".chars().collect();
    assert!(contains_chars(&hay, &needle));
    assert!(contains_chars(&hay, &[]));
    assert!(!contains_chars(&hay, &['x']));
}

#[test]
fn cell_defaults() {
    let c = Cell::default();
    assert_eq!(c.character, '\0');
    assert!(matches!(c.attrs.foreground, ColorAttribute::Default));
    let a = CellAttributes::default();
    assert!(!a.bold && !a.italic && !a.underline && !a.strikethrough && !a.reverse);
    assert!(matches!(ColorAttribute::default(), ColorAttribute::Default));
}

#[test]
fn color_scheme_defaults() {
    let s = ColorScheme::default();
    assert_eq!(s.foreground, [0xc0, 0xc0, 0xc0]);
    assert_eq!(s.background, [0x1e, 0x1e, 0x1e]);
    assert_eq!(s.cursor, [0xff, 0xff, 0xff]);
    assert_eq!(s.ansi[1], [0xcd, 0x31, 0x31]);
    assert_eq!(s.ansi[12], [0x3b, 0x8e, 0xea]);
    assert_eq!(s.ansi[15], [0xff, 0xff, 0xff]);
    assert_eq!(ExitBehavior::default(), ExitBehavior::CloseOnCleanExit);
}

struct Conf;

impl MuxConfig for Conf {
    fn exit_behavior(&self) -> ExitBehavior {
        ExitBehavior::Close
    }
    fn default_shell(&self) -> &str {
        "/bin/sh"
    }
}

#[test]
fn mux_config_defaults() {
    let c = Conf;
    assert!(!c.mux_enable_ssh_agent());
    assert!(c.switch_to_last_active_tab_when_closing());
    assert_eq!(c.default_shell(), "/bin/sh");
}

#[test]
fn reload_at_most_once_a_second() {
    assert!(!reload_due(0));
    assert!(!reload_due(999));
    assert!(reload_due(1000));
    assert!(reload_due(5000));
}

struct FakeClipboard {
    content: Mutex<Option<String>>,
    sets: Arc<Mutex<Vec<String>>>,
}

impl ClipboardProvider for FakeClipboard {
    fn get(&self) -> Option<String> {
        self.content.lock().unwrap().clone()
    }
    fn set(&self, text: &str) {
        self.sets.lock().unwrap().push(text.to_string());
        *self.content.lock().unwrap() = Some(text.to_string());
    }
}

#[test]
fn osc52_set_then_query() {
    let sets = Arc::new(Mutex::new(Vec::new()));
    let h = ClipboardHandler::new(FakeClipboard { content: Mutex::new(None), sets: sets.clone() });
    assert_eq!(h.handle_osc52("c", None), Some(String::new()));
    assert_eq!(h.handle_osc52("c", Some("")), None);
    assert_eq!(h.handle_osc52("c", Some("copied")), None);
    assert_eq!(h.handle_osc52("c", None), Some("copied".to_string()));
    assert_eq!(*sets.lock().unwrap(), vec!["copied".to_string()]);
    assert_eq!(osc52_reply(None), "");
    assert_eq!(osc52_reply(Some("x".to_string())), "x");
}

#[test]
fn colored_line_text_and_emptiness() {
    let ch = |s: &str| ColoredChar { text: s.to_string(), fg: [255; 4], bg: [0, 0, 0, 255] };
    let mut line = ColoredLine::new();
    assert!(line.is_empty());
    assert_eq!(line.text(), "");
    line.chars.push(ch(" "));
    line.chars.push(ch("\t"));
    assert!(line.is_empty());
    line.chars.push(ch("é"));
    line.chars.push(ch("x"));
    assert!(!line.is_empty());
    assert_eq!(line.text(), " \téx");
    assert!(ColoredLine::default().chars.is_empty());
}

#[test]
fn splitting_puts_new_pane_after_old() {
    let mut l = SplitLayout::new(1);
    assert_eq!(l.focused_pane(), 1);
    l.split(1, SplitDirection::Vertical, 2);
    match l.root() {
        SplitNode::Split { direction, ratio_bits, first, second } => {
            assert_eq!(*direction, SplitDirection::Vertical);
            assert_eq!(f32::from_bits(*ratio_bits), 0.5);
            assert!(matches!(**first, SplitNode::Leaf { pane_id: 1 }));
            assert!(matches!(**second, SplitNode::Leaf { pane_id: 2 }));
        }
        _ => panic!("expected a split"),
    }
    l.split(7, SplitDirection::Horizontal, 8);
    assert!(matches!(l.root(), SplitNode::Split { .. }));
    l.set_focused_pane(2);
    assert_eq!(l.focused_pane(), 2);
    assert_eq!(HALF_RATIO_BITS, 0.5f32.to_bits());
}

#[test]
fn app_state_tabs() {
    let mut s = AppState::default();
    assert_eq!(s.tab_titles, vec!["Tab 1".to_string()]);
    assert_eq!(s.active_tab, 0);
    assert!(!s.search_open && !s.command_palette_open);
    s.tab_titles.push("Tab 2".to_string());
    assert_eq!(s.tab_bar_clicked(1), TabBarClick::Switched(1));
    assert_eq!(s.active_tab, 1);
    assert_eq!(s.tab_bar_clicked(2), TabBarClick::NewTab);
    assert_eq!(s.active_tab, 1);
}

#[test]
fn grid_size_of_content() {
    assert_eq!(content_grid_size(&[]), (80, 1));
    assert_eq!(content_grid_size(&["ab".to_string()]), (2, 1));
    assert_eq!(
        content_grid_size(&["abc".to_string(), "".to_string(), "é".to_string()]),
        (3, 3)
    );
    assert_eq!(content_grid_size(&["ééé".to_string()]), (6, 1));
}

#[test]
fn content_texture_pixels() {
    let buf = build_content_texture();
    assert_eq!(buf.len(), 256 * 64 * 4);
    let px = |x: usize, y: usize| {
        let i = (y * 256 + x) * 4;
        [buf[i], buf[i + 1], buf[i + 2], buf[i + 3]]
    };
    assert_eq!(px(0, 0), [255, 255, 255, 255]);
    assert_eq!(px(60, 0), [255, 80, 80, 255]);
    assert_eq!(px(110, 63), [80, 255, 80, 255]);
    assert_eq!(px(160, 5), [80, 80, 255, 255]);
    assert_eq!(px(210, 5), [255, 220, 80, 255]);
    assert_eq!(px(255, 0), [14, 22, 36, 255]);
    assert_eq!(px(50, 18), [255, 255, 255, 255]);
    assert_eq!(px(105, 18), [200, 200, 200, 255]);
    assert_eq!(px(160, 18), [150, 150, 150, 255]);
    assert_eq!(px(50, 32), [220, 220, 220, 255]);
    assert_eq!(px(105, 32), [180, 180, 180, 255]);
    assert_eq!(px(48, 17), [255, 255, 255, 255]);
    assert_eq!(px(60, 26), [255, 255, 255, 255]);
    assert!(buf.chunks(4).all(|p| p[3] == 255));
}

#[test]
fn uniform_labels() {
    assert_eq!(label_for_size(160), "mesh");
    assert_eq!(label_for_size(80), "chrome");
    assert_eq!(label_for_size(96), "splat");
    assert_eq!(label_for_size(0), "u");
}

#[test]
fn cursor_blinks_by_period() {
    assert!(cursor_shown(0, 500));
    assert!(cursor_shown(499, 500));
    assert!(!cursor_shown(500, 500));
    assert!(!cursor_shown(999, 500));
    assert!(cursor_shown(1000, 500));
    assert!(cursor_shown(12345, 0));
}

#[test]
fn osc52_only_non_empty_text_is_set() {
    assert_eq!(osc52_text_to_set(""), None);
    assert_eq!(osc52_text_to_set("x"), Some("x"));
    assert_eq!(osc52_text_to_set(" "), Some(" "));
}

#[test]
fn white_space_matches_std() {
    for u in (0u32..0x3100).chain(0xfef0..0xff10).chain([0x10ffff]) {
        if let Some(c) = char::from_u32(u) {
            assert_eq!(is_whitespace(c), c.is_whitespace(), "U+{:04X}", u);
        }
    }
    assert!(is_whitespace('\u{3000}'));
    assert!(!is_whitespace('\u{200b}'));
}
