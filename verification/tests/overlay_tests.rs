use mythterm::overlay::{palette_action, CommandPalette, PaletteAction, SearchAction, SearchOverlay};

#[test]
fn palette_has_five_commands() {
    let p = CommandPalette::new();
    assert_eq!(p.commands.len(), 5);
    assert_eq!(p.selected, 0);
    assert_eq!(p.query, "");
    let names: Vec<&str> = p.commands.iter().map(|c| c.name.as_str()).collect();
    assert_eq!(names, vec!["New Tab", "Close Tab", "Split Horizontal", "Split Vertical", "Search"]);
    assert_eq!(p.commands[0].shortcut.as_deref(), Some("Ctrl+Shift+T"));
    assert_eq!(p.commands[4].description, "Search in terminal output");
}

#[test]
fn empty_query_shows_everything() {
    let p = CommandPalette::new();
    assert_eq!(p.filtered_indices(), vec![0, 1, 2, 3, 4]);
}

#[test]
fn filter_ignores_case() {
    let mut p = CommandPalette::new();
    p.query = "TAB".to_string();
    assert_eq!(p.filtered_indices(), vec![0, 1]);
    p.query = "split".to_string();
    assert_eq!(p.filtered_indices(), vec![2, 3]);
    p.query = "se".to_string();
    assert_eq!(p.filtered_indices(), vec![1, 4]);
    p.query = "zzz".to_string();
    assert_eq!(p.filtered_indices(), Vec::<usize>::new());
}

#[test]
fn palette_commands_map_to_actions() {
    assert_eq!(palette_action("New Tab"), Some(PaletteAction::NewTab));
    assert_eq!(palette_action("Close Tab"), Some(PaletteAction::CloseTab));
    assert_eq!(palette_action("Search"), Some(PaletteAction::OpenSearch));
    assert_eq!(palette_action("Split Vertical"), None);
    assert_eq!(palette_action("new tab"), None);
}

#[test]
fn search_starts_empty() {
    let s = SearchOverlay::new();
    assert_eq!(s.query, "");
    assert!(!s.use_regex);
    assert_eq!(s.match_count, 0);
    assert_eq!(s.current_match, 0);
    assert_ne!(SearchAction::Idle, SearchAction::Close);
}
