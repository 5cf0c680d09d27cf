use mythterm::mux::{
    cursor_row, visible_line_range, Activity, Mux, Pane, Tab, Window,
};
use std::sync::Arc;

#[derive(Debug, Clone, PartialEq)]
struct TestPane {
    id: usize,
    title: String,
}

impl Pane for TestPane {
    fn pane_id(&self) -> usize {
        self.id
    }
    fn get_title(&self) -> String {
        self.title.clone()
    }
    fn is_dead(&self) -> bool {
        false
    }
    fn write_to_pty(&self, _data: Vec<u8>) {}
}

fn pane(id: usize) -> TestPane {
    TestPane { id, title: format!("pane {}", id) }
}

#[test]
fn window_tabs_and_active_tab() {
    let mut w = Window::new(7);
    assert_eq!(w.window_id(), 7);
    assert_eq!(w.active_tab(), None);
    w.push_tab(1);
    w.push_tab(2);
    w.push_tab(3);
    assert_eq!(w.tabs(), &[1, 2, 3]);
    assert_eq!(w.active_tab(), Some(3));
    w.remove_tab(3);
    assert_eq!(w.tabs(), &[1, 2]);
    assert_eq!(w.active_tab(), Some(2));
    w.remove_tab(9);
    assert_eq!(w.tabs(), &[1, 2]);
    w.remove_tab(1);
    assert_eq!(w.tabs(), &[2]);
    assert_eq!(w.active_tab(), Some(2));
    w.remove_tab(2);
    assert_eq!(w.active_tab(), None);
}

#[test]
fn tab_panes_and_zoom() {
    let mut t = Tab::new(4, pane(10));
    assert_eq!(t.tab_id(), 4);
    assert_eq!(t.pane_count(), 1);
    assert_eq!(t.get_active_pane(), Some(pane(10)));
    t.add_pane(pane(11));
    t.add_pane(pane(12));
    assert_eq!(t.get_active_pane(), Some(pane(12)));
    t.set_active_pane(1);
    assert_eq!(t.get_active_pane(), Some(pane(11)));
    t.set_active_pane(5);
    assert_eq!(t.get_active_pane(), Some(pane(11)));
    assert!(!t.is_zoomed());
    t.toggle_zoom();
    assert_eq!(t.zoomed_pane(), Some(1));
    t.toggle_zoom();
    assert_eq!(t.zoomed_pane(), None);
}

#[test]
fn removing_panes_fixes_active_and_zoom() {
    let mut t = Tab::new(0, pane(1));
    t.add_pane(pane(2));
    t.add_pane(pane(3));
    t.set_active_pane(2);
    t.toggle_zoom();
    assert_eq!(t.remove_pane(0), Some(pane(1)));
    assert_eq!(t.pane_count(), 2);
    assert_eq!(t.zoomed_pane(), Some(1));
    assert_eq!(t.get_active_pane(), Some(pane(3)));
    assert_eq!(t.remove_pane(1), Some(pane(3)));
    assert_eq!(t.zoomed_pane(), None);
    assert_eq!(t.get_active_pane(), Some(pane(2)));
    assert_eq!(t.remove_pane(4), None);
    assert_eq!(t.panes(), &[pane(2)]);
}

#[test]
fn zoom_toggles_back() {
    let mut t = Tab::new(0, pane(1));
    t.add_pane(pane(2));
    t.toggle_zoom();
    t.toggle_zoom();
    assert!(!t.is_zoomed());
}

#[test]
fn fresh_ids_count_up() {
    let mut m: Mux<TestPane> = Mux::new();
    assert_eq!(m.alloc_window_id(), 0);
    assert_eq!(m.alloc_window_id(), 1);
    assert_eq!(m.alloc_tab_id(), 0);
    assert_eq!(m.alloc_pane_id(), 0);
    assert_eq!(m.alloc_pane_id(), 1);
    assert_eq!(m.alloc_pane_id(), 2);
    assert_eq!(m.alloc_tab_id(), 1);
}

#[test]
fn registry_reads_back_what_was_inserted() {
    let mut m: Mux<TestPane> = Mux::default();
    let wid = m.alloc_window_id();
    m.insert_window(Arc::new(Window::new(wid)));
    assert_eq!(m.get_window(wid).map(|w| w.window_id()), Some(wid));
    assert!(m.get_window(wid + 1).is_none());

    let pid = m.alloc_pane_id();
    m.insert_pane(pane(pid));
    assert_eq!(m.get_pane(pid), Some(pane(pid)));

    let tid = m.alloc_tab_id();
    m.insert_tab(Arc::new(Tab::new(tid, pane(pid))));
    assert_eq!(m.get_tab(tid).map(|t| t.tab_id()), Some(tid));

    assert_eq!(m.remove_pane(pid), Some(pane(pid)));
    assert_eq!(m.get_pane(pid), None);
    assert_eq!(m.remove_pane(pid), None);
    assert!(m.remove_tab(tid).is_some());
    assert!(m.get_tab(tid).is_none());
    assert!(m.remove_window(wid).is_some());
    assert!(m.remove_window(wid).is_none());
}

#[test]
fn insert_replaces_same_id() {
    let mut m: Mux<TestPane> = Mux::new();
    m.insert_pane(TestPane { id: 3, title: "old".to_string() });
    m.insert_pane(TestPane { id: 3, title: "new".to_string() });
    assert_eq!(m.iter_panes().len(), 1);
    assert_eq!(m.get_pane(3).unwrap().title, "new");
}

#[test]
fn iterators_list_everything_once() {
    let mut m: Mux<TestPane> = Mux::new();
    for id in [5usize, 1, 9] {
        m.insert_pane(pane(id));
        m.insert_window(Arc::new(Window::new(id)));
        m.insert_tab(Arc::new(Tab::new(id, pane(id))));
    }
    let mut ids: Vec<usize> = m.iter_panes().iter().map(|p| p.id).collect();
    ids.sort();
    assert_eq!(ids, vec![1, 5, 9]);
    let mut wids: Vec<usize> = m.iter_windows().iter().map(|w| w.window_id()).collect();
    wids.sort();
    assert_eq!(wids, vec![1, 5, 9]);
    let mut tids: Vec<usize> = m.iter_tabs().iter().map(|t| t.tab_id()).collect();
    tids.sort();
    assert_eq!(tids, vec![1, 5, 9]);
}

#[test]
fn activity_bell() {
    let mut a = Activity::new();
    assert!(!a.has_bell());
    let t = a.last_output();
    a.mark_bell();
    assert!(a.has_bell());
    assert_eq!(a.last_output(), t);
    a.clear_bell();
    assert!(!a.has_bell());
    a.mark_output();
    assert!(a.last_output() >= t);
    assert!(!Activity::default().has_bell());
}

#[test]
fn visible_rows() {
    assert_eq!(visible_line_range(100, 24), (100, 124));
    assert_eq!(visible_line_range(0, 24), (0, 24));
    assert_eq!(cursor_row(-3), 0);
    assert_eq!(cursor_row(5), 5);
}

#[test]
fn push_then_remove_tab_restores_tabs() {
    let mut w = Window::new(0);
    w.push_tab(4);
    w.push_tab(6);
    w.push_tab(9);
    w.remove_tab(9);
    assert_eq!(w.tabs(), &[4, 6]);
}

#[test]
fn add_then_remove_last_pane_restores_panes() {
    let mut t = Tab::new(0, pane(1));
    t.add_pane(pane(2));
    t.add_pane(pane(3));
    assert_eq!(t.remove_pane(2), Some(pane(3)));
    assert_eq!(t.panes(), &[pane(1), pane(2)]);
}

#[test]
fn activity_records_the_given_instant() {
    let t0 = std::time::Instant::now();
    let mut a = Activity::starting_at(t0);
    assert_eq!(a.last_output(), t0);
    assert!(!a.has_bell());
    a.mark_bell();
    let t1 = t0 + std::time::Duration::from_secs(5);
    a.record_output(t1);
    assert_eq!(a.last_output(), t1);
    assert!(a.has_bell());
}

#[test]
fn pane_ids_count_up_between_other_allocations() {
    let mut m: Mux<TestPane> = Mux::new();
    assert_eq!(m.alloc_pane_id(), 0);
    assert_eq!(m.alloc_window_id(), 0);
    assert_eq!(m.alloc_tab_id(), 0);
    assert_eq!(m.alloc_pane_id(), 1);
    assert_eq!(m.alloc_tab_id(), 1);
    assert_eq!(m.alloc_window_id(), 1);
    assert_eq!(m.alloc_pane_id(), 2);
}

#[test]
fn panes_land_under_their_own_id() {
    let mut m: Mux<TestPane> = Mux::new();
    m.insert_pane(pane(42));
    assert_eq!(m.get_pane(42), Some(pane(42)));
    assert_eq!(m.get_pane(0), None);
    m.insert_pane_with_id(7, pane(3));
    assert_eq!(m.get_pane(7), Some(pane(3)));
}
