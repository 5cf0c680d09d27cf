//! Session multiplexer model: windows hold tabs, tabs hold panes, and
//! activity tracking for panes.

use vstd::prelude::*;
use std::collections::HashMap;
use std::sync::Arc;
use vstd::std_specs::iter::IteratorSpec;

verus! {

/// Unique identifier for a window.
pub type WindowId = usize;

/// Unique identifier for a tab.
pub type TabId = usize;

/// Unique identifier for a pane.
pub type PaneId = usize;

/// Unique identifier for a mux domain.
pub type DomainId = usize;

/// A point in time on the monotonic clock.
#[verifier::external_type_specification]
#[verifier::external_body]
pub struct ExInstant(std::time::Instant);

/// Reads the monotonic clock (`std::time::Instant::now`). Nothing is
/// promised of the value: it depends on when the call is made.
#[verifier::external_body]
fn instant_now() -> std::time::Instant {
    std::time::Instant::now()
}

/// `Instant` is `Copy`: its `clone` returns the same instant.
pub assume_specification[ <std::time::Instant as Clone>::clone ](i: &std::time::Instant) -> (r:
    std::time::Instant)
    ensures
        r == *i,
;

/// Tracks activity (output, bell) in a pane/tab.
#[derive(Debug, Clone)]
pub struct Activity {
    last_output: std::time::Instant,
    has_bell: bool,
}

impl Activity {
    /// When output was last seen.
    pub closed spec fn last_output_time(&self) -> std::time::Instant {
        self.last_output
    }

    /// Whether a bell is pending.
    pub closed spec fn bell(&self) -> bool {
        self.has_bell
    }

    /// A tracker whose last output was at `now`, with no bell.
    pub fn starting_at(now: std::time::Instant) -> (r: Self)
        ensures
            r.last_output_time() == now,
            !r.bell(),
    {
        Activity { last_output: now, has_bell: false }
    }

    /// A fresh tracker: `starting_at` the clock's current reading.
    pub fn new() -> (r: Self)
        ensures
            !r.bell(),
    {
        Self::starting_at(instant_now())
    }

    /// Record that output arrived at `now`.
    pub fn record_output(&mut self, now: std::time::Instant)
        ensures
            final(self).last_output_time() == now,
            final(self).bell() == old(self).bell(),
    {
        self.last_output = now;
    }

    /// Record that output arrived now: `record_output` with the clock's
    /// current reading.
    pub fn mark_output(&mut self)
        ensures
            final(self).bell() == old(self).bell(),
    {
        self.record_output(instant_now());
    }

    /// Record a bell.
    pub fn mark_bell(&mut self)
        ensures
            final(self).bell(),
            final(self).last_output_time() == old(self).last_output_time(),
    {
        self.has_bell = true;
    }

    /// Acknowledge the bell.
    pub fn clear_bell(&mut self)
        ensures
            !final(self).bell(),
            final(self).last_output_time() == old(self).last_output_time(),
    {
        self.has_bell = false;
    }

    /// Whether a bell is pending.
    pub fn has_bell(&self) -> (r: bool)
        ensures
            r == self.bell(),
    {
        self.has_bell
    }

    /// When output was last seen.
    pub fn last_output(&self) -> (r: std::time::Instant)
        ensures
            r == self.last_output_time(),
    {
        self.last_output
    }
}

impl Default for Activity {
    fn default() -> (r: Self)
        ensures
            !r.bell(),
    {
        Self::new()
    }
}

/// What `remove_tab` and `Tab::remove_pane` do to the active index once an
/// entry has been taken out and `len` entries remain: step back when it
/// points past the end, unless it is already 0.
pub open spec fn active_after_removal(active: nat, len: nat) -> nat {
    if active >= len && active > 0 {
        (active - 1) as nat
    } else {
        active
    }
}

/// A window containing one or more tabs.
#[derive(Debug)]
pub struct Window {
    window_id: WindowId,
    /// The tabs in this window.
    tabs: Vec<TabId>,
    /// Index of the active tab.
    active_tab: usize,
}

impl Window {
    /// The active index points at a tab, or is 0 when there is none.
    pub closed spec fn wf(&self) -> bool {
        self.active_tab < self.tabs@.len() || (self.tabs@.len() == 0 && self.active_tab == 0)
    }

    /// The window's identifier.
    pub closed spec fn id(&self) -> WindowId {
        self.window_id
    }

    /// The tabs of the window, in order.
    pub closed spec fn tab_ids(&self) -> Seq<TabId> {
        self.tabs@
    }

    /// Index of the active tab.
    pub closed spec fn active_index(&self) -> nat {
        self.active_tab as nat
    }

    /// An empty window.
    pub fn new(window_id: WindowId) -> (r: Self)
        ensures
            r.wf(),
            r.id() == window_id,
            r.tab_ids() == Seq::<TabId>::empty(),
            r.active_index() == 0,
    {
        Window { window_id, tabs: Vec::new(), active_tab: 0 }
    }

    /// The window's identifier.
    pub fn window_id(&self) -> (r: WindowId)
        ensures
            r == self.id(),
    {
        self.window_id
    }

    /// The tabs of the window, in order.
    pub fn tabs(&self) -> (r: &[TabId])
        ensures
            r@ == self.tab_ids(),
    {
        self.tabs.as_slice()
    }

    /// The active tab, or `None` when the window has no tabs.
    pub fn active_tab(&self) -> (r: Option<TabId>)
        requires
            self.wf(),
        ensures
            r == (if self.active_index() < self.tab_ids().len() {
                Some(self.tab_ids()[self.active_index() as int])
            } else {
                None
            }),
            r is None <==> self.tab_ids().len() == 0,
    {
        if self.active_tab < self.tabs.len() {
            Some(self.tabs[self.active_tab])
        } else {
            None
        }
    }

    /// Append a tab and make it the active one.
    pub fn push_tab(&mut self, tab_id: TabId)
        requires
            old(self).wf(),
            old(self).tab_ids().len() < usize::MAX,
        ensures
            final(self).wf(),
            final(self).tab_ids() == old(self).tab_ids().push(tab_id),
            final(self).active_index() == old(self).tab_ids().len(),
            final(self).id() == old(self).id(),
    {
        self.tabs.push(tab_id);
        self.active_tab = self.tabs.len() - 1;
    }

    /// Remove the first occurrence of `tab_id`, if any. When the active index
    /// then points past the last tab it steps back by one.
    pub fn remove_tab(&mut self, tab_id: TabId)
        requires
            old(self).wf(),
        ensures
            final(self).wf(),
            final(self).id() == old(self).id(),
            match old(self).tab_ids().index_of_first(tab_id) {
                Some(pos) => {
                    &&& final(self).tab_ids() == old(self).tab_ids().remove(pos)
                    &&& final(self).active_index() == active_after_removal(
                        old(self).active_index(),
                        final(self).tab_ids().len(),
                    )
                },
                None => {
                    &&& final(self).tab_ids() == old(self).tab_ids()
                    &&& final(self).active_index() == old(self).active_index()
                },
            },
    {
        proof {
            self.tabs@.index_of_first_ensures(tab_id);
        }
        let n = self.tabs.len();
        let mut i: usize = 0;
        let mut found: Option<usize> = None;
        while i < n
            invariant
                n == self.tabs@.len(),
                i <= n,
                found is None ==> forall|j: int| 0 <= j < i ==> self.tabs@[j] != tab_id,
                found matches Some(p) ==> p < n && self.tabs@[p as int] == tab_id && forall|j: int|
                    0 <= j < p ==> self.tabs@[j] != tab_id,
            decreases n - i,
        {
            if found.is_none() && self.tabs[i] == tab_id {
                found = Some(i);
            }
            i = i + 1;
        }
        match found {
            Some(pos) => {
                proof {
                    assert(self.tabs@.contains(tab_id));
                    let fp = self.tabs@.index_of_first(tab_id)->0;
                    assert(!(fp < pos as int));
                    assert(!(pos < fp));
                }
                self.tabs.remove(pos);
                if self.active_tab >= self.tabs.len() && self.active_tab > 0 {
                    self.active_tab = self.active_tab - 1;
                }
            },
            None => {
                proof {
                    assert(!self.tabs@.contains(tab_id));
                }
            },
        }
    }
}

/// The zoom state after `toggle_zoom`: unzoom when the active pane is the
/// zoomed one, otherwise zoom the active pane.
pub open spec fn toggled_zoom(zoomed: Option<usize>, active: usize) -> Option<usize> {
    if zoomed == Some(active) {
        None
    } else {
        Some(active)
    }
}

/// The zoom state after the pane at `index` is removed: cleared when that
/// pane was zoomed, shifted down when a later pane was zoomed.
pub open spec fn zoom_after_removal(zoomed: Option<usize>, index: usize) -> Option<usize> {
    match zoomed {
        Some(z) => if z == index {
            None
        } else if z > index {
            Some((z - 1) as usize)
        } else {
            Some(z)
        },
        None => None,
    }
}

/// A tab containing one or more panes.
#[derive(Debug)]
pub struct Tab<P> {
    tab_id: TabId,
    /// The panes in this tab.
    panes: Vec<P>,
    /// Index of the active (focused) pane.
    active_pane: usize,
    /// Index of the zoomed pane, if any.
    zoomed_pane: Option<usize>,
}

impl<P> Tab<P> {
    /// The active index points at a pane, or is 0 when there is none.
    pub closed spec fn wf(&self) -> bool {
        self.active_pane < self.panes@.len() || (self.panes@.len() == 0 && self.active_pane == 0)
    }

    /// The tab's identifier.
    pub closed spec fn id(&self) -> TabId {
        self.tab_id
    }

    /// The panes of the tab, in order.
    pub closed spec fn pane_list(&self) -> Seq<P> {
        self.panes@
    }

    /// Index of the active pane.
    pub closed spec fn active_index(&self) -> usize {
        self.active_pane
    }

    /// Index of the zoomed pane, if any.
    pub closed spec fn zoom(&self) -> Option<usize> {
        self.zoomed_pane
    }

    /// A tab holding the single pane `pane`, which is active; nothing zoomed.
    pub fn new(tab_id: TabId, pane: P) -> (r: Self)
        ensures
            r.wf(),
            r.id() == tab_id,
            r.pane_list() == seq![pane],
            r.active_index() == 0,
            r.zoom() is None,
    {
        let mut panes: Vec<P> = Vec::new();
        panes.push(pane);
        Tab { tab_id, panes, active_pane: 0, zoomed_pane: None }
    }

    /// The tab's identifier.
    pub fn tab_id(&self) -> (r: TabId)
        ensures
            r == self.id(),
    {
        self.tab_id
    }

    /// The active pane, or `None` when the tab has no panes.
    pub fn get_active_pane(&self) -> (r: Option<P>) where P: Clone
        requires
            self.wf(),
        ensures
            r is None <==> self.pane_list().len() == 0,
            r matches Some(p) ==> cloned(self.pane_list()[self.active_index() as int], p),
    {
        if self.active_pane < self.panes.len() {
            Some(self.panes[self.active_pane].clone())
        } else {
            None
        }
    }

    /// The panes of the tab, in order.
    pub fn panes(&self) -> (r: &[P])
        ensures
            r@ == self.pane_list(),
    {
        self.panes.as_slice()
    }

    /// How many panes the tab has.
    pub fn pane_count(&self) -> (r: usize)
        ensures
            r == self.pane_list().len(),
    {
        self.panes.len()
    }

    /// Whether a pane is zoomed (temporarily fullscreen).
    pub fn is_zoomed(&self) -> (r: bool)
        ensures
            r == self.zoom() is Some,
    {
        self.zoomed_pane.is_some()
    }

    /// The zoomed pane index, if any.
    pub fn zoomed_pane(&self) -> (r: Option<usize>)
        ensures
            r == self.zoom(),
    {
        self.zoomed_pane
    }

    /// Toggle zoom on the active pane: unzoom it if it is the zoomed pane,
    /// otherwise zoom it.
    pub fn toggle_zoom(&mut self)
        ensures
            final(self).zoom() == toggled_zoom(old(self).zoom(), old(self).active_index()),
            final(self).pane_list() == old(self).pane_list(),
            final(self).active_index() == old(self).active_index(),
            final(self).id() == old(self).id(),
            old(self).wf() ==> final(self).wf(),
    {
        let zoomed_is_active = match self.zoomed_pane {
            Some(z) => z == self.active_pane,
            None => false,
        };
        if zoomed_is_active {
            self.zoomed_pane = None;
        } else {
            self.zoomed_pane = Some(self.active_pane);
        }
    }

    /// Set the active pane by index; an index past the last pane is ignored.
    pub fn set_active_pane(&mut self, index: usize)
        ensures
            final(self).active_index() == (if index < old(self).pane_list().len() {
                index
            } else {
                old(self).active_index()
            }),
            final(self).pane_list() == old(self).pane_list(),
            final(self).zoom() == old(self).zoom(),
            final(self).id() == old(self).id(),
            old(self).wf() ==> final(self).wf(),
    {
        if index < self.panes.len() {
            self.active_pane = index;
        }
    }

    /// Add a pane to the tab and make it active.
    pub fn add_pane(&mut self, pane: P)
        requires
            old(self).pane_list().len() < usize::MAX,
        ensures
            final(self).wf(),
            final(self).pane_list() == old(self).pane_list().push(pane),
            final(self).active_index() == old(self).pane_list().len(),
            final(self).zoom() == old(self).zoom(),
            final(self).id() == old(self).id(),
    {
        self.panes.push(pane);
        self.active_pane = self.panes.len() - 1;
    }

    /// Remove the pane at `index` and return it; `None` when there is no such pane.
    pub fn remove_pane(&mut self, index: usize) -> (r: Option<P>)
        requires
            old(self).wf(),
        ensures
            final(self).wf(),
            final(self).id() == old(self).id(),
            index < old(self).pane_list().len() ==> {
                &&& r == Some(old(self).pane_list()[index as int])
                &&& final(self).pane_list() == old(self).pane_list().remove(index as int)
                &&& final(self).active_index() as nat == active_after_removal(
                    old(self).active_index() as nat,
                    final(self).pane_list().len(),
                )
                &&& final(self).zoom() == zoom_after_removal(old(self).zoom(), index)
            },
            index >= old(self).pane_list().len() ==> {
                &&& r is None
                &&& *final(self) == *old(self)
            },
    {
        if index < self.panes.len() {
            let pane = self.panes.remove(index);
            if self.active_pane >= self.panes.len() && self.active_pane > 0 {
                self.active_pane = self.active_pane - 1;
            }
            match self.zoomed_pane {
                Some(z) => {
                    if z == index {
                        self.zoomed_pane = None;
                    } else if z > index {
                        self.zoomed_pane = Some(z - 1);
                    }
                },
                None => {},
            }
            Some(pane)
        } else {
            None
        }
    }
}

/// Toggling zoom twice gives back the zoom state, when nothing or the active
/// pane was zoomed to begin with.
pub proof fn law_toggle_zoom_twice(zoomed: Option<usize>, active: usize)
    requires
        zoomed is None || zoomed == Some(active),
    ensures
        toggled_zoom(toggled_zoom(zoomed, active), active) == zoomed,
{
}

/// The physical rows that are on screen: with `scrollback` rows above a
/// screen of `visible` rows, the last `visible` of all of them (all of them
/// when there are fewer). The range is `start..end`.
pub fn visible_line_range(scrollback: usize, visible: usize) -> (r: (usize, usize))
    requires
        scrollback + visible <= usize::MAX,
    ensures
        r.1 == scrollback + visible,
        r.0 == (if r.1 >= visible { r.1 - visible } else { 0 }),
        r.0 == scrollback,
{
    let total_lines = scrollback + visible;
    let start = if total_lines >= visible { total_lines - visible } else { 0 };
    (start, total_lines)
}

/// The cursor row as an index: rows above the screen (negative) count as row 0.
pub fn cursor_row(y: i64) -> (r: usize)
    requires
        y <= usize::MAX,
    ensures
        r == (if y < 0 { 0 } else { y }),
{
    if y < 0 { 0 } else { y as usize }
}

/// A split direction for pane splitting.
#[derive(Debug, Clone, Copy, PartialEq, Eq, Structural)]
pub enum SplitDirection {
    Horizontal,
    Vertical,
}

/// A request to split a pane.
#[derive(Debug, Clone)]
pub struct SplitRequest {
    pub pane_id: PaneId,
    pub direction: SplitDirection,
}

/// Cache policy for renderable content.
#[derive(Debug, Clone, Copy, PartialEq, Eq, Structural)]
pub enum CachePolicy {
    /// Cache is valid.
    Cache,
    /// Cache is not valid, re-render.
    NoCache,
}

/// State of a domain connection.
#[derive(Debug, Clone, Copy, PartialEq, Eq, Structural)]
pub enum DomainState {
    /// Domain is connected and ready.
    Connected,
    /// Domain is disconnected.
    Disconnected,
}

/// `Arc::clone`: another pointer to the same allocation, so the value it
/// points to is the same.
#[verifier::external_body]
fn share<T>(a: &Arc<T>) -> (r: Arc<T>)
    ensures
        r == *a,
{
    Arc::clone(a)
}

/// A terminal pane as the multiplexer sees it.
pub trait Pane {
    /// Returns the unique pane ID.
    fn pane_id(&self) -> PaneId;

    /// The pane title (usually the process name or command).
    fn get_title(&self) -> String;

    /// Whether the pane's process has exited.
    fn is_dead(&self) -> bool;

    /// Write input bytes to the pane's terminal.
    fn write_to_pty(&self, data: Vec<u8>);

    /// The visible lines of the terminal as text; none by default.
    fn get_visible_lines(&self) -> (r: Vec<String>)
        default_ensures
            r@.len() == 0,
    {
        Vec::new()
    }

    /// The cursor position (column, row); the origin by default.
    fn get_cursor_position(&self) -> (r: (usize, usize))
        default_ensures
            r == (0usize, 0usize),
    {
        (0, 0)
    }
}

/// Content of a pane that can be drawn.
pub trait Renderable {
    /// Returns the pane ID.
    fn pane_id(&self) -> PaneId;

    /// Add the lines (row, text) that need drawing again to `lines`.
    fn get_dirty_lines(&self, lines: &mut Vec<(usize, String)>);

    /// Mark lines as clean after drawing.
    fn clean_dirty_lines(&self, lines: &[usize]);
}

/// The top-level multiplexer (session manager): owns all windows, tabs and
/// panes by id, and hands out fresh ids.
pub struct Mux<P> {
    windows: HashMap<WindowId, Arc<Window>>,
    tabs: HashMap<TabId, Arc<Tab<P>>>,
    panes: HashMap<PaneId, P>,
    next_window_id: usize,
    next_tab_id: usize,
    next_pane_id: usize,
}

/// The id after `n`, wrapping at the end of the range like an atomic counter.
pub open spec fn next_id(n: usize) -> usize {
    if n == usize::MAX {
        0
    } else {
        (n + 1) as usize
    }
}

impl<P> Mux<P> {
    /// The registered windows by id.
    pub closed spec fn window_map(&self) -> Map<WindowId, Arc<Window>> {
        self.windows@
    }

    /// The registered tabs by id.
    pub closed spec fn tab_map(&self) -> Map<TabId, Arc<Tab<P>>> {
        self.tabs@
    }

    /// The registered panes by id.
    pub closed spec fn pane_map(&self) -> Map<PaneId, P> {
        self.panes@
    }

    /// The next window id to be handed out.
    pub closed spec fn window_counter(&self) -> usize {
        self.next_window_id
    }

    /// The next tab id to be handed out.
    pub closed spec fn tab_counter(&self) -> usize {
        self.next_tab_id
    }

    /// The next pane id to be handed out.
    pub closed spec fn pane_counter(&self) -> usize {
        self.next_pane_id
    }

    /// The id counters `(window, tab, pane)`.
    pub open spec fn counters(&self) -> (usize, usize, usize) {
        (self.window_counter(), self.tab_counter(), self.pane_counter())
    }

    /// The registries and counters other than `window_map` and
    /// `window_counter` are the same in both.
    pub open spec fn same_but_windows(&self, other: &Self) -> bool {
        &&& self.tab_map() == other.tab_map()
        &&& self.pane_map() == other.pane_map()
        &&& self.tab_counter() == other.tab_counter()
        &&& self.pane_counter() == other.pane_counter()
    }

    /// Everything but `tab_map` and `tab_counter` is the same in both.
    pub open spec fn same_but_tabs(&self, other: &Self) -> bool {
        &&& self.window_map() == other.window_map()
        &&& self.pane_map() == other.pane_map()
        &&& self.window_counter() == other.window_counter()
        &&& self.pane_counter() == other.pane_counter()
    }

    /// Everything but `pane_map` and `pane_counter` is the same in both.
    pub open spec fn same_but_panes(&self, other: &Self) -> bool {
        &&& self.window_map() == other.window_map()
        &&& self.tab_map() == other.tab_map()
        &&& self.window_counter() == other.window_counter()
        &&& self.tab_counter() == other.tab_counter()
    }

    /// An empty multiplexer whose counters start at 0.
    pub fn new() -> (r: Self)
        ensures
            r.window_map() == Map::<WindowId, Arc<Window>>::empty(),
            r.tab_map() == Map::<TabId, Arc<Tab<P>>>::empty(),
            r.pane_map() == Map::<PaneId, P>::empty(),
            r.window_counter() == 0,
            r.tab_counter() == 0,
            r.pane_counter() == 0,
    {
        Mux {
            windows: HashMap::new(),
            tabs: HashMap::new(),
            panes: HashMap::new(),
            next_window_id: 0,
            next_tab_id: 0,
            next_pane_id: 0,
        }
    }

    /// Hand out the next window id.
    pub fn alloc_window_id(&mut self) -> (r: WindowId)
        ensures
            r == old(self).window_counter(),
            final(self).window_counter() == next_id(r),
            final(self).counters() == counters_after(old(self).counters(), seq![IdCounter::Window]),
            final(self).window_map() == old(self).window_map(),
            final(self).same_but_windows(old(self)),
    {
        let r = self.next_window_id;
        self.next_window_id = r.wrapping_add(1);
        proof {
            let c = old(self).counters();
            assert(seq![IdCounter::Window].drop_last() =~= Seq::<IdCounter>::empty());
            assert(counters_after(c, Seq::<IdCounter>::empty()) == c);
            assert(seq![IdCounter::Window].last() == IdCounter::Window);
        }
        r
    }

    /// Hand out the next tab id.
    pub fn alloc_tab_id(&mut self) -> (r: TabId)
        ensures
            r == old(self).tab_counter(),
            final(self).tab_counter() == next_id(r),
            final(self).counters() == counters_after(old(self).counters(), seq![IdCounter::Tab]),
            final(self).tab_map() == old(self).tab_map(),
            final(self).same_but_tabs(old(self)),
    {
        let r = self.next_tab_id;
        self.next_tab_id = r.wrapping_add(1);
        proof {
            let c = old(self).counters();
            assert(seq![IdCounter::Tab].drop_last() =~= Seq::<IdCounter>::empty());
            assert(counters_after(c, Seq::<IdCounter>::empty()) == c);
            assert(seq![IdCounter::Tab].last() == IdCounter::Tab);
        }
        r
    }

    /// Hand out the next pane id.
    pub fn alloc_pane_id(&mut self) -> (r: PaneId)
        ensures
            r == old(self).pane_counter(),
            final(self).pane_counter() == next_id(r),
            final(self).counters() == counters_after(old(self).counters(), seq![IdCounter::Pane]),
            final(self).pane_map() == old(self).pane_map(),
            final(self).same_but_panes(old(self)),
    {
        let r = self.next_pane_id;
        self.next_pane_id = r.wrapping_add(1);
        proof {
            let c = old(self).counters();
            assert(seq![IdCounter::Pane].drop_last() =~= Seq::<IdCounter>::empty());
            assert(counters_after(c, Seq::<IdCounter>::empty()) == c);
            assert(seq![IdCounter::Pane].last() == IdCounter::Pane);
        }
        r
    }

    /// The window registered under `id`.
    pub fn get_window(&self, id: WindowId) -> (r: Option<Arc<Window>>)
        ensures
            r == (if self.window_map().contains_key(id) {
                Some(self.window_map()[id])
            } else {
                None
            }),
    {
        broadcast use vstd::std_specs::hash::group_hash_axioms;

        match self.windows.get(&id) {
            Some(w) => Some(share(w)),
            None => None,
        }
    }

    /// The tab registered under `id`.
    pub fn get_tab(&self, id: TabId) -> (r: Option<Arc<Tab<P>>>)
        ensures
            r == (if self.tab_map().contains_key(id) {
                Some(self.tab_map()[id])
            } else {
                None
            }),
    {
        broadcast use vstd::std_specs::hash::group_hash_axioms;

        match self.tabs.get(&id) {
            Some(t) => Some(share(t)),
            None => None,
        }
    }

    /// The pane registered under `id`.
    pub fn get_pane(&self, id: PaneId) -> (r: Option<P>) where P: Clone
        ensures
            r is Some <==> self.pane_map().contains_key(id),
            r matches Some(p) ==> cloned(self.pane_map()[id], p),
    {
        broadcast use vstd::std_specs::hash::group_hash_axioms;

        match self.panes.get(&id) {
            Some(p) => Some(p.clone()),
            None => None,
        }
    }

    /// All registered windows, each once, in the map's own order.
    pub fn iter_windows(&self) -> (r: Vec<Arc<Window>>)
        ensures
            r@.len() == self.window_map().dom().len(),
            r@.to_set() == self.window_map().values(),
    {
        broadcast use vstd::std_specs::hash::group_hash_axioms;

        let ghost vals = vstd::std_specs::hash::spec_values_iter(&self.windows).remaining().unref();
        let mut r: Vec<Arc<Window>> = Vec::new();
        for w in it: self.windows.values()
            invariant
                it.seq() == vstd::std_specs::hash::spec_values_iter(&self.windows).remaining(),
                vals == it.seq().unref(),
                r@ == vals.take(it.index()),
        {
            r.push(share(w));
        }
        proof {
            assert(r@ =~= vals);
        }
        r
    }

    /// All registered tabs, each once, in the map's own order.
    pub fn iter_tabs(&self) -> (r: Vec<Arc<Tab<P>>>)
        ensures
            r@.len() == self.tab_map().dom().len(),
            r@.to_set() == self.tab_map().values(),
    {
        broadcast use vstd::std_specs::hash::group_hash_axioms;

        let ghost vals = vstd::std_specs::hash::spec_values_iter(&self.tabs).remaining().unref();
        let mut r: Vec<Arc<Tab<P>>> = Vec::new();
        for w in it: self.tabs.values()
            invariant
                it.seq() == vstd::std_specs::hash::spec_values_iter(&self.tabs).remaining(),
                vals == it.seq().unref(),
                r@ == vals.take(it.index()),
        {
            r.push(share(w));
        }
        proof {
            assert(r@ =~= vals);
        }
        r
    }

    /// All registered panes, each once, in the map's own order.
    pub fn iter_panes(&self) -> (r: Vec<P>) where P: Clone
        ensures
            r@.len() == self.pane_map().dom().len(),
            exists|vals: Seq<P>|
                {
                    &&& vals.len() == r@.len()
                    &&& vals.to_set() == self.pane_map().values()
                    &&& forall|i: int| 0 <= i < vals.len() ==> cloned(vals[i], #[trigger] r@[i])
                },
    {
        broadcast use vstd::std_specs::hash::group_hash_axioms;

        let ghost vals = vstd::std_specs::hash::spec_values_iter(&self.panes).remaining().unref();
        let mut r: Vec<P> = Vec::new();
        for w in it: self.panes.values()
            invariant
                it.seq() == vstd::std_specs::hash::spec_values_iter(&self.panes).remaining(),
                vals == it.seq().unref(),
                r@.len() == it.index(),
                forall|i: int| 0 <= i < it.index() ==> cloned(vals[i], #[trigger] r@[i]),
        {
            r.push(w.clone());
        }
        r
    }

    /// Register `window` under its own id, replacing any window there.
    pub fn insert_window(&mut self, window: Arc<Window>)
        ensures
            final(self).window_map() == old(self).window_map().insert(window.id(), window),
            final(self).window_counter() == old(self).window_counter(),
            final(self).same_but_windows(old(self)),
    {
        broadcast use vstd::std_specs::hash::group_hash_axioms;

        let id = window.window_id();
        self.windows.insert(id, window);
    }

    /// Register `tab` under its own id, replacing any tab there.
    pub fn insert_tab(&mut self, tab: Arc<Tab<P>>)
        ensures
            final(self).tab_map() == old(self).tab_map().insert(tab.id(), tab),
            final(self).tab_counter() == old(self).tab_counter(),
            final(self).same_but_tabs(old(self)),
    {
        broadcast use vstd::std_specs::hash::group_hash_axioms;

        let id = tab.tab_id();
        self.tabs.insert(id, tab);
    }

    /// Register `pane` under `id`, replacing any pane there.
    pub fn insert_pane_with_id(&mut self, id: PaneId, pane: P)
        ensures
            final(self).pane_map() == old(self).pane_map().insert(id, pane),
            final(self).pane_counter() == old(self).pane_counter(),
            final(self).same_but_panes(old(self)),
    {
        broadcast use vstd::std_specs::hash::group_hash_axioms;

        self.panes.insert(id, pane);
    }

    /// Register `pane` under the id its `pane_id` reports, replacing any
    /// pane there: `insert_pane_with_id` with that id.
    pub fn insert_pane(&mut self, pane: P) where P: Pane
        ensures
            exists|id: PaneId|
                call_ensures(P::pane_id, (&pane,), id) && final(self).pane_map() == old(
                    self,
                ).pane_map().insert(id, pane),
            final(self).pane_counter() == old(self).pane_counter(),
            final(self).same_but_panes(old(self)),
    {
        let id = pane.pane_id();
        self.insert_pane_with_id(id, pane);
    }

    /// Unregister the window under `id` and return it.
    pub fn remove_window(&mut self, id: WindowId) -> (r: Option<Arc<Window>>)
        ensures
            r == (if old(self).window_map().contains_key(id) {
                Some(old(self).window_map()[id])
            } else {
                None
            }),
            final(self).window_map() == old(self).window_map().remove(id),
            final(self).window_counter() == old(self).window_counter(),
            final(self).same_but_windows(old(self)),
    {
        broadcast use vstd::std_specs::hash::group_hash_axioms;

        self.windows.remove(&id)
    }

    /// Unregister the tab under `id` and return it.
    pub fn remove_tab(&mut self, id: TabId) -> (r: Option<Arc<Tab<P>>>)
        ensures
            r == (if old(self).tab_map().contains_key(id) {
                Some(old(self).tab_map()[id])
            } else {
                None
            }),
            final(self).tab_map() == old(self).tab_map().remove(id),
            final(self).tab_counter() == old(self).tab_counter(),
            final(self).same_but_tabs(old(self)),
    {
        broadcast use vstd::std_specs::hash::group_hash_axioms;

        self.tabs.remove(&id)
    }

    /// Unregister the pane under `id` and return it.
    pub fn remove_pane(&mut self, id: PaneId) -> (r: Option<P>)
        ensures
            r == (if old(self).pane_map().contains_key(id) {
                Some(old(self).pane_map()[id])
            } else {
                None
            }),
            final(self).pane_map() == old(self).pane_map().remove(id),
            final(self).pane_counter() == old(self).pane_counter(),
            final(self).same_but_panes(old(self)),
    {
        broadcast use vstd::std_specs::hash::group_hash_axioms;

        self.panes.remove(&id)
    }
}

impl<P> Default for Mux<P> {
    fn default() -> (r: Self)
        ensures
            r.window_map() == Map::<WindowId, Arc<Window>>::empty(),
            r.tab_map() == Map::<TabId, Arc<Tab<P>>>::empty(),
            r.pane_map() == Map::<PaneId, P>::empty(),
            r.window_counter() == 0,
            r.tab_counter() == 0,
            r.pane_counter() == 0,
    {
        Self::new()
    }
}

/// The counter after `k` allocations starting from `start`.
pub open spec fn id_after(start: usize, k: nat) -> usize
    decreases k,
{
    if k == 0 {
        start
    } else {
        next_id(id_after(start, (k - 1) as nat))
    }
}

/// Ids are handed out as 0, 1, 2, ... from a fresh counter.
proof fn lemma_id_after_zero(k: nat)
    requires
        k <= usize::MAX,
    ensures
        id_after(0, k) == k,
    decreases k,
{
    if k > 0 {
        lemma_id_after_zero((k - 1) as nat);
    }
}

/// A fresh multiplexer hands out the ids 0, 1, 2, ... in turn, so no id
/// repeats before the counter has gone once round the whole range.
pub proof fn law_fresh_ids_distinct(i: nat, j: nat)
    requires
        i < j <= usize::MAX,
    ensures
        id_after(0, i) == i,
        id_after(0, i) != id_after(0, j),
{
    lemma_id_after_zero(i);
    lemma_id_after_zero(j);
}

/// Two allocations in a row never hand out the same id.
pub proof fn law_consecutive_ids_differ(n: usize)
    ensures
        next_id(n) != n,
{
}

/// What a registry gives back after an insert or a remove: the value just
/// inserted under its key, nothing under a removed key, and every other key
/// untouched.
pub proof fn law_registry_read_back<V>(m: Map<usize, V>, k: usize, v: V, other: usize)
    requires
        other != k,
    ensures
        m.insert(k, v).contains_key(k),
        m.insert(k, v)[k] == v,
        !m.remove(k).contains_key(k),
        m.insert(k, v).contains_key(other) == m.contains_key(other),
        m.contains_key(other) ==> m.insert(k, v)[other] == m[other],
        m.remove(k).contains_key(other) == m.contains_key(other),
        m.contains_key(other) ==> m.remove(k)[other] == m[other],
{
}

/// Pushing a tab that the window does not hold yet and then removing it
/// gives back the window's tab list.
pub proof fn law_push_then_remove_tab(tabs: Seq<TabId>, t: TabId)
    requires
        !tabs.contains(t),
    ensures
        tabs.push(t).index_of_first(t) == Some(tabs.len() as int),
        tabs.push(t).remove(tabs.len() as int) == tabs,
{
    let s = tabs.push(t);
    s.index_of_first_ensures(t);
    assert(s[tabs.len() as int] == t);
    assert(s.contains(t));
    let i = s.index_of_first(t)->0;
    if i < tabs.len() {
        assert(tabs[i] == t);
    }
    assert(s.remove(tabs.len() as int) =~= tabs);
}

/// Adding a pane and then removing the last pane gives back the tab's panes.
pub proof fn law_add_then_remove_pane<P>(panes: Seq<P>, p: P)
    ensures
        panes.push(p).remove(panes.len() as int) == panes,
        panes.push(p)[panes.len() as int] == p,
{
    assert(panes.push(p).remove(panes.len() as int) =~= panes);
}

/// The three id counters of a `Mux`, for describing a run of allocations.
#[derive(Debug, Clone, Copy, PartialEq, Eq, Structural)]
pub enum IdCounter {
    Window,
    Tab,
    Pane,
}

/// The counters `(window, tab, pane)` of a `Mux` after the allocation calls
/// `calls`, starting from `start`: `alloc_window_id`, `alloc_tab_id` and
/// `alloc_pane_id` each advance their own counter and leave the others.
pub open spec fn counters_after(start: (usize, usize, usize), calls: Seq<IdCounter>) -> (
    usize,
    usize,
    usize,
)
    decreases calls.len(),
{
    if calls.len() == 0 {
        start
    } else {
        let c = counters_after(start, calls.drop_last());
        match calls.last() {
            IdCounter::Window => (next_id(c.0), c.1, c.2),
            IdCounter::Tab => (c.0, next_id(c.1), c.2),
            IdCounter::Pane => (c.0, c.1, next_id(c.2)),
        }
    }
}

/// How many of `calls` allocate from `counter`.
pub open spec fn calls_of(calls: Seq<IdCounter>, counter: IdCounter) -> nat
    decreases calls.len(),
{
    if calls.len() == 0 {
        0
    } else {
        calls_of(calls.drop_last(), counter) + (if calls.last() == counter {
            1nat
        } else {
            0nat
        })
    }
}

/// From a fresh `Mux`, each counter stands at the number of allocations made
/// from it, whatever allocations from the other counters come in between
/// (while none has gone round its range). So the `k`-th pane id handed out
/// is `k - 1`: pane ids come out as 0, 1, 2, ..., and likewise window and
/// tab ids.
pub proof fn law_counters_count_calls(calls: Seq<IdCounter>)
    requires
        calls.len() <= usize::MAX,
    ensures
        counters_after((0, 0, 0), calls) == (
            calls_of(calls, IdCounter::Window) as usize,
            calls_of(calls, IdCounter::Tab) as usize,
            calls_of(calls, IdCounter::Pane) as usize,
        ),
        calls_of(calls, IdCounter::Window) <= calls.len(),
        calls_of(calls, IdCounter::Tab) <= calls.len(),
        calls_of(calls, IdCounter::Pane) <= calls.len(),
    decreases calls.len(),
{
    if calls.len() > 0 {
        law_counters_count_calls(calls.drop_last());
    }
}

/// Allocation runs compose: the counters after `a` then `b` are those after
/// `a + b`.
pub proof fn law_counters_after_concat(
    start: (usize, usize, usize),
    a: Seq<IdCounter>,
    b: Seq<IdCounter>,
)
    ensures
        counters_after(counters_after(start, a), b) == counters_after(start, a + b),
    decreases b.len(),
{
    if b.len() == 0 {
        assert(a + b =~= a);
    } else {
        law_counters_after_concat(start, a, b.drop_last());
        assert((a + b).drop_last() =~= a + b.drop_last());
        assert((a + b).last() == b.last());
    }
}

/// Removing an entry keeps the active index where it is while it still
/// points at an entry, steps it back by one when it fell off the end, and
/// always leaves it on an entry when any remain.
pub proof fn law_active_after_removal(active: nat, len: nat)
    ensures
        active < len ==> active_after_removal(active, len) == active,
        active == len && len > 0 ==> active_after_removal(active, len) == len - 1,
        active <= len && len > 0 ==> active_after_removal(active, len) < len,
        len == 0 && active <= 1 ==> active_after_removal(active, len) == 0,
{
}

} // verus!
