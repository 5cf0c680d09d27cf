//! Application UI state: tabs shown in the tab bar and open overlays.

use vstd::prelude::*;
use vstd::string::StringSliceAdditionalSpecFns;

verus! {

/// Cursor style.
#[derive(Debug, Clone, Copy, PartialEq, Eq, Structural)]
pub enum CursorStyle {
    /// Solid block cursor.
    Block,
    /// Vertical beam cursor.
    Beam,
    /// Underline cursor.
    Underline,
}

/// What a click in the tab bar asks for.
#[derive(Debug, Clone, Copy, PartialEq, Eq, Structural)]
pub enum TabBarClick {
    /// The tab at this index became the active one.
    Switched(usize),
    /// The `+` button was clicked: a new tab is wanted.
    NewTab,
}

/// The main application state for the UI.
pub struct AppState {
    /// Currently active tab index.
    pub active_tab: usize,
    /// Tab titles.
    pub tab_titles: Vec<String>,
    /// Whether the command palette is open.
    pub command_palette_open: bool,
    /// Whether the search overlay is open.
    pub search_open: bool,
    /// Search query.
    pub search_query: String,
}

impl Default for AppState {
    /// One tab titled "Tab 1", active; no overlay open; empty query.
    fn default() -> (r: Self)
        ensures
            r.active_tab == 0,
            r.tab_titles@.len() == 1,
            r.tab_titles@[0]@ == "Tab 1"@,
            !r.command_palette_open,
            !r.search_open,
            r.search_query@ == Seq::<char>::empty(),
    {
        let mut tab_titles: Vec<String> = Vec::new();
        tab_titles.push("Tab 1".to_owned());
        AppState {
            active_tab: 0,
            tab_titles,
            command_palette_open: false,
            search_open: false,
            search_query: String::new(),
        }
    }
}

impl AppState {
    /// Handle the index the tab bar reports as clicked: an index of a tab
    /// makes it active; the index one past the last tab is the `+` button.
    pub fn tab_bar_clicked(&mut self, clicked: usize) -> (r: TabBarClick)
        ensures
            clicked < old(self).tab_titles@.len() ==> r == TabBarClick::Switched(clicked)
                && final(self).active_tab == clicked,
            clicked >= old(self).tab_titles@.len() ==> r == TabBarClick::NewTab
                && final(self).active_tab == old(self).active_tab,
            final(self).tab_titles@ == old(self).tab_titles@,
            final(self).command_palette_open == old(self).command_palette_open,
            final(self).search_open == old(self).search_open,
            final(self).search_query@ == old(self).search_query@,
    {
        if clicked < self.tab_titles.len() {
            self.active_tab = clicked;
            TabBarClick::Switched(clicked)
        } else {
            TabBarClick::NewTab
        }
    }
}


/// The longest UTF-8 byte length among the first `k` lines (0 for none).
pub open spec fn longest_line(lines: Seq<String>, k: nat) -> nat
    decreases k,
{
    if k == 0 {
        0
    } else {
        let before = longest_line(lines, (k - 1) as nat);
        let here = vstd::utf8::encode_utf8(lines[k - 1]@).len();
        if here > before {
            here
        } else {
            before
        }
    }
}

/// The grid a terminal widget needs for `lines` of text, as `(cols, rows)`:
/// one row per line but at least one, and as many columns as the longest
/// line has bytes, or 80 when there are no lines.
pub fn content_grid_size(lines: &[String]) -> (r: (usize, usize))
    ensures
        r.1 == (if lines@.len() > 1 { lines@.len() } else { 1 }),
        r.0 == (if lines@.len() == 0 { 80 } else { longest_line(lines@, lines@.len()) }),
{
    let n = lines.len();
    let rows = if n > 1 { n } else { 1 };
    if n == 0 {
        return (80, rows);
    }
    let mut cols: usize = 0;
    let mut i: usize = 0;
    while i < n
        invariant
            n == lines@.len(),
            i <= n,
            cols == longest_line(lines@, i as nat),
        decreases n - i,
    {
        let st = lines[i].as_str();
        let len = st.as_bytes().len();
        assert(st@ == lines@[i as int]@);
        assert(len == vstd::utf8::encode_utf8(lines@[i as int]@).len());
        if len > cols {
            cols = len;
        }
        i = i + 1;
    }
    (cols, rows)
}

/// Whether a blinking cursor is drawn at `time_ms` milliseconds: it shows
/// during the even-numbered `blink_ms` periods and hides during the odd
/// ones; with `blink_ms` 0 it does not blink and always shows.
pub fn cursor_shown(time_ms: u64, blink_ms: u64) -> (r: bool)
    ensures
        r == (blink_ms == 0 || (time_ms / blink_ms) % 2 == 0),
{
    if blink_ms > 0 {
        let phase = time_ms / blink_ms;
        phase % 2 == 0
    } else {
        true
    }
}

/// The widest of the first `k` lines: no line is wider, and when there is
/// a line, one of them is exactly that wide.
pub proof fn law_longest_line_is_widest(lines: Seq<String>, k: nat)
    requires
        k <= lines.len(),
    ensures
        forall|i: int|
            0 <= i < k ==> vstd::utf8::encode_utf8(#[trigger] lines[i]@).len() <= longest_line(
                lines,
                k,
            ),
        k > 0 ==> exists|i: int|
            0 <= i < k && vstd::utf8::encode_utf8(#[trigger] lines[i]@).len() == longest_line(
                lines,
                k,
            ),
    decreases k,
{
    if k > 0 {
        law_longest_line_is_widest(lines, (k - 1) as nat);
        if k > 1 {
            let before = longest_line(lines, (k - 1) as nat);
            let here = vstd::utf8::encode_utf8(lines[k - 1]@).len();
            if here <= before {
                let i = choose|i: int|
                    0 <= i < k - 1 && vstd::utf8::encode_utf8(#[trigger] lines[i]@).len() == before;
                assert(vstd::utf8::encode_utf8(lines[i]@).len() == longest_line(lines, k));
            } else {
                assert(vstd::utf8::encode_utf8(lines[k - 1]@).len() == longest_line(lines, k));
            }
        } else {
            assert(longest_line(lines, 0) == 0);
            assert(vstd::utf8::encode_utf8(lines[0]@).len() == longest_line(lines, k));
        }
    }
}

} // verus!
