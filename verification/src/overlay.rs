//! Overlays drawn over the terminal: text search and the command palette.

use vstd::prelude::*;

use crate::text::{chars_of, contains_chars, contains_seq, lowercase, same_text, to_lowercase};

verus! {

/// Search overlay state for finding text in the terminal.
pub struct SearchOverlay {
    /// The search query.
    pub query: String,
    /// Whether to use regex.
    pub use_regex: bool,
    /// Number of matches found.
    pub match_count: usize,
    /// Current match index.
    pub current_match: usize,
}

impl SearchOverlay {
    /// An empty search: no query, plain text, no matches.
    pub fn new() -> (r: Self)
        ensures
            r.query@ == Seq::<char>::empty(),
            !r.use_regex,
            r.match_count == 0,
            r.current_match == 0,
    {
        SearchOverlay { query: String::new(), use_regex: false, match_count: 0, current_match: 0 }
    }
}

/// Actions from the search overlay.
#[derive(Debug, Clone, Copy, PartialEq, Eq, Structural)]
pub enum SearchAction {
    /// Nothing happened.
    Idle,
    QueryChanged,
    Next,
    Previous,
    Close,
}

/// A command in the command palette.
#[derive(Debug, Clone)]
pub struct Command {
    /// Command name.
    pub name: String,
    /// Command description.
    pub description: String,
    /// Keyboard shortcut.
    pub shortcut: Option<String>,
}

/// `c` has this name, description and shortcut.
pub open spec fn command_is(c: Command, name: Seq<char>, description: Seq<char>, shortcut: Seq<
    char,
>) -> bool {
    &&& c.name@ == name
    &&& c.description@ == description
    &&& c.shortcut matches Some(s) && s@ == shortcut
}

/// Whether the palette shows a command named `name` for `query`: every
/// command for an empty query, otherwise those whose lowercased name
/// contains the lowercased query.
pub open spec fn palette_shows(name: Seq<char>, query: Seq<char>) -> bool {
    query.len() == 0 || contains_seq(lowercase(name), lowercase(query))
}

/// The indices, in order, of the first `k` commands that the palette shows
/// for `query`.
pub open spec fn shown_indices(commands: Seq<Command>, query: Seq<char>, k: nat) -> Seq<usize>
    decreases k,
{
    if k == 0 {
        Seq::empty()
    } else {
        let before = shown_indices(commands, query, (k - 1) as nat);
        if palette_shows(commands[k - 1].name@, query) {
            before.push((k - 1) as usize)
        } else {
            before
        }
    }
}

/// What choosing a palette command asks the application to do.
#[derive(Debug, Clone, Copy, PartialEq, Eq, Structural)]
pub enum PaletteAction {
    /// Open a new tab.
    NewTab,
    /// Close the current tab.
    CloseTab,
    /// Open the search overlay.
    OpenSearch,
}

/// Command palette overlay.
pub struct CommandPalette {
    /// The search query.
    pub query: String,
    /// Available commands.
    pub commands: Vec<Command>,
    /// Selected command index.
    pub selected: usize,
}

fn make_command(name: &str, description: &str, shortcut: &str) -> (c: Command)
    ensures
        command_is(c, name@, description@, shortcut@),
{
    Command {
        name: name.to_owned(),
        description: description.to_owned(),
        shortcut: Some(shortcut.to_owned()),
    }
}

impl CommandPalette {
    /// The palette with its five built-in commands, empty query, first entry selected.
    pub fn new() -> (r: Self)
        ensures
            r.query@ == Seq::<char>::empty(),
            r.selected == 0,
            r.commands@.len() == 5,
            command_is(r.commands@[0], "New Tab"@, "Open a new tab"@, "Ctrl+Shift+T"@),
            command_is(r.commands@[1], "Close Tab"@, "Close the current tab"@, "Ctrl+Shift+W"@),
            command_is(
                r.commands@[2],
                "Split Horizontal"@,
                "Split the current pane horizontally"@,
                "Ctrl+Shift+D"@,
            ),
            command_is(
                r.commands@[3],
                "Split Vertical"@,
                "Split the current pane vertically"@,
                "Ctrl+Shift+E"@,
            ),
            command_is(r.commands@[4], "Search"@, "Search in terminal output"@, "Ctrl+Shift+F"@),
    {
        let mut commands: Vec<Command> = Vec::new();
        commands.push(make_command("New Tab", "Open a new tab", "Ctrl+Shift+T"));
        commands.push(make_command("Close Tab", "Close the current tab", "Ctrl+Shift+W"));
        commands.push(
            make_command(
                "Split Horizontal",
                "Split the current pane horizontally",
                "Ctrl+Shift+D",
            ),
        );
        commands.push(
            make_command("Split Vertical", "Split the current pane vertically", "Ctrl+Shift+E"),
        );
        commands.push(make_command("Search", "Search in terminal output", "Ctrl+Shift+F"));
        CommandPalette { query: String::new(), commands, selected: 0 }
    }

    /// The indices of the commands the palette lists for its query, in order.
    pub fn filtered_indices(&self) -> (r: Vec<usize>)
        ensures
            r@ == shown_indices(self.commands@, self.query@, self.commands@.len()),
    {
        let n = self.commands.len();
        let query_empty = self.query.as_str().is_empty();
        let q = to_lowercase(self.query.as_str());
        let qc = chars_of(q.as_str());
        let mut r: Vec<usize> = Vec::new();
        let mut i: usize = 0;
        while i < n
            invariant
                n == self.commands@.len(),
                i <= n,
                query_empty == (self.query@.len() == 0),
                qc@ == lowercase(self.query@),
                r@ == shown_indices(self.commands@, self.query@, i as nat),
            decreases n - i,
        {
            let shown = if query_empty {
                true
            } else {
                let name = to_lowercase(self.commands[i].name.as_str());
                let nc = chars_of(name.as_str());
                contains_chars(nc.as_slice(), qc.as_slice())
            };
            if shown {
                r.push(i);
            }
            i = i + 1;
        }
        r
    }
}

/// The action of the palette command named `name`: "New Tab", "Close Tab"
/// and "Search" have one; the others do nothing.
pub fn palette_action(name: &str) -> (r: Option<PaletteAction>)
    ensures
        r == (if name@ == "New Tab"@ {
            Some(PaletteAction::NewTab)
        } else if name@ == "Close Tab"@ {
            Some(PaletteAction::CloseTab)
        } else if name@ == "Search"@ {
            Some(PaletteAction::OpenSearch)
        } else {
            None
        }),
{
    if same_text(name, "New Tab") {
        Some(PaletteAction::NewTab)
    } else if same_text(name, "Close Tab") {
        Some(PaletteAction::CloseTab)
    } else if same_text(name, "Search") {
        Some(PaletteAction::OpenSearch)
    } else {
        None
    }
}

/// With an empty query the palette lists every command, in order.
pub proof fn law_empty_query_shows_all(commands: Seq<Command>, k: nat)
    requires
        k <= commands.len(),
        k <= usize::MAX,
    ensures
        shown_indices(commands, Seq::<char>::empty(), k) == Seq::new(k, |i: int| i as usize),
    decreases k,
{
    if k > 0 {
        law_empty_query_shows_all(commands, (k - 1) as nat);
        assert(shown_indices(commands, Seq::<char>::empty(), k) =~= Seq::new(k, |i: int| i as usize));
    }
}

/// The palette lists commands in their order, each at most once, and only
/// commands that exist.
pub proof fn law_shown_indices_ascending(commands: Seq<Command>, query: Seq<char>, k: nat)
    requires
        k <= commands.len(),
        k <= usize::MAX,
    ensures
        forall|a: int, b: int|
            0 <= a < b < shown_indices(commands, query, k).len() ==> shown_indices(
                commands,
                query,
                k,
            )[a] < shown_indices(commands, query, k)[b],
        forall|a: int|
            0 <= a < shown_indices(commands, query, k).len() ==> shown_indices(
                commands,
                query,
                k,
            )[a] < k,
    decreases k,
{
    if k > 0 {
        law_shown_indices_ascending(commands, query, (k - 1) as nat);
        let before = shown_indices(commands, query, (k - 1) as nat);
        let s = shown_indices(commands, query, k);
        if palette_shows(commands[k - 1].name@, query) {
            assert(s == before.push((k - 1) as usize));
            assert forall|a: int, b: int| 0 <= a < b < s.len() implies s[a] < s[b] by {
                assert(s[a] == before[a]);
                if b < before.len() {
                    assert(s[b] == before[b]);
                }
            }
            assert forall|a: int| 0 <= a < s.len() implies s[a] < k by {
                if a < before.len() {
                    assert(s[a] == before[a]);
                }
            }
        }
    }
}

} // verus!
