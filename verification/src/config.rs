//! Configuration values shared by the multiplexer and the terminal core.

use vstd::prelude::*;

verus! {

/// Exit behavior when a pane's process exits.
#[derive(Debug, Clone, Copy, PartialEq, Eq, Structural)]
pub enum ExitBehavior {
    /// Close the pane automatically.
    Close,
    /// Keep the pane open and show exit status.
    CloseOnCleanExit,
    /// Never close automatically.
    NeverClose,
}

impl Default for ExitBehavior {
    fn default() -> (r: Self)
        ensures
            r == ExitBehavior::CloseOnCleanExit,
    {
        ExitBehavior::CloseOnCleanExit
    }
}

/// Configuration interface for the multiplexer.
pub trait MuxConfig: Send + Sync {
    /// What to do when a pane's process exits.
    fn exit_behavior(&self) -> ExitBehavior;

    /// Default shell command to spawn.
    fn default_shell(&self) -> &str;

    /// Whether to enable the SSH agent (off unless an implementation says otherwise).
    fn mux_enable_ssh_agent(&self) -> (r: bool)
        default_ensures
            !r,
    {
        false
    }

    /// Whether to switch to the last active tab when closing a tab (on
    /// unless an implementation says otherwise).
    fn switch_to_last_active_tab_when_closing(&self) -> (r: bool)
        default_ensures
            r,
    {
        true
    }
}

/// The RGB values of the default ANSI palette: black, red, green, yellow,
/// blue, magenta, cyan and white, then their bright variants.
pub open spec fn default_ansi(i: int) -> Seq<u8> {
    if i == 0 {
        seq![0x00u8, 0x00u8, 0x00u8]
    } else if i == 1 {
        seq![0xcdu8, 0x31u8, 0x31u8]
    } else if i == 2 {
        seq![0x0du8, 0xbbu8, 0x0du8]
    } else if i == 3 {
        seq![0xe5u8, 0xe5u8, 0x10u8]
    } else if i == 4 {
        seq![0x24u8, 0x72u8, 0xc8u8]
    } else if i == 5 {
        seq![0xbcu8, 0x3fu8, 0xbcu8]
    } else if i == 6 {
        seq![0x0bu8, 0xb7u8, 0xb7u8]
    } else if i == 7 {
        seq![0xe5u8, 0xe5u8, 0xe5u8]
    } else if i == 8 {
        seq![0x66u8, 0x66u8, 0x66u8]
    } else if i == 9 {
        seq![0xf1u8, 0x4cu8, 0x4cu8]
    } else if i == 10 {
        seq![0x23u8, 0xd1u8, 0x23u8]
    } else if i == 11 {
        seq![0xf5u8, 0xf5u8, 0x43u8]
    } else if i == 12 {
        seq![0x3bu8, 0x8eu8, 0xeau8]
    } else if i == 13 {
        seq![0xd6u8, 0x70u8, 0xd6u8]
    } else if i == 14 {
        seq![0x29u8, 0xb8u8, 0xdbu8]
    } else {
        seq![0xffu8, 0xffu8, 0xffu8]
    }
}

/// A terminal color scheme.
#[derive(Debug, Clone)]
pub struct ColorScheme {
    /// Foreground color (R, G, B).
    pub foreground: [u8; 3],
    /// Background color (R, G, B).
    pub background: [u8; 3],
    /// Cursor color (R, G, B).
    pub cursor: [u8; 3],
    /// ANSI palette (16 colors: 8 normal + 8 bright).
    pub ansi: [[u8; 3]; 16],
}

impl Default for ColorScheme {
    /// Light gray on near-black, a white cursor, and the default ANSI palette.
    fn default() -> (r: Self)
        ensures
            r.foreground@ == seq![0xc0u8, 0xc0u8, 0xc0u8],
            r.background@ == seq![0x1eu8, 0x1eu8, 0x1eu8],
            r.cursor@ == seq![0xffu8, 0xffu8, 0xffu8],
            forall|i: int| 0 <= i < 16 ==> (#[trigger] r.ansi@[i])@ == default_ansi(i),
    {
        let r = Self {
            foreground: [0xc0, 0xc0, 0xc0],
            background: [0x1e, 0x1e, 0x1e],
            cursor: [0xff, 0xff, 0xff],
            ansi: [
                // Normal: black, red, green, yellow, blue, magenta, cyan, white
                [0x00, 0x00, 0x00],
                [0xcd, 0x31, 0x31],
                [0x0d, 0xbb, 0x0d],
                [0xe5, 0xe5, 0x10],
                [0x24, 0x72, 0xc8],
                [0xbc, 0x3f, 0xbc],
                [0x0b, 0xb7, 0xb7],
                [0xe5, 0xe5, 0xe5],
                // Bright: black, red, green, yellow, blue, magenta, cyan, white
                [0x66, 0x66, 0x66],
                [0xf1, 0x4c, 0x4c],
                [0x23, 0xd1, 0x23],
                [0xf5, 0xf5, 0x43],
                [0x3b, 0x8e, 0xea],
                [0xd6, 0x70, 0xd6],
                [0x29, 0xb8, 0xdb],
                [0xff, 0xff, 0xff],
            ],
        };
        proof {
            assert(r.foreground@ =~= seq![0xc0u8, 0xc0u8, 0xc0u8]);
            assert(r.background@ =~= seq![0x1eu8, 0x1eu8, 0x1eu8]);
            assert(r.cursor@ =~= seq![0xffu8, 0xffu8, 0xffu8]);
            assert forall|i: int| 0 <= i < 16 implies (#[trigger] r.ansi@[i])@ == default_ansi(i) by {
                assert(r.ansi@[i]@ =~= default_ansi(i));
            }
        }
        r
    }
}

/// How long the config watcher waits after a change event before it acts,
/// so that a burst of writes settles (milliseconds).
pub const RELOAD_SETTLE_MS: u64 = 100;

/// The least time between two reloads of the config file (milliseconds).
pub const MIN_RELOAD_INTERVAL_MS: u128 = 1000;

/// Whether the config watcher may reload now, `since_last_reload_ms`
/// milliseconds after the previous reload: not more than once a second.
pub fn reload_due(since_last_reload_ms: u128) -> (r: bool)
    ensures
        r == (since_last_reload_ms >= MIN_RELOAD_INTERVAL_MS),
{
    since_last_reload_ms >= MIN_RELOAD_INTERVAL_MS
}

} // verus!
