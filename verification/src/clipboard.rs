//! Clipboard requests from the terminal (OSC 52).

use vstd::prelude::*;

verus! {

/// Platform clipboard operations.
pub trait ClipboardProvider: Send + Sync {
    /// Get the current clipboard contents.
    fn get(&self) -> Option<String>;

    /// Set the clipboard contents.
    fn set(&self, text: &str);
}

/// The reply to a clipboard query: the clipboard's text, or the empty
/// string when it could not be read.
pub fn osc52_reply(fetched: Option<String>) -> (r: String)
    ensures
        r@ == match fetched {
            Some(s) => s@,
            None => Seq::<char>::empty(),
        },
{
    match fetched {
        Some(s) => s,
        None => String::new(),
    }
}

/// The text an OSC 52 set request hands to the clipboard: the payload,
/// unless it is empty, in which case the clipboard is left alone.
pub fn osc52_text_to_set(data: &str) -> (r: Option<&str>)
    ensures
        r == (if data@.len() == 0 {
            None
        } else {
            Some(data)
        }),
{
    if data.is_empty() {
        None
    } else {
        Some(data)
    }
}

/// Clipboard handler for the OSC 52 protocol.
pub struct ClipboardHandler<P: ClipboardProvider> {
    provider: P,
}

impl<P: ClipboardProvider> ClipboardHandler<P> {
    /// A handler that reads and writes the clipboard through `provider`.
    pub fn new(provider: P) -> (r: Self)
        ensures
            r.provider() == provider,
    {
        ClipboardHandler { provider }
    }

    /// The clipboard this handler talks to.
    pub closed spec fn provider(&self) -> P {
        self.provider
    }

    /// Handle an OSC 52 clipboard request.
    ///
    /// With `data`, hands `osc52_text_to_set(data)` to the provider's `set`
    /// when it is `Some` (an empty payload makes no call) and replies
    /// nothing. Without, replies with the clipboard contents
    /// (`osc52_reply` of what the provider's `get` returned).
    pub fn handle_osc52(&self, _selection: &str, data: Option<&str>) -> (r: Option<String>)
        ensures
            data is Some ==> r is None,
            data is None ==> r is Some,
    {
        match data {
            Some(text) => {
                match osc52_text_to_set(text) {
                    Some(t) => self.provider.set(t),
                    None => {},
                }
                None
            },
            None => {
                let content = osc52_reply(self.provider.get());
                Some(content)
            },
        }
    }
}

} // verus!
