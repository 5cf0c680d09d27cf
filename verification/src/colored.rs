//! Colored terminal content: lines of characters with their colors.

use vstd::prelude::*;

use vstd::string::StringExecFns;

use crate::text::{all_white_space, is_blank};

verus! {

/// A single colored character in the terminal.
#[derive(Debug, Clone)]
pub struct ColoredChar {
    /// The character(s) at this position.
    pub text: String,
    /// Foreground color, as premultiplied RGBA bytes.
    pub fg: [u8; 4],
    /// Background color, as premultiplied RGBA bytes.
    pub bg: [u8; 4],
}

/// The texts of the first `k` characters of a line, concatenated.
pub open spec fn line_text(chars: Seq<ColoredChar>, k: nat) -> Seq<char>
    decreases k,
{
    if k == 0 {
        Seq::empty()
    } else {
        line_text(chars, (k - 1) as nat) + chars[k - 1].text@
    }
}

/// A line of colored text from the terminal.
#[derive(Debug, Clone)]
pub struct ColoredLine {
    /// The colored characters in this line.
    pub chars: Vec<ColoredChar>,
}

impl ColoredLine {
    /// Create an empty line.
    pub fn new() -> (r: Self)
        ensures
            r.chars@.len() == 0,
    {
        ColoredLine { chars: Vec::new() }
    }

    /// The plain text of the line.
    pub fn text(&self) -> (r: String)
        ensures
            r@ == line_text(self.chars@, self.chars@.len()),
    {
        let mut r = String::new();
        let n = self.chars.len();
        let mut i: usize = 0;
        while i < n
            invariant
                n == self.chars@.len(),
                i <= n,
                r@ == line_text(self.chars@, i as nat),
            decreases n - i,
        {
            r.append(self.chars[i].text.as_str());
            i = i + 1;
        }
        r
    }

    /// Whether the line shows nothing: every character's text is white space.
    pub fn is_empty(&self) -> (r: bool)
        ensures
            r == forall|i: int| 0 <= i < self.chars@.len() ==> all_white_space(
                #[trigger] self.chars@[i].text@,
            ),
    {
        let n = self.chars.len();
        let mut i: usize = 0;
        while i < n
            invariant
                n == self.chars@.len(),
                i <= n,
                forall|k: int| 0 <= k < i ==> all_white_space(#[trigger] self.chars@[k].text@),
            decreases n - i,
        {
            if !is_blank(self.chars[i].text.as_str()) {
                return false;
            }
            i = i + 1;
        }
        true
    }
}

impl Default for ColoredLine {
    fn default() -> (r: Self)
        ensures
            r.chars@.len() == 0,
    {
        Self::new()
    }
}

} // verus!
