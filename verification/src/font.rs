//! Font data, glyph keys, and the rules for picking font files.

use vstd::prelude::*;

use crate::text::{chars_of, contains_chars, contains_seq, lowercase, same_text, to_lowercase};

verus! {

/// A loaded font with its data and metadata.
#[derive(Debug)]
pub struct FontData {
    /// The font data bytes.
    pub data: Vec<u8>,
    /// The font family name.
    pub family: String,
    /// The font index (for TTC/OTC collections).
    pub index: u32,
    /// Whether this is a bold font.
    pub bold: bool,
    /// Whether this is an italic font.
    pub italic: bool,
}

/// A key for identifying a specific glyph in the atlas.
#[derive(Debug, Clone, Copy, PartialEq, Eq, Hash, Structural)]
pub struct GlyphKey {
    /// The glyph ID from the shaping engine.
    pub glyph_id: u32,
    /// The font size in pixels.
    pub font_size: u32,
    /// Whether this is a bold glyph.
    pub bold: bool,
}

/// Glyph rasterizer (the rasterizing itself is done with `ab_glyph`).
pub struct GlyphRasterizer;

impl GlyphRasterizer {
    /// Create a new glyph rasterizer.
    pub fn new() -> Self {
        GlyphRasterizer
    }
}

/// Text shaper (the shaping itself is done with `rustybuzz`).
pub struct TextShaper;

impl TextShaper {
    /// Create a new text shaper.
    pub fn new() -> Self {
        TextShaper
    }
}

/// The fontconfig style name for a weight/slant combination.
pub fn font_style(bold: bool, italic: bool) -> (r: &'static str)
    ensures
        r@ == (if bold && italic {
            "Bold Italic"@
        } else if bold {
            "Bold"@
        } else if italic {
            "Italic"@
        } else {
            "Regular"@
        }),
{
    match (bold, italic) {
        (true, true) => "Bold Italic",
        (true, false) => "Bold",
        (false, true) => "Italic",
        (false, false) => "Regular",
    }
}

/// The file-name patterns searched for a font family when fontconfig has no
/// match: generic family names map to common font families; any other name
/// is searched for as given.
pub open spec fn family_patterns(family: Seq<char>) -> Seq<Seq<char>> {
    let f = lowercase(family);
    if f == "monospace"@ || f == "mono"@ || f == "courier"@ {
        seq!["Courier"@, "Mono"@, "Consolas"@, "Liberation Mono"@, "DejaVu Sans Mono"@]
    } else if f == "sans-serif"@ || f == "sans"@ || f == "arial"@ {
        seq!["Arial"@, "Helvetica"@, "Liberation Sans"@, "DejaVu Sans"@]
    } else if f == "serif"@ || f == "times"@ {
        seq!["Times"@, "Liberation Serif"@, "DejaVu Serif"@]
    } else {
        seq![family]
    }
}

/// The contents of a list of strings.
pub open spec fn string_views(v: Seq<String>) -> Seq<Seq<char>> {
    v.map_values(|s: String| s@)
}

fn strings_of(items: &[&str]) -> (r: Vec<String>)
    ensures
        r@.len() == items@.len(),
        forall|i: int| 0 <= i < items@.len() ==> #[trigger] r@[i]@ == items@[i]@,
{
    let mut r: Vec<String> = Vec::new();
    let mut i: usize = 0;
    while i < items.len()
        invariant
            i <= items@.len(),
            r@.len() == i,
            forall|k: int| 0 <= k < i ==> #[trigger] r@[k]@ == items@[k]@,
        decreases items@.len() - i,
    {
        r.push(items[i].to_owned());
        i = i + 1;
    }
    r
}

/// The file-name patterns to search for `family`.
pub fn fallback_patterns(family: &str) -> (r: Vec<String>)
    ensures
        string_views(r@) == family_patterns(family@),
{
    let lower = to_lowercase(family);
    let f = lower.as_str();
    let r = if same_text(f, "monospace") || same_text(f, "mono") || same_text(f, "courier") {
        strings_of(&["Courier", "Mono", "Consolas", "Liberation Mono", "DejaVu Sans Mono"])
    } else if same_text(f, "sans-serif") || same_text(f, "sans") || same_text(f, "arial") {
        strings_of(&["Arial", "Helvetica", "Liberation Sans", "DejaVu Sans"])
    } else if same_text(f, "serif") || same_text(f, "times") {
        strings_of(&["Times", "Liberation Serif", "DejaVu Serif"])
    } else {
        strings_of(&[family])
    };
    proof {
        assert(string_views(r@) =~= family_patterns(family@));
    }
    r
}

/// Whether a (lowercased) file extension names a font file: ttf, otf or ttc.
pub fn is_font_extension(ext_lower: &str) -> (r: bool)
    ensures
        r == (ext_lower@ == "ttf"@ || ext_lower@ == "otf"@ || ext_lower@ == "ttc"@),
{
    same_text(ext_lower, "ttf") || same_text(ext_lower, "otf") || same_text(ext_lower, "ttc")
}

/// Whether a font file whose lowercased name is `file_name` is the one wanted:
/// the name contains one of the lowercased `patterns`, and it says "bold"
/// exactly when `bold` is asked for and "italic" or "oblique" exactly when
/// `italic` is.
pub open spec fn font_file_wanted(
    file_name: Seq<char>,
    patterns: Seq<Seq<char>>,
    bold: bool,
    italic: bool,
) -> bool {
    &&& exists|i: int|
        0 <= i < patterns.len() && #[trigger] contains_seq(file_name, lowercase(patterns[i]))
    &&& contains_seq(file_name, "bold"@) == bold
    &&& (contains_seq(file_name, "italic"@) || contains_seq(file_name, "oblique"@)) == italic
}

fn contains_text(hay: &[char], needle: &str) -> (r: bool)
    ensures
        r == contains_seq(hay@, needle@),
{
    let n = chars_of(needle);
    contains_chars(hay, n.as_slice())
}

/// Whether the font file whose lowercased name is `file_name_lower`
/// matches `patterns` and the wanted weight and slant.
pub fn font_file_matches(file_name_lower: &str, patterns: &[String], bold: bool, italic: bool) -> (r:
    bool)
    ensures
        r == font_file_wanted(file_name_lower@, string_views(patterns@), bold, italic),
{
    let name = chars_of(file_name_lower);
    let mut any = false;
    let mut i: usize = 0;
    while i < patterns.len()
        invariant
            i <= patterns@.len(),
            name@ == file_name_lower@,
            any == exists|k: int|
                0 <= k < i && #[trigger] contains_seq(name@, lowercase(patterns@[k]@)),
        decreases patterns@.len() - i,
    {
        let p = to_lowercase(patterns[i].as_str());
        let pc = chars_of(p.as_str());
        if contains_chars(name.as_slice(), pc.as_slice()) {
            any = true;
        }
        i = i + 1;
    }
    let is_bold = contains_text(name.as_slice(), "bold");
    let is_italic = contains_text(name.as_slice(), "italic") || contains_text(
        name.as_slice(),
        "oblique",
    );
    proof {
        let views = string_views(patterns@);
        assert forall|k: int| 0 <= k < patterns@.len() implies views[k] == patterns@[k]@ by {}
        if any {
            let k = choose|k: int|
                0 <= k < patterns@.len() && #[trigger] contains_seq(name@, lowercase(patterns@[k]@));
            assert(contains_seq(file_name_lower@, lowercase(views[k])));
        }
        if exists|k: int| 0 <= k < views.len() && #[trigger] contains_seq(file_name_lower@, lowercase(views[k])) {
            let k = choose|k: int|
                0 <= k < views.len() && #[trigger] contains_seq(file_name_lower@, lowercase(views[k]));
            assert(contains_seq(name@, lowercase(patterns@[k]@)));
        }
    }
    any && is_bold == bold && is_italic == italic
}

/// The font families tried, in order, when a glyph is missing from the main font.
pub open spec fn default_fallback_families() -> Seq<Seq<char>> {
    seq![
        "Nerd Font Symbols"@,
        "NerdFont"@,
        "Symbols Nerd Font"@,
        "Noto Color Emoji"@,
        "Noto Sans Symbols"@,
        "Noto Sans Symbols 2"@,
    ]
}

/// Font discovery: the fallback chain of font families.
pub struct FontDiscovery {
    /// Fallback font families to try when a glyph is missing.
    fallback_families: Vec<String>,
}

impl FontDiscovery {
    /// The fallback families, in order.
    pub closed spec fn fallbacks(&self) -> Seq<Seq<char>> {
        string_views(self.fallback_families@)
    }

    /// Font discovery with the default fallback chain (Nerd Font symbols,
    /// emoji, symbol fonts).
    pub fn new() -> (r: Self)
        ensures
            r.fallbacks() == default_fallback_families(),
    {
        let fallback_families = strings_of(
            &[
                "Nerd Font Symbols",
                "NerdFont",
                "Symbols Nerd Font",
                "Noto Color Emoji",
                "Noto Sans Symbols",
                "Noto Sans Symbols 2",
            ],
        );
        let r = FontDiscovery { fallback_families };
        proof {
            assert(r.fallbacks() =~= default_fallback_families());
        }
        r
    }

    /// Add a fallback font family at the end of the chain.
    pub fn add_fallback(&mut self, family: String)
        ensures
            final(self).fallbacks() == old(self).fallbacks().push(family@),
    {
        self.fallback_families.push(family);
        proof {
            assert(final(self).fallbacks() =~= old(self).fallbacks().push(family@));
        }
    }

    /// The fallback font families, in order.
    pub fn fallback_families(&self) -> (r: &[String])
        ensures
            string_views(r@) == self.fallbacks(),
    {
        self.fallback_families.as_slice()
    }
}

impl Default for FontDiscovery {
    fn default() -> (r: Self)
        ensures
            r.fallbacks() == default_fallback_families(),
    {
        Self::new()
    }
}

impl Default for GlyphRasterizer {
    fn default() -> Self {
        Self::new()
    }
}

impl Default for TextShaper {
    fn default() -> Self {
        Self::new()
    }
}

/// A font file is wanted for a weight and slant only when its name says
/// that weight and slant: a name with "italic" or "oblique" in it is never
/// taken for an upright face, and one without is never taken for an italic
/// face; a name with "bold" is never taken for a regular weight, and one
/// without is never taken for bold. A wanted file's name holds one of the
/// lowercased patterns; and a name that holds one of them and says the
/// right weight and slant is wanted.
pub proof fn law_font_file_weight_and_slant(
    name: Seq<char>,
    patterns: Seq<Seq<char>>,
    bold: bool,
    italic: bool,
)
    ensures
        contains_seq(name, "italic"@) ==> !font_file_wanted(name, patterns, bold, false),
        contains_seq(name, "oblique"@) ==> !font_file_wanted(name, patterns, bold, false),
        !contains_seq(name, "italic"@) && !contains_seq(name, "oblique"@) ==> !font_file_wanted(
            name,
            patterns,
            bold,
            true,
        ),
        contains_seq(name, "bold"@) ==> !font_file_wanted(name, patterns, false, italic),
        !contains_seq(name, "bold"@) ==> !font_file_wanted(name, patterns, true, italic),
        font_file_wanted(name, patterns, bold, italic) ==> exists|i: int|
            0 <= i < patterns.len() && #[trigger] contains_seq(name, lowercase(patterns[i])),
        (exists|i: int|
            0 <= i < patterns.len() && #[trigger] contains_seq(name, lowercase(patterns[i])))
            && contains_seq(name, "bold"@) == bold && (contains_seq(name, "italic"@)
            || contains_seq(name, "oblique"@)) == italic ==> font_file_wanted(
            name,
            patterns,
            bold,
            italic,
        ),
{
}

} // verus!
