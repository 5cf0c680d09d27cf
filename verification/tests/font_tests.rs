use mythterm::font::{
    fallback_patterns, font_file_matches, font_style, is_font_extension, FontDiscovery, GlyphKey,
    GlyphRasterizer, TextShaper,
};

#[test]
fn styles() {
    assert_eq!(font_style(false, false), "Regular");
    assert_eq!(font_style(true, false), "Bold");
    assert_eq!(font_style(false, true), "Italic");
    assert_eq!(font_style(true, true), "Bold Italic");
}

#[test]
fn generic_families_expand() {
    assert_eq!(
        fallback_patterns("Monospace"),
        vec!["Courier", "Mono", "Consolas", "Liberation Mono", "DejaVu Sans Mono"]
    );
    assert_eq!(
        fallback_patterns("SANS"),
        vec!["Arial", "Helvetica", "Liberation Sans", "DejaVu Sans"]
    );
    assert_eq!(fallback_patterns("times"), vec!["Times", "Liberation Serif", "DejaVu Serif"]);
    assert_eq!(fallback_patterns("Fira Code"), vec!["Fira Code"]);
}

#[test]
fn font_extensions() {
    assert!(is_font_extension("ttf"));
    assert!(is_font_extension("otf"));
    assert!(is_font_extension("ttc"));
    assert!(!is_font_extension("woff"));
    assert!(!is_font_extension("TTF"));
}

#[test]
fn file_matching_checks_weight_and_slant() {
    let pats = vec!["DejaVu Sans Mono".to_string(), "Mono".to_string()];
    assert!(font_file_matches("dejavusansmono.ttf", &pats, false, false));
    assert!(font_file_matches("dejavusansmono-bold.ttf", &pats, true, false));
    assert!(!font_file_matches("dejavusansmono-bold.ttf", &pats, false, false));
    assert!(font_file_matches("dejavusansmono-oblique.ttf", &pats, false, true));
    assert!(font_file_matches("dejavusansmono-boldoblique.ttf", &pats, true, true));
    assert!(!font_file_matches("arial.ttf", &pats, false, false));
    assert!(!font_file_matches("anything.ttf", &[], false, false));
}

#[test]
fn fallback_chain() {
    let mut d = FontDiscovery::new();
    assert_eq!(
        d.fallback_families(),
        &[
            "Nerd Font Symbols",
            "NerdFont",
            "Symbols Nerd Font",
            "Noto Color Emoji",
            "Noto Sans Symbols",
            "Noto Sans Symbols 2"
        ]
    );
    d.add_fallback("Unifont".to_string());
    assert_eq!(d.fallback_families().len(), 7);
    assert_eq!(d.fallback_families()[6], "Unifont");
    assert_eq!(FontDiscovery::default().fallback_families().len(), 6);
}

#[test]
fn glyph_keys_compare_by_fields() {
    let a = GlyphKey { glyph_id: 1, font_size: 14, bold: false };
    let b = GlyphKey { glyph_id: 1, font_size: 14, bold: true };
    assert_ne!(a, b);
    assert_eq!(a, a.clone());
    let _ = GlyphRasterizer::new();
    let _ = TextShaper::default();
}
