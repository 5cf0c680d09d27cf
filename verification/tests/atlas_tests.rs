use mythterm::atlas::{AtlasRegion, GlyphAtlasPacker};
use mythterm::font::GlyphKey;

fn key(id: u32) -> GlyphKey {
    GlyphKey { glyph_id: id, font_size: 16, bold: false }
}

fn overlap(a: &AtlasRegion, b: &AtlasRegion) -> bool {
    let (aw, ah, bw, bh) = (a.width + 2, a.height + 2, b.width + 2, b.height + 2);
    !(a.x + aw <= b.x || b.x + bw <= a.x || a.y + ah <= b.y || b.y + bh <= a.y)
}

#[test]
fn new_glyphs_get_room_and_come_back_unchanged() {
    let mut p = GlyphAtlasPacker::new(64, 64);
    assert_eq!(p.get(&key(1)), None);
    let r1 = p.get_or_insert(key(1), 10, 12).expect("room for the first glyph");
    assert_eq!((r1.width, r1.height), (10, 12));
    assert!(r1.x + 12 <= 64 && r1.y + 14 <= 64);
    assert_eq!(p.get(&key(1)), Some(r1));
    assert_eq!(p.get_or_insert(key(1), 30, 30), Some(r1));
}

#[test]
fn regions_never_overlap() {
    let mut p = GlyphAtlasPacker::new(128, 128);
    let mut got = Vec::new();
    for id in 0..20u32 {
        if let Some(r) = p.get_or_insert(key(id), 8 + id % 5, 10) {
            got.push(r);
        }
    }
    assert!(got.len() >= 10);
    for i in 0..got.len() {
        for j in (i + 1)..got.len() {
            assert!(!overlap(&got[i], &got[j]), "{:?} and {:?}", got[i], got[j]);
        }
    }
}

#[test]
fn full_atlas_evicts_least_recently_used() {
    let mut p = GlyphAtlasPacker::new(16, 16);
    let r1 = p.get_or_insert(key(1), 14, 14).expect("fits an empty atlas");
    assert_eq!((r1.x, r1.y), (0, 0));
    let r2 = p.get_or_insert(key(2), 4, 4).expect("room after evicting glyph 1");
    assert_eq!((r2.width, r2.height), (4, 4));
    assert_eq!(p.get(&key(1)), None);
    assert_eq!(p.get(&key(2)), Some(r2));
}

#[test]
fn too_large_glyph_evicts_nothing() {
    let mut p = GlyphAtlasPacker::new(16, 16);
    let r1 = p.get_or_insert(key(1), 4, 4).unwrap();
    assert_eq!(p.get_or_insert(key(3), 20, 1), None);
    assert_eq!(p.get_or_insert(key(4), 14, 15), None);
    assert_eq!(p.get(&key(1)), Some(r1));
    assert!(p.get_or_insert(key(5), 14, 14).is_some());
}

#[test]
fn recently_used_glyphs_survive_eviction() {
    // Three 6x6 glyphs (8x8 padded) fill three quarters of a 16x16 atlas.
    let mut p = GlyphAtlasPacker::new(16, 16);
    let a = p.get_or_insert(key(1), 6, 6).unwrap();
    let b = p.get_or_insert(key(2), 6, 6).unwrap();
    let c = p.get_or_insert(key(3), 6, 6).unwrap();
    let d = p.get_or_insert(key(4), 6, 6).unwrap();
    // Touch glyph 1 so that glyph 2 is now the least recently used.
    assert_eq!(p.get_or_insert(key(1), 6, 6), Some(a));
    let e = p.get_or_insert(key(5), 6, 6).expect("evicts glyph 2");
    assert_eq!(p.get(&key(2)), None);
    assert_eq!(p.get(&key(1)), Some(a));
    assert_eq!(p.get(&key(3)), Some(c));
    assert_eq!(p.get(&key(4)), Some(d));
    assert_eq!((e.x, e.y), (b.x, b.y));
}

#[test]
fn cached_glyph_comes_back_whatever_size_is_asked() {
    let mut p = GlyphAtlasPacker::new(32, 32);
    let r = p.get_or_insert(key(7), 5, 5).unwrap();
    assert_eq!(p.get_or_insert(key(7), u32::MAX, u32::MAX), Some(r));
}

#[test]
fn a_glyph_that_fits_evicts_nothing() {
    let mut p = GlyphAtlasPacker::new(64, 64);
    let a = p.get_or_insert(key(1), 6, 6).unwrap();
    let b = p.get_or_insert(key(2), 6, 6).unwrap();
    assert!(p.get_or_insert(key(3), 6, 6).is_some());
    assert_eq!(p.get(&key(1)), Some(a));
    assert_eq!(p.get(&key(2)), Some(b));
}
