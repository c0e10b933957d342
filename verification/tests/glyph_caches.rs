use glyphon::atlas::{
    ColorMode, CustomGlyphCacheKey, GlyphDetails, GlyphonCacheKey, GpuCacheStatus, InnerAtlas,
    TextAtlas,
};
use glyphon::image::{ContentType, SubpixelBin};
use std::collections::HashSet;

fn empty_atlas() -> TextAtlas {
    TextAtlas {
        color_atlas: InnerAtlas::new(4),
        mask_atlas: InnerAtlas::new(1),
        color_mode: ColorMode::Accurate,
    }
}

fn details(content_type: Option<ContentType>, width: u16) -> GlyphDetails {
    GlyphDetails {
        width,
        height: 3,
        gpu_cache: match content_type {
            Some(content_type) => GpuCacheStatus::InAtlas {
                x: 1,
                y: 2,
                content_type,
            },
            None => GpuCacheStatus::SkipRasterization,
        },
        atlas_id: None,
        top: 0,
        left: 0,
    }
}

#[test]
fn different_keys_have_different_codes() {
    let bins = [
        SubpixelBin::Zero,
        SubpixelBin::One,
        SubpixelBin::Two,
        SubpixelBin::Three,
    ];
    let mut codes = HashSet::new();
    let mut count = 0;
    for number in [0u64, 1, 1 << 16, 1 << 32, 1 << 48, 1 << 50, u64::MAX] {
        codes.insert(GlyphonCacheKey::Text(number).code());
        count += 1;
    }
    for glyph_id in [0u16, 1, u16::MAX] {
        for width in [0u16, 1, u16::MAX] {
            for height in [0u16, 1, u16::MAX] {
                for x_bin in bins {
                    for y_bin in bins {
                        let key = GlyphonCacheKey::Custom(CustomGlyphCacheKey {
                            glyph_id,
                            width,
                            height,
                            x_bin,
                            y_bin,
                        });
                        codes.insert(key.code());
                        count += 1;
                    }
                }
            }
        }
    }
    assert_eq!(codes.len(), count);
}

#[test]
fn unknown_glyphs_are_not_found() {
    let mut atlas = empty_atlas();
    assert_eq!(atlas.lookup(GlyphonCacheKey::Text(5)), None);
    assert!(atlas.mask_atlas.glyphs_in_use.is_empty());
    assert!(atlas.color_atlas.glyphs_in_use.is_empty());
}

#[test]
fn entered_glyphs_are_found_and_in_use_in_their_texture() {
    let key = GlyphonCacheKey::Text(5);
    for content_type in [Some(ContentType::Mask), Some(ContentType::Color), None] {
        let mut atlas = empty_atlas();
        let entered = details(content_type, 9);
        assert_eq!(atlas.insert_glyph(key, entered), entered);
        assert_eq!(atlas.lookup(key), Some(entered));
        assert_eq!(atlas.lookup(GlyphonCacheKey::Text(6)), None);
        let in_mask = content_type == Some(ContentType::Mask);
        assert_eq!(atlas.mask_atlas.glyphs_in_use.contains(&key.code()), in_mask);
        assert_eq!(atlas.color_atlas.glyphs_in_use.contains(&key.code()), !in_mask);
        assert_eq!(atlas.mask_atlas.glyph_cache.contains_key(&key.code()), in_mask);
        assert_eq!(atlas.color_atlas.glyph_cache.contains_key(&key.code()), !in_mask);
    }
}

#[test]
fn the_first_details_of_a_glyph_stay() {
    let key = GlyphonCacheKey::Text(5);
    let mut atlas = empty_atlas();
    let first = details(Some(ContentType::Mask), 9);
    let second = details(Some(ContentType::Mask), 10);
    assert_eq!(atlas.insert_glyph(key, first), first);
    assert_eq!(atlas.insert_glyph(key, second), first);
    assert_eq!(atlas.lookup(key), Some(first));
}

#[test]
fn masks_are_looked_at_before_colours() {
    let key = GlyphonCacheKey::Text(5);
    let mut atlas = empty_atlas();
    let color = details(Some(ContentType::Color), 9);
    let mask = details(Some(ContentType::Mask), 10);
    atlas.color_atlas.glyph_cache.insert(key.code(), color);
    assert_eq!(atlas.lookup(key), Some(color));
    assert!(atlas.color_atlas.glyphs_in_use.contains(&key.code()));
    atlas.color_atlas.glyphs_in_use.clear();
    atlas.mask_atlas.glyph_cache.insert(key.code(), mask);
    assert_eq!(atlas.lookup(key), Some(mask));
    assert!(atlas.mask_atlas.glyphs_in_use.contains(&key.code()));
    assert!(!atlas.color_atlas.glyphs_in_use.contains(&key.code()));
}

#[test]
fn texels_and_colour_modes_have_numbers() {
    let atlas = empty_atlas();
    assert_eq!(atlas.num_channels(ContentType::Color), 4);
    assert_eq!(atlas.num_channels(ContentType::Mask), 1);
    assert_eq!(ColorMode::Accurate.conversion(), 1);
    assert_eq!(ColorMode::Web.conversion(), 0);
}

#[test]
fn entering_a_glyph_keeps_the_others() {
    let mut atlas = empty_atlas();
    let first = details(Some(ContentType::Mask), 9);
    atlas.insert_glyph(GlyphonCacheKey::Text(5), first);
    atlas.insert_glyph(GlyphonCacheKey::Text(6), details(Some(ContentType::Mask), 10));
    atlas.insert_glyph(GlyphonCacheKey::Text(7), details(None, 11));
    assert_eq!(atlas.lookup(GlyphonCacheKey::Text(5)), Some(first));
    // Looking a glyph up once more finds the same.
    assert_eq!(atlas.lookup(GlyphonCacheKey::Text(5)), Some(first));
}
