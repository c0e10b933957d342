//! The glyph caches of the texture atlas: which glyphs the two textures hold, and where.
use vstd::prelude::*;
use std::collections::HashMap;
use std::collections::HashSet;
use crate::image::{ContentType, SubpixelBin};

verus! {

broadcast use vstd::std_specs::hash::group_hash_axioms;

/// The key of a custom glyph in the caches.
#[derive(Clone, Copy, Debug, PartialEq, Eq, Structural)]
pub struct CustomGlyphCacheKey {
    pub glyph_id: u16,
    pub width: u16,
    pub height: u16,
    pub x_bin: SubpixelBin,
    pub y_bin: SubpixelBin,
}

/// The key of a glyph in the caches.
#[derive(Clone, Copy, Debug, PartialEq, Eq, Structural)]
pub enum GlyphonCacheKey {
    /// A glyph of a font, by the number that stands for its key in the font system. Different
    /// keys have different numbers.
    Text(u64),
    /// A custom glyph.
    Custom(CustomGlyphCacheKey),
}

pub open spec fn bin_code(bin: SubpixelBin) -> int {
    match bin {
        SubpixelBin::Zero => 0,
        SubpixelBin::One => 1,
        SubpixelBin::Two => 2,
        SubpixelBin::Three => 3,
    }
}

fn encode_bin(bin: SubpixelBin) -> (code: u128)
    ensures
        code == bin_code(bin),
{
    match bin {
        SubpixelBin::Zero => 0,
        SubpixelBin::One => 1,
        SubpixelBin::Two => 2,
        SubpixelBin::Three => 3,
    }
}

impl GlyphonCacheKey {
    /// The number by which the caches find this key.
    pub open spec fn spec_code(self) -> u128 {
        match self {
            GlyphonCacheKey::Text(number) => number as u128,
            GlyphonCacheKey::Custom(key) => (0x1_0000_0000_0000_0000 + key.glyph_id
                + 0x1_0000 * key.width + 0x1_0000_0000 * key.height + 0x1_0000_0000_0000 * bin_code(
                key.x_bin,
            ) + 0x4_0000_0000_0000 * bin_code(key.y_bin)) as u128,
        }
    }

    /// The number by which the caches find this key.
    pub fn code(self) -> (code: u128)
        ensures
            code == self.spec_code(),
    {
        match self {
            GlyphonCacheKey::Text(number) => number as u128,
            GlyphonCacheKey::Custom(key) => 0x1_0000_0000_0000_0000u128 + key.glyph_id as u128
                + 0x1_0000u128 * key.width as u128 + 0x1_0000_0000u128 * key.height as u128
                + 0x1_0000_0000_0000u128 * encode_bin(key.x_bin) + 0x4_0000_0000_0000u128
                * encode_bin(key.y_bin),
        }
    }

    /// Different keys have different numbers, so that no two glyphs share a place in a cache.
    pub proof fn code_is_injective(self, other: GlyphonCacheKey)
        requires
            self.spec_code() == other.spec_code(),
        ensures
            self == other,
    {
        if let (GlyphonCacheKey::Custom(a), GlyphonCacheKey::Custom(b)) = (self, other) {
            assert(bin_code(a.x_bin) == bin_code(b.x_bin) ==> a.x_bin == b.x_bin);
            assert(bin_code(a.y_bin) == bin_code(b.y_bin) ==> a.y_bin == b.y_bin);
        }
    }
}

/// Whether and where a texture holds a glyph.
#[derive(Clone, Copy, Debug, PartialEq, Eq, Structural)]
pub enum GpuCacheStatus {
    /// The glyph's top left texel in the texture for its kind of texels.
    InAtlas { x: u16, y: u16, content_type: ContentType },
    /// The glyph has no texels.
    SkipRasterization,
}

/// What is known of a glyph that was rasterized.
#[derive(Clone, Copy, Debug, PartialEq, Eq, Structural)]
pub struct GlyphDetails {
    pub width: u16,
    pub height: u16,
    pub gpu_cache: GpuCacheStatus,
    /// The number of the glyph's place in the packer of the texture.
    pub atlas_id: Option<u32>,
    pub top: i16,
    pub left: i16,
}

/// How colours are written to the render target.
#[derive(Clone, Copy, Debug, PartialEq, Eq, Structural)]
pub enum ColorMode {
    /// Colours are converted to linear light.
    Accurate,
    /// Colours are left as they are.
    Web,
}

impl ColorMode {
    /// The number by which the shader learns whether it converts colours to linear light.
    pub open spec fn spec_conversion(self) -> u16 {
        match self {
            ColorMode::Accurate => 1,
            ColorMode::Web => 0,
        }
    }

    /// The number by which the shader learns whether it converts colours to linear light.
    pub fn conversion(self) -> (code: u16)
        ensures
            code == self.spec_conversion(),
    {
        match self {
            ColorMode::Accurate => 1,
            ColorMode::Web => 0,
        }
    }
}

/// The caches of one texture, by the numbers of [`GlyphonCacheKey::code`].
pub struct InnerAtlas {
    pub glyph_cache: HashMap<u128, GlyphDetails>,
    pub glyphs_in_use: HashSet<u128>,
    /// The number of bytes of a texel.
    pub num_channels: u8,
}

/// The caches of the two textures.
pub struct TextAtlas {
    pub color_atlas: InnerAtlas,
    pub mask_atlas: InnerAtlas,
    pub color_mode: ColorMode,
}

/// The contents of an [`InnerAtlas`].
#[verifier::ext_equal]
pub struct InnerAtlasView {
    pub glyph_cache: Map<u128, GlyphDetails>,
    pub glyphs_in_use: Set<u128>,
    pub num_channels: u8,
}

impl View for InnerAtlas {
    type V = InnerAtlasView;

    open spec fn view(&self) -> InnerAtlasView {
        InnerAtlasView {
            glyph_cache: self.glyph_cache@,
            glyphs_in_use: self.glyphs_in_use@,
            num_channels: self.num_channels,
        }
    }
}

/// The contents of a [`TextAtlas`].
#[verifier::ext_equal]
pub struct TextAtlasView {
    pub color_atlas: InnerAtlasView,
    pub mask_atlas: InnerAtlasView,
    pub color_mode: ColorMode,
}

impl View for TextAtlas {
    type V = TextAtlasView;

    open spec fn view(&self) -> TextAtlasView {
        TextAtlasView {
            color_atlas: self.color_atlas@,
            mask_atlas: self.mask_atlas@,
            color_mode: self.color_mode,
        }
    }
}

impl InnerAtlasView {
    /// An atlas without glyphs, for texels of so many bytes.
    pub open spec fn without_glyphs(num_channels: u8) -> InnerAtlasView {
        InnerAtlasView { glyph_cache: Map::empty(), glyphs_in_use: Set::empty(), num_channels }
    }

    /// The caches once the glyph with this number is in use.
    pub open spec fn with_in_use(self, code: u128) -> InnerAtlasView {
        InnerAtlasView { glyphs_in_use: self.glyphs_in_use.insert(code), ..self }
    }

    /// The caches once the glyph with this number is in use and cached, with these details unless
    /// it was cached before.
    pub open spec fn with_glyph(self, code: u128, details: GlyphDetails) -> InnerAtlasView {
        InnerAtlasView {
            glyphs_in_use: self.glyphs_in_use.insert(code),
            glyph_cache: if self.glyph_cache.contains_key(code) {
                self.glyph_cache
            } else {
                self.glyph_cache.insert(code, details)
            },
            ..self
        }
    }
}

impl TextAtlasView {
    /// The caches of the texture for this kind of texels.
    pub open spec fn inner(self, content_type: ContentType) -> InnerAtlasView {
        match content_type {
            ContentType::Color => self.color_atlas,
            ContentType::Mask => self.mask_atlas,
        }
    }

    /// The atlas with other caches for the texture for this kind of texels.
    pub open spec fn with_inner(self, content_type: ContentType, inner: InnerAtlasView) -> TextAtlasView {
        match content_type {
            ContentType::Color => TextAtlasView { color_atlas: inner, ..self },
            ContentType::Mask => TextAtlasView { mask_atlas: inner, ..self },
        }
    }

    /// The texture that holds the glyph with this key: that of the masks where both have it.
    pub open spec fn holder(self, key: GlyphonCacheKey) -> Option<ContentType> {
        if self.mask_atlas.glyph_cache.contains_key(key.spec_code()) {
            Some(ContentType::Mask)
        } else if self.color_atlas.glyph_cache.contains_key(key.spec_code()) {
            Some(ContentType::Color)
        } else {
            None
        }
    }

    /// The details of the glyph with this key, where a texture holds it.
    pub open spec fn cached(self, key: GlyphonCacheKey) -> Option<GlyphDetails> {
        match self.holder(key) {
            Some(content_type) => Some(self.inner(content_type).glyph_cache[key.spec_code()]),
            None => None,
        }
    }

    /// Whether the glyph with this key is in use in the texture that holds it.
    pub open spec fn is_used(self, key: GlyphonCacheKey) -> bool {
        self.holder(key) matches Some(content_type) && self.inner(
            content_type,
        ).glyphs_in_use.contains(key.spec_code())
    }

    /// Whether an atlas holds the same glyphs with the same details, and writes colours the same
    /// way. Which glyphs are in use may differ.
    pub open spec fn is_kept_in(self, other: TextAtlasView) -> bool {
        &&& other.color_mode == self.color_mode
        &&& forall|key: GlyphonCacheKey| #[trigger] other.cached(key) == self.cached(key)
    }

    /// Whether an atlas holds the same glyphs with the same details, but for some that were not in
    /// use, and writes colours the same way.
    pub open spec fn is_kept_but_for_unused_in(self, other: TextAtlasView) -> bool {
        &&& other.color_mode == self.color_mode
        &&& forall|key: GlyphonCacheKey|
            self.is_used(key) || self.cached(key) is None ==> #[trigger] other.cached(key)
                == self.cached(key)
    }

    /// Whether the glyphs that are in use are in use in another atlas too.
    pub open spec fn is_in_use_in(self, other: TextAtlasView) -> bool {
        forall|key: GlyphonCacheKey| self.is_used(key) ==> #[trigger] other.is_used(key)
    }

    /// The atlas once the glyph with this key has been looked up: it is in use in the texture
    /// that holds it.
    pub open spec fn after_lookup(self, key: GlyphonCacheKey) -> TextAtlasView {
        match self.holder(key) {
            Some(content_type) => self.with_inner(
                content_type,
                self.inner(content_type).with_in_use(key.spec_code()),
            ),
            None => self,
        }
    }

    /// The texture in whose caches a new glyph is entered: that for its kind of texels, and that
    /// of the colours where it has no texels.
    pub open spec fn home(details: GlyphDetails) -> ContentType {
        match details.gpu_cache {
            GpuCacheStatus::InAtlas { content_type, .. } => content_type,
            GpuCacheStatus::SkipRasterization => ContentType::Color,
        }
    }

    /// The atlas once a glyph has been entered.
    pub open spec fn with_glyph(self, key: GlyphonCacheKey, details: GlyphDetails) -> TextAtlasView {
        let home = TextAtlasView::home(details);
        self.with_inner(home, self.inner(home).with_glyph(key.spec_code(), details))
    }

    /// The details that a glyph has once it has been entered.
    pub open spec fn details_with_glyph(
        self,
        key: GlyphonCacheKey,
        details: GlyphDetails,
    ) -> GlyphDetails {
        self.with_glyph(key, details).inner(TextAtlasView::home(details)).glyph_cache[key.spec_code()]
    }
}

impl InnerAtlas {
    /// An atlas without glyphs, for texels of so many bytes.
    pub fn new(num_channels: u8) -> (atlas: InnerAtlas)
        ensures
            atlas@ == InnerAtlasView::without_glyphs(num_channels),
            atlas@ == (InnerAtlasView {
                glyph_cache: Map::empty(),
                glyphs_in_use: Set::empty(),
                num_channels,
            }),
    {
        InnerAtlas { glyph_cache: HashMap::new(), glyphs_in_use: HashSet::new(), num_channels }
    }

    /// Looks a glyph up, and puts it in use where it is cached.
    fn lookup(&mut self, code: u128) -> (details: Option<GlyphDetails>)
        ensures
            details == (if old(self)@.glyph_cache.contains_key(code) {
                Some(old(self)@.glyph_cache[code])
            } else {
                None
            }),
            final(self)@ == (if old(self)@.glyph_cache.contains_key(code) {
                old(self)@.with_in_use(code)
            } else {
                old(self)@
            }),
    {
        let details: Option<GlyphDetails> = match self.glyph_cache.get(&code) {
            Some(details) => Some(*details),
            None => None,
        };
        if details.is_some() {
            self.glyphs_in_use.insert(code);
        }
        details
    }

    /// Puts a glyph in use and caches it unless it is cached, and returns what is then cached.
    fn get_or_insert(&mut self, code: u128, details: GlyphDetails) -> (cached: GlyphDetails)
        ensures
            final(self)@ == old(self)@.with_glyph(code, details),
            cached == final(self)@.glyph_cache[code],
    {
        self.glyphs_in_use.insert(code);
        let known: Option<GlyphDetails> = match self.glyph_cache.get(&code) {
            Some(details) => Some(*details),
            None => None,
        };
        match known {
            Some(known) => known,
            None => {
                self.glyph_cache.insert(code, details);
                details
            },
        }
    }
}

impl TextAtlas {
    /// Looks a glyph up, first among the masks and then among the colours, and puts it in use in
    /// the texture that holds it.
    pub fn lookup(&mut self, key: GlyphonCacheKey) -> (details: Option<GlyphDetails>)
        ensures
            details == old(self)@.cached(key),
            final(self)@ == old(self)@.after_lookup(key),
    {
        let code: u128 = key.code();
        let details: Option<GlyphDetails> = self.mask_atlas.lookup(code);
        if details.is_some() {
            return details;
        }
        self.color_atlas.lookup(code)
    }

    /// Enters a glyph that was rasterized, and returns its details.
    pub fn insert_glyph(&mut self, key: GlyphonCacheKey, details: GlyphDetails) -> (cached:
        GlyphDetails)
        ensures
            final(self)@ == old(self)@.with_glyph(key, details),
            cached == old(self)@.details_with_glyph(key, details),
    {
        let code: u128 = key.code();
        match details.gpu_cache {
            GpuCacheStatus::InAtlas { content_type: ContentType::Mask, .. } => {
                self.mask_atlas.get_or_insert(code, details)
            },
            _ => self.color_atlas.get_or_insert(code, details),
        }
    }

    /// The number of bytes of a texel of the texture for this kind of texels.
    pub fn num_channels(&self, content_type: ContentType) -> (channels: u8)
        ensures
            channels == self@.inner(content_type).num_channels,
    {
        match content_type {
            ContentType::Color => self.color_atlas.num_channels,
            ContentType::Mask => self.mask_atlas.num_channels,
        }
    }
}

/// A glyph that was entered is found with its details from then on, and looking it up, or any
/// other glyph, forgets nothing.
pub proof fn entered_glyph_is_found(
    atlas: TextAtlasView,
    key: GlyphonCacheKey,
    details: GlyphDetails,
    other: GlyphonCacheKey,
)
    requires
        atlas.cached(key) is None,
    ensures
        atlas.with_glyph(key, details).cached(key) == Some(details),
        atlas.details_with_glyph(key, details) == details,
        atlas.with_glyph(key, details).after_lookup(other).cached(key) == Some(details),
        atlas.after_lookup(other).cached(key) is None,
{
}

/// Entering one glyph changes nothing that is known of another.
pub proof fn entering_keeps_other_glyphs(
    atlas: TextAtlasView,
    key: GlyphonCacheKey,
    details: GlyphDetails,
    other: GlyphonCacheKey,
)
    requires
        other != key,
    ensures
        atlas.with_glyph(key, details).cached(other) == atlas.cached(other),
        atlas.with_glyph(key, details).is_used(other) == atlas.is_used(other),
        atlas.after_lookup(key).cached(other) == atlas.cached(other),
        atlas.after_lookup(key).is_used(other) == atlas.is_used(other),
{
    if key.spec_code() == other.spec_code() {
        key.code_is_injective(other);
    }
}

/// Looking a glyph up keeps all glyphs with their details, and those that are in use stay so.
pub proof fn lookup_keeps_every_glyph(atlas: TextAtlasView, key: GlyphonCacheKey)
    ensures
        atlas.is_kept_in(atlas.after_lookup(key)),
        atlas.is_in_use_in(atlas.after_lookup(key)),
{
    assert forall|other: GlyphonCacheKey| #[trigger]
        atlas.after_lookup(key).cached(other) == atlas.cached(other) by {
        if other != key {
            entering_keeps_other_glyphs(
                atlas,
                key,
                atlas.cached(key).unwrap(),
                other,
            );
        }
    }
}

/// A glyph that was looked up and found, or entered, is in use in the texture that holds it.
pub proof fn prepared_glyph_is_in_use(
    atlas: TextAtlasView,
    key: GlyphonCacheKey,
    details: GlyphDetails,
)
    ensures
        atlas.cached(key) is Some ==> atlas.after_lookup(key).is_used(key),
        atlas.cached(key) is None ==> atlas.with_glyph(key, details).is_used(key),
        atlas.with_glyph(key, details).inner(TextAtlasView::home(details)).glyphs_in_use.contains(
            key.spec_code(),
        ),
{
}

/// A glyph is looked for among the masks first and then among the colours.
pub proof fn lookup_prefers_masks(atlas: TextAtlasView, key: GlyphonCacheKey)
    ensures
        ({
            let code = key.spec_code();
            let masks = atlas.mask_atlas.glyph_cache;
            let colors = atlas.color_atlas.glyph_cache;
            match atlas.cached(key) {
                Some(details) => {
                    ||| masks.contains_key(code) && details == masks[code]
                    ||| !masks.contains_key(code) && colors.contains_key(code) && details
                        == colors[code]
                },
                None => !masks.contains_key(code) && !colors.contains_key(code),
            }
        }),
{
}

/// Looking a glyph up puts it in use in the texture in which it was found, and changes nothing
/// else.
pub proof fn lookup_changes_use_only(atlas: TextAtlasView, key: GlyphonCacheKey)
    ensures
        ({
            let code = key.spec_code();
            let after = atlas.after_lookup(key);
            let in_masks = atlas.mask_atlas.glyph_cache.contains_key(code);
            let in_colors = atlas.color_atlas.glyph_cache.contains_key(code);
            &&& after.color_mode == atlas.color_mode
            &&& after.mask_atlas.glyph_cache == atlas.mask_atlas.glyph_cache
            &&& after.color_atlas.glyph_cache == atlas.color_atlas.glyph_cache
            &&& after.mask_atlas.num_channels == atlas.mask_atlas.num_channels
            &&& after.color_atlas.num_channels == atlas.color_atlas.num_channels
            &&& in_masks ==> after.mask_atlas.glyphs_in_use
                == atlas.mask_atlas.glyphs_in_use.insert(code)
            &&& !in_masks ==> after.mask_atlas.glyphs_in_use == atlas.mask_atlas.glyphs_in_use
            &&& !in_masks && in_colors ==> after.color_atlas.glyphs_in_use
                == atlas.color_atlas.glyphs_in_use.insert(code)
            &&& in_masks || !in_colors ==> after.color_atlas.glyphs_in_use
                == atlas.color_atlas.glyphs_in_use
        }),
{
}

/// A glyph is entered into the caches of the texture that holds its texels, and among the colours
/// where it has none: there it is in use, and cached with its details unless it was cached before.
/// Nothing else changes.
pub proof fn glyph_is_entered_by_its_texels(
    atlas: TextAtlasView,
    key: GlyphonCacheKey,
    details: GlyphDetails,
)
    ensures
        ({
            let code = key.spec_code();
            let after = atlas.with_glyph(key, details);
            let is_mask = match details.gpu_cache {
                GpuCacheStatus::InAtlas { content_type, .. } => content_type is Mask,
                GpuCacheStatus::SkipRasterization => false,
            };
            let (before_home, home) = if is_mask {
                (atlas.mask_atlas, after.mask_atlas)
            } else {
                (atlas.color_atlas, after.color_atlas)
            };
            &&& after.color_mode == atlas.color_mode
            &&& is_mask ==> after.color_atlas == atlas.color_atlas
            &&& !is_mask ==> after.mask_atlas == atlas.mask_atlas
            &&& home.num_channels == before_home.num_channels
            &&& home.glyphs_in_use == before_home.glyphs_in_use.insert(code)
            &&& !before_home.glyph_cache.contains_key(code) ==> home.glyph_cache
                == before_home.glyph_cache.insert(code, details) && atlas.details_with_glyph(
                key,
                details,
            ) == details
            &&& before_home.glyph_cache.contains_key(code) ==> home.glyph_cache
                == before_home.glyph_cache && atlas.details_with_glyph(key, details)
                == before_home.glyph_cache[code]
        }),
{
}

/// The caches for a kind of texels are those of its texture.
pub proof fn caches_belong_to_kinds_of_texels(atlas: TextAtlasView)
    ensures
        atlas.inner(ContentType::Color) == atlas.color_atlas,
        atlas.inner(ContentType::Mask) == atlas.mask_atlas,
{
}

/// The shader is told by 1 to convert colours to linear light, and by 0 to leave them.
pub proof fn colour_modes_have_numbers(mode: ColorMode)
    ensures
        mode is Accurate ==> mode.spec_conversion() == 1,
        mode is Web ==> mode.spec_conversion() == 0,
{
}

/// A new atlas holds no glyph, has none in use, and has texels of as many bytes as it was made for.
pub proof fn new_atlas_holds_nothing(num_channels: u8, code: u128)
    ensures
        !InnerAtlasView::without_glyphs(num_channels).glyph_cache.contains_key(code),
        !InnerAtlasView::without_glyphs(num_channels).glyphs_in_use.contains(code),
        InnerAtlasView::without_glyphs(num_channels).num_channels == num_channels,
{
}

} // verus!
