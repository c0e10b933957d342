//! Pixel geometry: the bounds of a text area, the visibility of its lines, and the clipping of a
//! glyph to the bounds.
use vstd::prelude::*;

verus! {

/// The size of a screen in pixels.
#[derive(Clone, Copy, Debug, PartialEq, Eq, Structural)]
pub struct Resolution {
    pub width: u32,
    pub height: u32,
}

/// The visible rectangle of a text area in pixels.
#[derive(Clone, Copy, Debug, PartialEq, Eq, Structural)]
pub struct TextBounds {
    pub left: i32,
    pub top: i32,
    pub right: i32,
    pub bottom: i32,
}

/// The pixels of one axis on which glyphs are shown.
#[derive(Clone, Copy, Debug, PartialEq, Eq, Structural)]
pub struct Bounds {
    pub min: i32,
    pub max: i32,
}

/// The pixels on which the glyphs of a text area are shown.
#[derive(Clone, Copy, Debug, PartialEq, Eq, Structural)]
pub struct GlyphBounds {
    pub x: Bounds,
    pub y: Bounds,
}

pub open spec fn min_of(a: int, b: int) -> int {
    if a <= b {
        a
    } else {
        b
    }
}

pub open spec fn max_of(a: int, b: int) -> int {
    if a >= b {
        a
    } else {
        b
    }
}

/// Whether an `i32` holds this number.
pub open spec fn fits_i32(value: int) -> bool {
    i32::MIN <= value <= i32::MAX
}

/// The number that an `i32` with the bits of `value` holds.
pub open spec fn as_signed(value: u32) -> int {
    if value <= i32::MAX {
        value as int
    } else {
        value - 0x1_0000_0000
    }
}

/// `value` as an `i32` with the same bits.
fn to_signed(value: u32) -> (signed: i32)
    ensures
        signed == as_signed(value),
{
    let signed: i32 = #[verifier::truncate] (value as i32);
    proof {
        assert(signed == (if value <= 0x7fff_ffffu32 {
            value as int
        } else {
            value - 0x1_0000_0000
        })) by (bit_vector)
            requires
                signed == value as i32,
        ;
    }
    signed
}

/// The pixels of one axis that lie both in an area (`from`, `to`) and on a screen with `extent`
/// pixels.
pub open spec fn screen_axis(from: i32, to: i32, extent: u32) -> Bounds {
    Bounds { min: max_of(from as int, 0) as i32, max: min_of(to as int, as_signed(extent)) as i32 }
}

/// The bounds to which glyphs are clipped: the part of the area on the screen for text that is
/// drawn as it is laid out, and half of the coordinate range, so that nothing is cut off, for
/// text that is transformed.
pub open spec fn spec_glyph_bounds(
    is_identity: bool,
    bounds: TextBounds,
    resolution: Resolution,
) -> GlyphBounds {
    if is_identity {
        GlyphBounds {
            x: screen_axis(bounds.left, bounds.right, resolution.width),
            y: screen_axis(bounds.top, bounds.bottom, resolution.height),
        }
    } else {
        let all = Bounds { min: (-0x4000_0000) as i32, max: 0x3fff_ffff };
        GlyphBounds { x: all, y: all }
    }
}

fn clamp_axis(from: i32, to: i32, extent: u32) -> (bounds: Bounds)
    ensures
        bounds == screen_axis(from, to, extent),
{
    let extent: i32 = to_signed(extent);
    Bounds {
        min: if from >= 0 {
            from
        } else {
            0
        },
        max: if to <= extent {
            to
        } else {
            extent
        },
    }
}

/// The bounds to which the glyphs of a text area are clipped.
pub fn glyph_bounds(is_identity: bool, bounds: TextBounds, resolution: Resolution) -> (clip:
    GlyphBounds)
    ensures
        clip == spec_glyph_bounds(is_identity, bounds, resolution),
{
    if is_identity {
        GlyphBounds {
            x: clamp_axis(bounds.left, bounds.right, resolution.width),
            y: clamp_axis(bounds.top, bounds.bottom, resolution.height),
        }
    } else {
        // The GPU clips transformed text.
        let all = Bounds { min: i32::MIN / 2, max: i32::MAX / 2 };
        GlyphBounds { x: all, y: all }
    }
}

/// Whether a line of text is drawn.
#[derive(Clone, Copy, Debug, PartialEq, Eq, Structural)]
pub enum RunVisibility {
    Visible,
    Hidden,
    /// The bottom of the line is no `i32`.
    Overflow,
}

/// Whether a line that starts at `start` and is `height` high is drawn: every line of transformed
/// text, and otherwise the lines that meet the area between its top and its bottom.
pub open spec fn run_visibility(
    is_identity: bool,
    bounds: TextBounds,
    start: i32,
    height: i32,
) -> RunVisibility {
    if !is_identity {
        RunVisibility::Visible
    } else if !fits_i32(start + height) {
        RunVisibility::Overflow
    } else if start <= bounds.bottom && bounds.top <= start + height {
        RunVisibility::Visible
    } else {
        RunVisibility::Hidden
    }
}

/// Decides whether a line of text is drawn.
pub fn is_run_visible(is_identity: bool, bounds: TextBounds, start: i32, height: i32) -> (visible:
    RunVisibility)
    ensures
        visible == run_visibility(is_identity, bounds, start, height),
{
    if !is_identity {
        return RunVisibility::Visible;
    }
    match start.checked_add(height) {
        Some(end) => {
            if start <= bounds.bottom && bounds.top <= end {
                RunVisibility::Visible
            } else {
                RunVisibility::Hidden
            }
        },
        None => RunVisibility::Overflow,
    }
}

/// What is left of a glyph on one axis.
#[derive(Clone, Copy, Debug, PartialEq, Eq, Structural)]
pub struct ClippedAxis {
    /// The first pixel that is shown.
    pub start: i32,
    /// The number of pixels that are shown. It is zero where the bounds are reversed, that is,
    /// where their end comes before their start.
    pub len: u16,
    /// The number of texels that are cut off before the first that is shown.
    pub skipped: u16,
}

/// Whether the pixels from `start` to `start + len` come no later than the end and no earlier
/// than the start of the bounds.
pub open spec fn touches(start: int, len: int, bounds: Bounds) -> bool {
    start <= bounds.max && bounds.min <= start + len
}

/// The pixels from `start` to `start + len` that lie in the bounds.
pub open spec fn clipped(start: int, len: int, bounds: Bounds) -> ClippedAxis {
    let first = max_of(start, bounds.min as int);
    let end = min_of(start + len, bounds.max as int);
    ClippedAxis {
        start: first as i32,
        len: max_of(end - first, 0) as u16,
        skipped: (first - start) as u16,
    }
}

/// The part of a glyph with `len` texels from `start` on that lies in the bounds, or `None` where
/// the glyph starts behind them or ends before them.
fn clip_axis(start: i32, len: u16, bounds: Bounds) -> (part: Option<ClippedAxis>)
    requires
        fits_i32(start + len),
    ensures
        part is Some <==> touches(start as int, len as int, bounds),
        part matches Some(axis) ==> axis == clipped(start as int, len as int, bounds),
        part matches Some(axis) ==> axis.start == max_of(start as int, bounds.min as int)
            && axis.start + axis.len == max_of(
            min_of(start + len, bounds.max as int),
            axis.start as int,
        ) && axis.start - axis.skipped == start && axis.skipped <= len,
{
    let mut first: i32 = start;
    let mut shown: i32 = len as i32;
    let mut skipped: u16 = 0;
    let end: i32 = start + shown;
    if start > bounds.max || end < bounds.min {
        return None;
    }
    if start < bounds.min {
        skipped = (bounds.min - start) as u16;
        first = bounds.min;
        shown = end - bounds.min;
    }
    if first + shown > bounds.max {
        shown = if first > bounds.max {
            0
        } else {
            bounds.max - first
        };
    }
    Some(ClippedAxis { start: first, len: shown as u16, skipped })
}

/// Where a rasterized glyph, or a part of one, lies: its top left pixel, its size, and its top left
/// texel in the atlas.
#[derive(Clone, Copy, Debug, PartialEq, Eq, Structural)]
pub struct GlyphRect {
    pub x: i32,
    pub y: i32,
    pub width: u16,
    pub height: u16,
    pub atlas_x: u16,
    pub atlas_y: u16,
}

/// What clipping leaves of a glyph.
#[derive(Clone, Copy, Debug, PartialEq, Eq, Structural)]
pub enum Clip {
    Visible(GlyphRect),
    Hidden,
    /// A pixel coordinate is no `i32`, or a texel coordinate no `u16`.
    Overflow,
}

/// The number that the low 16 bits of `value` hold.
pub open spec fn low_16_bits(value: int) -> u16 {
    (value % 0x1_0000) as u16
}

/// `value` as a `u16` with the same low bits.
pub(crate) fn to_u16(value: i32) -> (low: u16)
    ensures
        low == low_16_bits(value as int),
        0 <= value <= u16::MAX ==> low == value,
{
    let low: u16 = #[verifier::truncate] (value as u16);
    proof {
        assert(low == value % 0x1_0000) by (bit_vector)
            requires
                low == value as u16,
        ;
    }
    low
}

/// What is left of a glyph in the bounds. The far edge on the x axis is computed before anything
/// is decided, that on the y axis once the glyph is known to touch the bounds on the x axis, and
/// the texels once the glyph is known to be drawn.
pub open spec fn clip(glyph: GlyphRect, bounds: GlyphBounds) -> Clip {
    let x = clipped(glyph.x as int, glyph.width as int, bounds.x);
    let y = clipped(glyph.y as int, glyph.height as int, bounds.y);
    if !fits_i32(glyph.x + glyph.width) {
        Clip::Overflow
    } else if !touches(glyph.x as int, glyph.width as int, bounds.x) {
        Clip::Hidden
    } else if !fits_i32(glyph.y + glyph.height) {
        Clip::Overflow
    } else if !touches(glyph.y as int, glyph.height as int, bounds.y) {
        Clip::Hidden
    } else if glyph.atlas_x + x.skipped > u16::MAX || glyph.atlas_y + y.skipped > u16::MAX {
        Clip::Overflow
    } else {
        Clip::Visible(
            GlyphRect {
                x: x.start,
                y: y.start,
                width: x.len,
                height: y.len,
                atlas_x: (glyph.atlas_x + x.skipped) as u16,
                atlas_y: (glyph.atlas_y + y.skipped) as u16,
            },
        )
    }
}

/// Clips a glyph to the bounds.
pub fn clip_glyph(glyph: GlyphRect, bounds: GlyphBounds) -> (part: Clip)
    ensures
        part == clip(glyph, bounds),
{
    if glyph.x.checked_add(glyph.width as i32).is_none() {
        return Clip::Overflow;
    }
    // Starts beyond the right edge or ends beyond the left edge.
    let x: ClippedAxis = match clip_axis(glyph.x, glyph.width, bounds.x) {
        Some(axis) => axis,
        None => return Clip::Hidden,
    };
    if glyph.y.checked_add(glyph.height as i32).is_none() {
        return Clip::Overflow;
    }
    // Starts beyond the bottom edge or ends beyond the top edge.
    let y: ClippedAxis = match clip_axis(glyph.y, glyph.height, bounds.y) {
        Some(axis) => axis,
        None => return Clip::Hidden,
    };
    match (glyph.atlas_x.checked_add(x.skipped), glyph.atlas_y.checked_add(y.skipped)) {
        (Some(atlas_x), Some(atlas_y)) => Clip::Visible(
            GlyphRect {
                x: x.start,
                y: y.start,
                width: x.len,
                height: y.len,
                atlas_x,
                atlas_y,
            },
        ),
        _ => Clip::Overflow,
    }
}

/// What is drawn of a glyph is part of the glyph and starts in the bounds, every pixel of it lies
/// in the bounds, and every pixel shows the texel that it would show if the glyph were not clipped.
pub proof fn clipped_glyph_is_part_of_glyph(glyph: GlyphRect, bounds: GlyphBounds)
    ensures
        clip(glyph, bounds) matches Clip::Visible(part) ==> {
            &&& bounds.x.min <= part.x && bounds.y.min <= part.y
            &&& part.width > 0 ==> part.x + part.width <= bounds.x.max
            &&& part.height > 0 ==> part.y + part.height <= bounds.y.max
            &&& glyph.x <= part.x && part.x + part.width <= glyph.x + glyph.width
            &&& glyph.y <= part.y && part.y + part.height <= glyph.y + glyph.height
            &&& part.atlas_x - part.x == glyph.atlas_x - glyph.x
            &&& part.atlas_y - part.y == glyph.atlas_y - glyph.y
        },
{
}

/// Clipping loses no pixel: a pixel of the glyph that lies in the bounds lies in the part that is
/// drawn, and no pixel of a hidden glyph lies in the bounds.
pub proof fn clipping_keeps_visible_pixels(glyph: GlyphRect, bounds: GlyphBounds, x: int, y: int)
    requires
        bounds.x.min <= x < bounds.x.max,
        bounds.y.min <= y < bounds.y.max,
        glyph.x <= x < glyph.x + glyph.width,
        glyph.y <= y < glyph.y + glyph.height,
    ensures
        clip(glyph, bounds) != Clip::Hidden,
        clip(glyph, bounds) matches Clip::Visible(part) ==> part.x <= x < part.x + part.width
            && part.y <= y < part.y + part.height,
{
}

/// A glyph that lies in the bounds is drawn whole.
pub proof fn glyph_inside_bounds_is_unclipped(glyph: GlyphRect, bounds: GlyphBounds)
    requires
        bounds.x.min <= glyph.x && glyph.x + glyph.width <= bounds.x.max,
        bounds.y.min <= glyph.y && glyph.y + glyph.height <= bounds.y.max,
    ensures
        clip(glyph, bounds) == Clip::Visible(glyph),
{
}

/// A glyph of transformed text is drawn whole wherever it lies in half of the coordinate range,
/// whatever the bounds of its area and the size of the screen are.
pub proof fn transformed_text_is_unclipped(
    glyph: GlyphRect,
    bounds: TextBounds,
    resolution: Resolution,
)
    requires
        -0x4000_0000 <= glyph.x && glyph.x + glyph.width <= 0x3fff_ffff,
        -0x4000_0000 <= glyph.y && glyph.y + glyph.height <= 0x3fff_ffff,
    ensures
        clip(glyph, spec_glyph_bounds(false, bounds, resolution)) == Clip::Visible(glyph),
{
    glyph_inside_bounds_is_unclipped(glyph, spec_glyph_bounds(false, bounds, resolution));
}

/// Text that is not transformed is drawn on the screen and in its area only: a glyph of which any
/// pixel is drawn lies on the screen and in the area. It holds for every screen and every area,
/// and where the two do not meet, no pixel is drawn.
pub proof fn untransformed_text_stays_on_screen(
    glyph: GlyphRect,
    bounds: TextBounds,
    resolution: Resolution,
)
    ensures
        clip(glyph, spec_glyph_bounds(true, bounds, resolution)) matches Clip::Visible(part) ==> (
        part.width > 0 && part.height > 0 ==> {
            &&& 0 <= part.x && part.x + part.width <= resolution.width
            &&& 0 <= part.y && part.y + part.height <= resolution.height
            &&& bounds.left <= part.x && part.x + part.width <= bounds.right
            &&& bounds.top <= part.y && part.y + part.height <= bounds.bottom
        }),
{
    clipped_glyph_is_part_of_glyph(glyph, spec_glyph_bounds(true, bounds, resolution));
}

/// A pixel lies in the bounds of untransformed text, on either axis, just where it lies in the area
/// and on the screen.
pub proof fn bounds_hold_pixels_of_area_on_screen(
    bounds: TextBounds,
    resolution: Resolution,
    pixel: int,
)
    requires
        resolution.width <= i32::MAX,
        resolution.height <= i32::MAX,
    ensures
        ({
            let clip = spec_glyph_bounds(true, bounds, resolution);
            &&& clip.x.min <= pixel < clip.x.max <==> bounds.left <= pixel < bounds.right && 0
                <= pixel < resolution.width
            &&& clip.y.min <= pixel < clip.y.max <==> bounds.top <= pixel < bounds.bottom && 0
                <= pixel < resolution.height
        }),
{
}

/// The bounds of untransformed text start at the later of the two edges of the area and the screen
/// and end at the earlier of their other edges. A screen size that is no `i32` counts as the
/// negative number with its bits.
pub proof fn bounds_are_inner_edges(bounds: TextBounds, resolution: Resolution)
    ensures
        ({
            let clip = spec_glyph_bounds(true, bounds, resolution);
            let wide = resolution.width >= 0x8000_0000u32;
            let high = resolution.height >= 0x8000_0000u32;
            let width = resolution.width - if wide { 0x1_0000_0000int } else { 0 };
            let height = resolution.height - if high { 0x1_0000_0000int } else { 0 };
            &&& clip.x.min >= bounds.left && clip.x.min >= 0
            &&& clip.x.min == bounds.left || clip.x.min == 0
            &&& clip.x.max <= bounds.right && clip.x.max <= width
            &&& clip.x.max == bounds.right || clip.x.max == width
            &&& clip.y.min >= bounds.top && clip.y.min >= 0
            &&& clip.y.min == bounds.top || clip.y.min == 0
            &&& clip.y.max <= bounds.bottom && clip.y.max <= height
            &&& clip.y.max == bounds.bottom || clip.y.max == height
        }),
{
}

/// The bounds of transformed text are the inner half of the coordinate range, whatever the area and
/// the screen are.
pub proof fn bounds_of_transformed_text_are_wide(bounds: TextBounds, resolution: Resolution)
    ensures
        ({
            let clip = spec_glyph_bounds(false, bounds, resolution);
            &&& clip.x.min == -1073741824 && clip.x.max == 1073741823
            &&& clip.y.min == -1073741824 && clip.y.max == 1073741823
        }),
{
}

/// Nothing visible is cut off: every pixel of a glyph of untransformed text that lies in the area
/// and on the screen is drawn, with the texel that belongs to it.
pub proof fn visible_pixel_is_drawn(
    glyph: GlyphRect,
    bounds: TextBounds,
    resolution: Resolution,
    x: int,
    y: int,
)
    requires
        resolution.width <= i32::MAX,
        resolution.height <= i32::MAX,
        glyph.x + glyph.width <= i32::MAX,
        glyph.y + glyph.height <= i32::MAX,
        glyph.atlas_x + glyph.width <= u16::MAX,
        glyph.atlas_y + glyph.height <= u16::MAX,
        glyph.x <= x < glyph.x + glyph.width,
        glyph.y <= y < glyph.y + glyph.height,
        bounds.left <= x < bounds.right && 0 <= x < resolution.width,
        bounds.top <= y < bounds.bottom && 0 <= y < resolution.height,
    ensures
        clip(glyph, spec_glyph_bounds(true, bounds, resolution)) matches Clip::Visible(part) && {
            &&& part.x <= x < part.x + part.width
            &&& part.y <= y < part.y + part.height
            &&& part.atlas_x + (x - part.x) == glyph.atlas_x + (x - glyph.x)
            &&& part.atlas_y + (y - part.y) == glyph.atlas_y + (y - glyph.y)
        },
{
    bounds_hold_pixels_of_area_on_screen(bounds, resolution, x);
    bounds_hold_pixels_of_area_on_screen(bounds, resolution, y);
}

/// What becomes of a glyph follows from its edges and those of the bounds. It is hidden where it
/// starts behind the bounds or ends before them on an axis. Otherwise it is drawn from the later of
/// the two near edges to the earlier of the two far ones, and from the texel that belongs there, as
/// long as its far edges and that texel are in range.
pub proof fn edges_decide_clipping(glyph: GlyphRect, bounds: GlyphBounds)
    ensures
        ({
            let right = glyph.x + glyph.width;
            let bottom = glyph.y + glyph.height;
            let beside = glyph.x > bounds.x.max || right < bounds.x.min;
            let above_or_below = glyph.y > bounds.y.max || bottom < bounds.y.min;
            let skipped_x = if glyph.x < bounds.x.min { bounds.x.min - glyph.x } else { 0 };
            let skipped_y = if glyph.y < bounds.y.min { bounds.y.min - glyph.y } else { 0 };
            let end_x = if right < bounds.x.max { right } else { bounds.x.max as int };
            let end_y = if bottom < bounds.y.max { bottom } else { bounds.y.max as int };
            match clip(glyph, bounds) {
                Clip::Hidden => right <= 0x7fff_ffff && (beside || (bottom <= 0x7fff_ffff
                    && above_or_below)),
                Clip::Overflow => right > 0x7fff_ffff || (!beside && (bottom > 0x7fff_ffff || (
                !above_or_below && (glyph.atlas_x + skipped_x > 0xffff || glyph.atlas_y + skipped_y
                    > 0xffff)))),
                Clip::Visible(part) => {
                    &&& right <= 0x7fff_ffff && bottom <= 0x7fff_ffff
                    &&& !beside && !above_or_below
                    &&& part.x == glyph.x + skipped_x && part.y == glyph.y + skipped_y
                    &&& part.atlas_x == glyph.atlas_x + skipped_x
                    &&& part.atlas_y == glyph.atlas_y + skipped_y
                    &&& end_x > part.x ==> part.x + part.width == end_x
                    &&& end_x <= part.x ==> part.width == 0
                    &&& end_y > part.y ==> part.y + part.height == end_y
                    &&& end_y <= part.y ==> part.height == 0
                },
            }
        }),
{
}

/// A line of untransformed text that shares a row of pixels with its area is drawn.
pub proof fn line_in_area_is_drawn(bounds: TextBounds, start: i32, height: i32, y: int)
    requires
        start + height <= i32::MAX,
        start <= y < start + height,
        bounds.top <= y < bounds.bottom,
    ensures
        run_visibility(true, bounds, start, height) == RunVisibility::Visible,
{
}

/// A line of untransformed text is left out just where it starts below the bottom of its area or
/// ends above its top, and it cannot be decided just where its bottom is no `i32`.
pub proof fn line_outside_of_area_is_left_out(bounds: TextBounds, start: i32, height: i32)
    ensures
        ({
            let in_range = -0x8000_0000 <= start + height <= 0x7fff_ffff;
            let outside = start > bounds.bottom || start + height < bounds.top;
            match run_visibility(true, bounds, start, height) {
                RunVisibility::Overflow => !in_range,
                RunVisibility::Hidden => in_range && outside,
                RunVisibility::Visible => in_range && !outside,
            }
        }),
{
}

/// Where an area starts and ends on the x axis plays no part in which of its lines are drawn, and
/// nothing of the area does where its text is transformed.
pub proof fn sides_do_not_hide_lines(
    bounds: TextBounds,
    other: TextBounds,
    start: i32,
    height: i32,
)
    ensures
        bounds.top == other.top && bounds.bottom == other.bottom ==> run_visibility(
            true,
            bounds,
            start,
            height,
        ) == run_visibility(true, other, start, height),
        run_visibility(false, bounds, start, height) == RunVisibility::Visible,
{
}

/// The low 16 bits of a number differ from it by a multiple of their range, and a number in that
/// range is its own low bits.
pub proof fn low_bits_keep_small_numbers(value: int)
    ensures
        (value - low_16_bits(value)) % 65536 == 0,
        0 <= value <= 65535 ==> low_16_bits(value) == value,
{
}

} // verus!
