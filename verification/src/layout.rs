//! Text areas, and the order in which their glyphs are prepared.
use vstd::prelude::*;
use crate::atlas::{CustomGlyphCacheKey, GlyphonCacheKey};
use crate::geometry;
use crate::geometry::{GlyphBounds, Resolution, RunVisibility, TextBounds};
use crate::image::{RasterizeCustomGlyphRequest, SubpixelBin};
use crate::transform;

verus! {

/// A custom glyph of a text area, scaled and moved to the place of the area.
#[derive(Clone, Copy, Debug, PartialEq, Eq, Structural)]
pub struct CustomGlyph {
    pub id: u16,
    /// The glyph's place, rounded to whole pixels.
    pub rounded_x: i32,
    pub rounded_y: i32,
    /// The glyph's place in quarters of a pixel.
    pub binned_x: i32,
    pub x_bin: SubpixelBin,
    pub binned_y: i32,
    pub y_bin: SubpixelBin,
    pub width: u16,
    pub height: u16,
    pub color: Option<u32>,
    pub snap_to_physical_pixel: bool,
    pub metadata: usize,
}

/// A glyph of a line of text, scaled and moved to the place of its area.
#[derive(Clone, Copy, Debug, PartialEq, Eq, Structural)]
pub struct LayoutGlyph {
    pub x: i32,
    pub y: i32,
    /// The number that stands for the glyph's key in the font system.
    pub cache_key: u64,
    pub color_opt: Option<u32>,
    pub metadata: usize,
}

/// A line of laid out text.
pub struct LayoutRun {
    /// The top of the line on the screen.
    pub start_y: i32,
    /// The height of the line on the screen.
    pub height: i32,
    /// The offset of the line's baseline, scaled and rounded.
    pub line_y: i32,
    pub glyphs: Vec<LayoutGlyph>,
}

/// A text area.
pub struct TextArea {
    /// The columns of the transformation of the area, each entry by its bits.
    pub transform: [[u32; 4]; 4],
    /// The zoom of the area, by its bits.
    pub zoom: u32,
    pub bounds: TextBounds,
    pub default_color: u32,
    pub custom_glyphs: Vec<CustomGlyph>,
    /// The lines of the area, from the first on.
    pub runs: Vec<LayoutRun>,
}

/// What a glyph is prepared with.
#[derive(Clone, Copy, Debug, PartialEq, Eq, Structural)]
pub struct GlyphMetadata {
    pub x: i32,
    pub y: i32,
    pub line_y: i32,
    pub color: u32,
    pub metadata: usize,
    pub cache_key: GlyphonCacheKey,
}

/// Where the image of a glyph comes from.
#[derive(Clone, Copy, Debug, PartialEq, Eq, Structural)]
pub enum GlyphSource {
    /// The font rasterizer.
    Text,
    /// The rasterizer of custom glyphs, with this request.
    Custom(RasterizeCustomGlyphRequest),
}

/// A glyph that is to be prepared.
#[derive(Clone, Copy, Debug, PartialEq, Eq, Structural)]
pub struct GlyphJob {
    pub metadata: GlyphMetadata,
    pub source: GlyphSource,
}

/// Where the image of the glyph with this key comes from.
pub open spec fn source_of(key: GlyphonCacheKey) -> GlyphSource {
    match key {
        GlyphonCacheKey::Text(_) => GlyphSource::Text,
        GlyphonCacheKey::Custom(key) => GlyphSource::Custom(
            RasterizeCustomGlyphRequest {
                id: key.glyph_id,
                width: key.width,
                height: key.height,
                x_bin: key.x_bin,
                y_bin: key.y_bin,
            },
        ),
    }
}

/// What comes next in a text area.
#[derive(Clone, Copy, Debug, PartialEq, Eq, Structural)]
pub enum AreaItem {
    Glyph(GlyphJob),
    /// The bottom of a line is no `i32`.
    Overflow,
}

pub open spec fn color_or(color: Option<u32>, default_color: u32) -> u32 {
    match color {
        Some(color) => color,
        None => default_color,
    }
}

fn resolve_color(color: Option<u32>, default_color: u32) -> (resolved: u32)
    ensures
        resolved == color_or(color, default_color),
{
    match color {
        Some(color) => color,
        None => default_color,
    }
}

impl CustomGlyph {
    /// The glyph as it is prepared: at whole pixels where it snaps to them, at quarters of a pixel
    /// otherwise.
    pub open spec fn spec_job(self, default_color: u32) -> GlyphJob {
        let (x, y, x_bin, y_bin) = if self.snap_to_physical_pixel {
            (self.rounded_x, self.rounded_y, SubpixelBin::Zero, SubpixelBin::Zero)
        } else {
            (self.binned_x, self.binned_y, self.x_bin, self.y_bin)
        };
        GlyphJob {
            metadata: GlyphMetadata {
                x,
                y,
                line_y: 0,
                color: color_or(self.color, default_color),
                metadata: self.metadata,
                cache_key: GlyphonCacheKey::Custom(
                    CustomGlyphCacheKey {
                        glyph_id: self.id,
                        width: self.width,
                        height: self.height,
                        x_bin,
                        y_bin,
                    },
                ),
            },
            source: GlyphSource::Custom(
                RasterizeCustomGlyphRequest {
                    id: self.id,
                    width: self.width,
                    height: self.height,
                    x_bin,
                    y_bin,
                },
            ),
        }
    }

    /// The glyph as it is prepared.
    pub fn job(&self, default_color: u32) -> (job: GlyphJob)
        ensures
            job == self.spec_job(default_color),
    {
        let (x, y, x_bin, y_bin): (i32, i32, SubpixelBin, SubpixelBin) =
            if self.snap_to_physical_pixel {
            (self.rounded_x, self.rounded_y, SubpixelBin::Zero, SubpixelBin::Zero)
        } else {
            (self.binned_x, self.binned_y, self.x_bin, self.y_bin)
        };
        GlyphJob {
            metadata: GlyphMetadata {
                x,
                y,
                line_y: 0,
                color: resolve_color(self.color, default_color),
                metadata: self.metadata,
                cache_key: GlyphonCacheKey::Custom(
                    CustomGlyphCacheKey {
                        glyph_id: self.id,
                        width: self.width,
                        height: self.height,
                        x_bin,
                        y_bin,
                    },
                ),
            },
            source: GlyphSource::Custom(
                RasterizeCustomGlyphRequest {
                    id: self.id,
                    width: self.width,
                    height: self.height,
                    x_bin,
                    y_bin,
                },
            ),
        }
    }
}

impl LayoutGlyph {
    /// The glyph as it is prepared, in a line with this baseline.
    pub open spec fn spec_job(self, line_y: i32, default_color: u32) -> GlyphJob {
        GlyphJob {
            metadata: GlyphMetadata {
                x: self.x,
                y: self.y,
                line_y,
                color: color_or(self.color_opt, default_color),
                metadata: self.metadata,
                cache_key: GlyphonCacheKey::Text(self.cache_key),
            },
            source: GlyphSource::Text,
        }
    }

    /// The glyph as it is prepared, in a line with this baseline.
    pub fn job(&self, line_y: i32, default_color: u32) -> (job: GlyphJob)
        ensures
            job == self.spec_job(line_y, default_color),
    {
        GlyphJob {
            metadata: GlyphMetadata {
                x: self.x,
                y: self.y,
                line_y,
                color: resolve_color(self.color_opt, default_color),
                metadata: self.metadata,
                cache_key: GlyphonCacheKey::Text(self.cache_key),
            },
            source: GlyphSource::Text,
        }
    }
}

impl TextArea {
    /// Whether the area is drawn as it is laid out.
    pub open spec fn is_identity(self) -> bool {
        transform::spec_is_identity(self.transform, self.zoom)
    }

    /// Whether a line of the area is drawn.
    pub open spec fn visibility(self, run: int) -> RunVisibility {
        geometry::run_visibility(
            self.is_identity(),
            self.bounds,
            self.runs[run].start_y,
            self.runs[run].height,
        )
    }

    /// The custom glyphs from one on, in order.
    pub open spec fn custom_items(self, from: int) -> Seq<AreaItem> {
        Seq::new(
            geometry::max_of(self.custom_glyphs.len() - from, 0) as nat,
            |i: int| AreaItem::Glyph(self.custom_glyphs[from + i].spec_job(self.default_color)),
        )
    }

    /// The glyphs of a line from one on, in order.
    pub open spec fn glyph_items(self, run: int, from: int) -> Seq<AreaItem> {
        Seq::new(
            geometry::max_of(self.runs[run].glyphs.len() - from, 0) as nat,
            |i: int|
                AreaItem::Glyph(
                    self.runs[run].glyphs[from + i].spec_job(
                        self.runs[run].line_y,
                        self.default_color,
                    ),
                ),
        )
    }

    /// The glyphs of the lines from one on: hidden lines are passed over up to the first visible
    /// line (`taking` says that there was one), and then the lines are taken up to the next hidden
    /// line.
    pub open spec fn run_items(self, from: int, taking: bool) -> Seq<AreaItem>
        decreases self.runs.len() - from,
    {
        if from >= self.runs.len() {
            Seq::empty()
        } else {
            match self.visibility(from) {
                RunVisibility::Visible => self.glyph_items(from, 0) + self.run_items(from + 1, true),
                RunVisibility::Hidden => if taking {
                    Seq::empty()
                } else {
                    self.run_items(from + 1, false)
                },
                RunVisibility::Overflow => seq![AreaItem::Overflow],
            }
        }
    }

    /// All that is prepared of the area, in order: the custom glyphs, and then the glyphs of the
    /// visible lines.
    pub open spec fn items(self) -> Seq<AreaItem> {
        self.custom_items(0) + self.run_items(0, false)
    }

    /// The glyphs of the lines from `from` to `to`, in order.
    pub open spec fn block(self, from: int, to: int) -> Seq<AreaItem>
        decreases to - from,
    {
        if from >= to {
            Seq::empty()
        } else {
            self.glyph_items(from, 0) + self.block(from + 1, to)
        }
    }
}

/// A text area of which a part has been prepared.
pub struct AreaCursor {
    area: TextArea,
    is_identity: bool,
    bounds: GlyphBounds,
    next_custom: usize,
    run: usize,
    glyph: usize,
    in_run: bool,
    taking: bool,
}

impl AreaCursor {
    /// The text area.
    pub closed spec fn area(self) -> TextArea {
        self.area
    }

    /// The bounds to which the glyphs of the area are clipped.
    pub closed spec fn clip_bounds(self) -> GlyphBounds {
        self.bounds
    }

    #[verifier::type_invariant]
    spec fn wf(self) -> bool {
        self.is_identity == self.area.is_identity()
    }

    /// What is left to be prepared of the area, in order.
    pub closed spec fn remaining(self) -> Seq<AreaItem> {
        self.area.custom_items(self.next_custom as int) + if self.in_run && self.run
            < self.area.runs.len() {
            self.area.glyph_items(self.run as int, self.glyph as int) + self.area.run_items(
                self.run + 1,
                true,
            )
        } else {
            self.area.run_items(self.run as int, self.taking)
        }
    }

    /// A text area of which nothing has been prepared, on a screen of this size.
    pub fn new(area: TextArea, resolution: Resolution) -> (cursor: AreaCursor)
        ensures
            cursor.area() == area,
            cursor.clip_bounds() == geometry::spec_glyph_bounds(
                area.is_identity(),
                area.bounds,
                resolution,
            ),
            cursor.remaining() == area.items(),
    {
        let is_identity: bool = transform::is_identity(&area.transform, area.zoom);
        let bounds = geometry::glyph_bounds(is_identity, area.bounds, resolution);
        AreaCursor {
            area,
            is_identity,
            bounds,
            next_custom: 0,
            run: 0,
            glyph: 0,
            in_run: false,
            taking: false,
        }
    }

    /// Whether the area is drawn as it is laid out.
    pub fn is_identity(&self) -> (identity: bool)
        ensures
            identity == self.area().is_identity(),
    {
        proof {
            use_type_invariant(self);
        }
        self.is_identity
    }

    /// The bounds to which the glyphs of the area are clipped.
    pub fn bounds(&self) -> (bounds: GlyphBounds)
        ensures
            bounds == self.clip_bounds(),
    {
        self.bounds
    }

    /// Takes the next glyph of the area, `None` where there is none left.
    pub fn next(&mut self) -> (item: Option<AreaItem>)
        ensures
            final(self).area() == old(self).area(),
            final(self).clip_bounds() == old(self).clip_bounds(),
            item is None <==> old(self).remaining().len() == 0,
            item matches Some(item) ==> item == old(self).remaining()[0],
            final(self).remaining() == (if item matches Some(AreaItem::Glyph(_)) {
                old(self).remaining().drop_first()
            } else {
                old(self).remaining()
            }),
    {
        proof {
            use_type_invariant(&*self);
        }
        let ghost all = self.remaining();
        if self.next_custom < self.area.custom_glyphs.len() {
            let job = self.area.custom_glyphs[self.next_custom].job(self.area.default_color);
            self.next_custom = self.next_custom + 1;
            proof {
                assert(self.remaining() =~= all.drop_first());
            }
            return Some(AreaItem::Glyph(job));
        }
        while self.run < self.area.runs.len()
            invariant
                self.wf(),
                self.area == old(self).area,
                self.is_identity == old(self).is_identity,
                self.bounds == old(self).bounds,
                self.next_custom >= self.area.custom_glyphs.len(),
                self.remaining() == all,
                all == old(self).remaining(),
            decreases
                self.area.runs.len() - self.run,
                (if self.in_run {
                    0int
                } else {
                    1int
                }),
        {
            proof {
                assert(self.area.custom_items(self.next_custom as int) =~= Seq::empty());
            }
            if self.in_run {
                if self.glyph < self.area.runs[self.run].glyphs.len() {
                    let run = &self.area.runs[self.run];
                    let job = run.glyphs[self.glyph].job(run.line_y, self.area.default_color);
                    self.glyph = self.glyph + 1;
                    proof {
                        assert(self.remaining() =~= all.drop_first());
                    }
                    return Some(AreaItem::Glyph(job));
                }
                proof {
                    assert(self.area.glyph_items(self.run as int, self.glyph as int)
                        =~= Seq::empty());
                }
                self.in_run = false;
                self.taking = true;
                self.run = self.run + 1;
                proof {
                    assert(self.remaining() =~= all);
                }
            } else {
                let run = &self.area.runs[self.run];
                match geometry::is_run_visible(
                    self.is_identity,
                    self.area.bounds,
                    run.start_y,
                    run.height,
                ) {
                    RunVisibility::Visible => {
                        self.in_run = true;
                        self.glyph = 0;
                        proof {
                            assert(self.remaining() =~= all);
                        }
                    },
                    RunVisibility::Hidden => {
                        if self.taking {
                            return None;
                        }
                        self.run = self.run + 1;
                        proof {
                            assert(self.remaining() =~= all);
                        }
                    },
                    RunVisibility::Overflow => {
                        return Some(AreaItem::Overflow);
                    },
                }
            }
        }
        proof {
            assert(self.area.custom_items(self.next_custom as int) =~= Seq::empty());
        }
        None
    }
}

/// The lines `first` to `end` are the first block of visible lines of an area: every line before
/// it is hidden, every line in it is visible, and the line behind it, if there is one, is hidden.
pub open spec fn is_first_visible_block(area: TextArea, first: int, end: int) -> bool {
    &&& 0 <= first <= end <= area.runs.len()
    &&& forall|i: int| 0 <= i < first ==> #[trigger] area.visibility(i) == RunVisibility::Hidden
    &&& forall|i: int| first <= i < end ==> #[trigger] area.visibility(i) == RunVisibility::Visible
    &&& end < area.runs.len() ==> area.visibility(end) == RunVisibility::Hidden && first < end
}

proof fn lemma_taken_runs(area: TextArea, from: int, end: int)
    requires
        0 <= from <= end <= area.runs.len(),
        forall|i: int| from <= i < end ==> #[trigger] area.visibility(i) == RunVisibility::Visible,
        end < area.runs.len() ==> area.visibility(end) == RunVisibility::Hidden,
    ensures
        area.run_items(from, true) == area.block(from, end),
    decreases end - from,
{
    if from < end {
        assert(area.visibility(from) == RunVisibility::Visible);
        lemma_taken_runs(area, from + 1, end);
    }
}

proof fn lemma_skipped_runs(area: TextArea, from: int, first: int, end: int)
    requires
        0 <= from <= first,
        is_first_visible_block(area, first, end),
    ensures
        area.run_items(from, false) == area.block(first, end),
    decreases first - from,
{
    if from < first {
        assert(area.visibility(from) == RunVisibility::Hidden);
        lemma_skipped_runs(area, from + 1, first, end);
    } else if first < end {
        assert(area.visibility(first) == RunVisibility::Visible);
        lemma_taken_runs(area, first + 1, end);
    }
}

/// All that is prepared of an area is its custom glyphs, in order, and then the glyphs of its
/// first block of visible lines, in order.
pub proof fn area_prepares_first_visible_block(area: TextArea, first: int, end: int)
    requires
        is_first_visible_block(area, first, end),
    ensures
        area.items() == area.custom_items(0) + area.block(first, end),
{
    lemma_skipped_runs(area, 0, first, end);
}

/// An area has a first block of visible lines unless the bottom of a line is no `i32`.
pub proof fn first_visible_block_exists(area: TextArea)
    requires
        forall|i: int|
            0 <= i < area.runs.len() ==> #[trigger] area.visibility(i) != RunVisibility::Overflow,
    ensures
        exists|first: int, end: int| is_first_visible_block(area, first, end),
{
    let first = lemma_first_run(area, 0, RunVisibility::Visible);
    let end = lemma_first_run(area, first, RunVisibility::Hidden);
    assert(is_first_visible_block(area, first, end));
}

proof fn lemma_first_run(area: TextArea, from: int, wanted: RunVisibility) -> (first: int)
    requires
        0 <= from <= area.runs.len(),
    ensures
        from <= first <= area.runs.len(),
        forall|i: int| from <= i < first ==> #[trigger] area.visibility(i) != wanted,
        first < area.runs.len() ==> area.visibility(first) == wanted,
    decreases area.runs.len() - from,
{
    if from >= area.runs.len() || area.visibility(from) == wanted {
        from
    } else {
        lemma_first_run(area, from + 1, wanted)
    }
}

proof fn lemma_run_sources(area: TextArea, from: int, taking: bool, i: int)
    requires
        from >= 0,
        0 <= i < area.run_items(from, taking).len(),
    ensures
        area.run_items(from, taking)[i] matches AreaItem::Glyph(job) ==> job.source == source_of(
            job.metadata.cache_key,
        ),
    decreases area.runs.len() - from,
{
    match area.visibility(from) {
        RunVisibility::Visible => {
            let first = area.glyph_items(from, 0);
            if i >= first.len() {
                lemma_run_sources(area, from + 1, true, i - first.len());
            }
        },
        RunVisibility::Hidden => {
            if !taking {
                lemma_run_sources(area, from + 1, false, i);
            }
        },
        RunVisibility::Overflow => {},
    }
}

/// The image of a glyph depends on the glyph's key only: two glyphs with one key ask for the same
/// image, whatever their colours, their metadata and their places are.
pub proof fn key_determines_image(area: TextArea, i: int)
    requires
        0 <= i < area.items().len(),
    ensures
        area.items()[i] matches AreaItem::Glyph(job) ==> job.source == source_of(
            job.metadata.cache_key,
        ),
{
    let customs = area.custom_items(0);
    if i >= customs.len() {
        lemma_run_sources(area, 0, false, i - customs.len());
    }
}

/// Glyphs that differ only in colour or metadata have the same key, and so share an image.
pub proof fn colour_and_metadata_leave_key(
    custom: CustomGlyph,
    glyph: LayoutGlyph,
    line_y: i32,
    color: Option<u32>,
    metadata: usize,
    default_color: u32,
    other_default_color: u32,
)
    ensures
        (CustomGlyph { color, metadata, ..custom }).spec_job(
            other_default_color,
        ).metadata.cache_key == custom.spec_job(default_color).metadata.cache_key,
        (LayoutGlyph { color_opt: color, metadata, ..glyph }).spec_job(
            line_y,
            other_default_color,
        ).metadata.cache_key == glyph.spec_job(line_y, default_color).metadata.cache_key,
{
}

/// All lines of transformed text are prepared.
pub proof fn transformed_area_prepares_every_line(area: TextArea)
    requires
        !area.is_identity(),
    ensures
        area.items() == area.custom_items(0) + area.block(0, area.runs.len() as int),
{
    area_prepares_first_visible_block(area, 0, area.runs.len() as int);
}

/// A custom glyph is prepared at whole pixels where it snaps to them and at quarters of a pixel
/// where it does not. Its image is asked for, and kept, by its number, its size in pixels and those
/// quarters.
pub proof fn custom_glyph_is_prepared_where_it_snaps(glyph: CustomGlyph, default_color: u32)
    ensures
        ({
            let job = glyph.spec_job(default_color);
            &&& job.metadata.line_y == 0
            &&& job.metadata.metadata == glyph.metadata
            &&& glyph.snap_to_physical_pixel ==> job.metadata.x == glyph.rounded_x && job.metadata.y
                == glyph.rounded_y
            &&& !glyph.snap_to_physical_pixel ==> job.metadata.x == glyph.binned_x && job.metadata.y
                == glyph.binned_y
            &&& job.metadata.cache_key matches GlyphonCacheKey::Custom(key) && {
                &&& key.glyph_id == glyph.id
                &&& key.width == glyph.width && key.height == glyph.height
                &&& glyph.snap_to_physical_pixel ==> key.x_bin is Zero && key.y_bin is Zero
                &&& !glyph.snap_to_physical_pixel ==> key.x_bin == glyph.x_bin && key.y_bin
                    == glyph.y_bin
                &&& job.source matches GlyphSource::Custom(request) && {
                    &&& request.id == glyph.id
                    &&& request.width == glyph.width && request.height == glyph.height
                    &&& request.x_bin == key.x_bin && request.y_bin == key.y_bin
                }
            }
        }),
{
}

/// A glyph of a line is prepared where it is laid out, on the baseline of its line, and its image
/// comes from the fonts and is kept by its key.
pub proof fn text_glyph_is_prepared_where_it_is_laid_out(
    glyph: LayoutGlyph,
    line_y: i32,
    default_color: u32,
)
    ensures
        ({
            let job = glyph.spec_job(line_y, default_color);
            &&& job.metadata.x == glyph.x && job.metadata.y == glyph.y
            &&& job.metadata.line_y == line_y
            &&& job.metadata.metadata == glyph.metadata
            &&& job.metadata.cache_key == GlyphonCacheKey::Text(glyph.cache_key)
            &&& job.source is Text
        }),
{
}

/// A glyph has its own colour, and that of its area where it has none.
pub proof fn glyph_has_own_or_default_colour(
    custom: CustomGlyph,
    glyph: LayoutGlyph,
    line_y: i32,
    default_color: u32,
)
    ensures
        custom.spec_job(default_color).metadata.color == (match custom.color {
            Some(color) => color,
            None => default_color,
        }),
        glyph.spec_job(line_y, default_color).metadata.color == (match glyph.color_opt {
            Some(color) => color,
            None => default_color,
        }),
{
}

/// Of an untransformed area a line is drawn just where it neither starts below the bottom of the
/// area nor ends above its top, and of a transformed area every line is. It cannot be decided where
/// the bottom of a line of an untransformed area is no `i32`.
pub proof fn line_is_drawn_where_it_meets_area(area: TextArea, run: int)
    ensures
        ({
            let start = area.runs[run].start_y;
            let end = start + area.runs[run].height;
            let in_range = -0x8000_0000 <= end <= 0x7fff_ffff;
            let meets = start <= area.bounds.bottom && area.bounds.top <= end;
            &&& !area.is_identity() ==> area.visibility(run) is Visible
            &&& area.is_identity() && !in_range ==> area.visibility(run) is Overflow
            &&& area.is_identity() && in_range && meets ==> area.visibility(run) is Visible
            &&& area.is_identity() && in_range && !meets ==> area.visibility(run) is Hidden
        }),
{
}

/// An area is drawn as it is laid out just where its own transformation and its own zoom are
/// trivial.
pub proof fn area_is_drawn_as_laid_out_without_transformation(area: TextArea)
    ensures
        area.is_identity() <==> {
            &&& area.zoom == 0x3f80_0000u32
            &&& forall|column: int, row: int|
                0 <= column < 4 && 0 <= row < 4 ==> {
                    &&& column == row ==> #[trigger] area.transform[column][row] == 0x3f80_0000u32
                    &&& column != row ==> area.transform[column][row] == 0
                        || area.transform[column][row] == 0x8000_0000u32
                }
        },
{
    transform::identity_has_ones_and_zeros(area.transform, area.zoom);
}

/// The number of glyphs of the lines from `from` to `to`.
pub open spec fn glyph_count(area: TextArea, from: int, to: int) -> int
    decreases to - from,
{
    if from >= to {
        0
    } else {
        area.runs[from].glyphs.len() + glyph_count(area, from + 1, to)
    }
}

/// The glyphs of some lines are all glyphs of these lines, line by line and in order: each stands
/// behind the glyphs of the lines before its own and those before it in its line.
pub proof fn line_by_line_and_in_order(
    area: TextArea,
    from: int,
    to: int,
    run: int,
    glyph: int,
)
    requires
        0 <= from <= run < to <= area.runs.len(),
        0 <= glyph < area.runs[run].glyphs.len(),
    ensures
        area.block(from, to).len() == glyph_count(area, from, to),
        0 <= glyph_count(area, from, run) + glyph < area.block(from, to).len(),
        area.block(from, to)[glyph_count(area, from, run) + glyph] == AreaItem::Glyph(
            area.runs[run].glyphs[glyph].spec_job(area.runs[run].line_y, area.default_color),
        ),
    decreases to - from,
{
    no_glyph_of_lines_is_left_out(area, from + 1, to);
    if from < run {
        line_by_line_and_in_order(area, from + 1, to, run, glyph);
        assert(glyph_count(area, from, run) == area.runs[from].glyphs.len() + glyph_count(
            area,
            from + 1,
            run,
        ));
    }
}

/// The glyphs of some lines are as many as the lines have together.
pub proof fn no_glyph_of_lines_is_left_out(area: TextArea, from: int, to: int)
    requires
        0 <= from,
        to <= area.runs.len(),
    ensures
        area.block(from, to).len() == glyph_count(area, from, to),
    decreases to - from,
{
    if from < to {
        no_glyph_of_lines_is_left_out(area, from + 1, to);
    }
}

/// The custom glyphs of an area come first, all of them and in order.
pub proof fn custom_glyphs_come_first(area: TextArea, i: int)
    ensures
        area.custom_items(0).len() == area.custom_glyphs.len(),
        area.items().len() >= area.custom_glyphs.len(),
        area.items().take(area.custom_glyphs.len() as int) == area.custom_items(0),
        0 <= i < area.custom_glyphs.len() ==> area.items()[i] == AreaItem::Glyph(
            area.custom_glyphs[i].spec_job(area.default_color),
        ),
{
}

/// A line whose bottom is no `i32` ends an area where it is met: it is met behind the first block
/// of visible lines, or, where all lines before it are hidden, behind these.
pub proof fn line_out_of_range_ends_area(area: TextArea, first: int, end: int)
    requires
        0 <= first <= end < area.runs.len(),
        forall|i: int| 0 <= i < first ==> #[trigger] area.visibility(i) == RunVisibility::Hidden,
        forall|i: int|
            first <= i < end ==> #[trigger] area.visibility(i) == RunVisibility::Visible,
        area.visibility(end) == RunVisibility::Overflow,
    ensures
        area.items() == area.custom_items(0) + area.block(first, end) + seq![AreaItem::Overflow],
{
    lemma_out_of_range_met(area, 0, first, end);
    assert(area.items() =~= area.custom_items(0) + area.block(first, end)
        + seq![AreaItem::Overflow]);
}

proof fn lemma_out_of_range_met(area: TextArea, from: int, first: int, end: int)
    requires
        0 <= from <= first <= end < area.runs.len(),
        forall|i: int| 0 <= i < first ==> #[trigger] area.visibility(i) == RunVisibility::Hidden,
        forall|i: int|
            first <= i < end ==> #[trigger] area.visibility(i) == RunVisibility::Visible,
        area.visibility(end) == RunVisibility::Overflow,
    ensures
        area.run_items(from, false) == area.block(first, end) + seq![AreaItem::Overflow],
    decreases first - from,
{
    if from < first {
        assert(area.visibility(from) == RunVisibility::Hidden);
        lemma_out_of_range_met(area, from + 1, first, end);
    } else if first < end {
        assert(area.visibility(first) == RunVisibility::Visible);
        lemma_out_of_range_taken(area, first + 1, end);
        assert(area.run_items(from, false) =~= area.block(first, end)
            + seq![AreaItem::Overflow]);
    } else {
        assert(area.run_items(from, false) =~= area.block(first, end)
            + seq![AreaItem::Overflow]);
    }
}

proof fn lemma_out_of_range_taken(area: TextArea, from: int, end: int)
    requires
        0 <= from <= end < area.runs.len(),
        forall|i: int| from <= i < end ==> #[trigger] area.visibility(i) == RunVisibility::Visible,
        area.visibility(end) == RunVisibility::Overflow,
    ensures
        area.run_items(from, true) == area.block(from, end) + seq![AreaItem::Overflow],
    decreases end - from,
{
    if from < end {
        assert(area.visibility(from) == RunVisibility::Visible);
        lemma_out_of_range_taken(area, from + 1, end);
    }
    assert(area.run_items(from, true) =~= area.block(from, end) + seq![AreaItem::Overflow]);
}

} // verus!
