//! The preparation of glyphs, step by step. Each [`Step`] names one thing that is to be done
//! outside of the library, and takes what came of it to the next step.
use vstd::prelude::*;
use crate::atlas::{
    ColorMode, GlyphDetails, GpuCacheStatus, TextAtlas, TextAtlasView,
};
use crate::geometry;
use crate::geometry::{Clip, GlyphBounds, GlyphRect, Resolution, TextBounds};
use crate::image::{
    ContentType, GetGlyphImageResult, RasterizeCustomGlyphRequest, RasterizedCustomGlyph, SwashImage,
};
use crate::image;
use crate::layout::{AreaCursor, AreaItem, GlyphJob, GlyphMetadata, GlyphSource, TextArea};
use crate::text_render::TextRenderer;

verus! {

/// Where the depths of glyphs come from.
#[derive(Clone, Copy, Debug, PartialEq, Eq, Structural)]
pub enum DepthSource {
    /// All glyphs lie at depth zero.
    Zero,
    /// The depth of a glyph follows from its metadata.
    Metadata,
}

/// Whether there is a rasterizer of custom glyphs.
#[derive(Clone, Copy, Debug, PartialEq, Eq, Structural)]
pub enum CustomRasterizer {
    Absent,
    Present,
}

/// What all text areas of one preparation share.
#[derive(Clone, Copy, Debug, PartialEq, Eq, Structural)]
pub struct Frame {
    pub resolution: Resolution,
    pub depth: DepthSource,
    pub custom: CustomRasterizer,
}

/// Why glyphs could not be prepared.
#[derive(Clone, Copy, Debug, PartialEq, Eq, Structural)]
pub enum PrepareError {
    /// The atlas has no room for a glyph and cannot grow.
    AtlasFull,
}

/// A glyph that is drawn: where, and how.
#[derive(Clone, Copy, Debug, PartialEq, Eq, Structural)]
pub struct PlacedGlyph {
    pub rect: GlyphRect,
    pub color: u32,
    /// The number of the kind of its texels.
    pub content_type: u16,
    /// The number of the conversion of its colours.
    pub conversion: u16,
}

/// What becomes of a glyph whose details are known.
#[derive(Clone, Copy, Debug, PartialEq, Eq, Structural)]
pub enum Placement {
    Visible(PlacedGlyph),
    Hidden,
    /// A pixel coordinate is no `i32`, or a texel coordinate no `u16`.
    Overflow,
}

/// Where a glyph is drawn: at its place on the screen moved by the offset of its image, clipped
/// to the bounds. A glyph without texels is not drawn.
pub open spec fn placement(
    metadata: GlyphMetadata,
    details: GlyphDetails,
    bounds: GlyphBounds,
    color_mode: ColorMode,
) -> Placement {
    let x = metadata.x + details.left;
    let baseline = metadata.line_y + metadata.y;
    let y = baseline - details.top;
    if !geometry::fits_i32(x) || !geometry::fits_i32(baseline) || !geometry::fits_i32(y) {
        Placement::Overflow
    } else {
        match details.gpu_cache {
            GpuCacheStatus::SkipRasterization => Placement::Hidden,
            GpuCacheStatus::InAtlas { x: atlas_x, y: atlas_y, content_type } => {
                let rect = GlyphRect {
                    x: x as i32,
                    y: y as i32,
                    width: details.width,
                    height: details.height,
                    atlas_x,
                    atlas_y,
                };
                match geometry::clip(rect, bounds) {
                    Clip::Visible(rect) => Placement::Visible(
                        PlacedGlyph {
                            rect,
                            color: metadata.color,
                            content_type: content_type.spec_code(),
                            conversion: color_mode.spec_conversion(),
                        },
                    ),
                    Clip::Hidden => Placement::Hidden,
                    Clip::Overflow => Placement::Overflow,
                }
            },
        }
    }
}

/// Decides where a glyph is drawn.
pub fn place_glyph(
    metadata: GlyphMetadata,
    details: GlyphDetails,
    bounds: GlyphBounds,
    color_mode: ColorMode,
) -> (placed: Placement)
    ensures
        placed == placement(metadata, details, bounds, color_mode),
{
    let x: i32 = match metadata.x.checked_add(details.left as i32) {
        Some(x) => x,
        None => return Placement::Overflow,
    };
    let baseline: i32 = match metadata.line_y.checked_add(metadata.y) {
        Some(baseline) => baseline,
        None => return Placement::Overflow,
    };
    let y: i32 = match baseline.checked_sub(details.top as i32) {
        Some(y) => y,
        None => return Placement::Overflow,
    };
    match details.gpu_cache {
        GpuCacheStatus::SkipRasterization => Placement::Hidden,
        GpuCacheStatus::InAtlas { x: atlas_x, y: atlas_y, content_type } => {
            let rect = GlyphRect {
                x,
                y,
                width: details.width,
                height: details.height,
                atlas_x,
                atlas_y,
            };
            match geometry::clip_glyph(rect, bounds) {
                Clip::Visible(rect) => Placement::Visible(
                    PlacedGlyph {
                        rect,
                        color: metadata.color,
                        content_type: content_type.code(),
                        conversion: color_mode.conversion(),
                    },
                ),
                Clip::Hidden => Placement::Hidden,
                Clip::Overflow => Placement::Overflow,
            }
        },
    }
}

/// The details of a glyph that has no texels.
pub open spec fn textureless(width: u16, height: u16, top: i16, left: i16) -> GlyphDetails {
    GlyphDetails {
        width,
        height,
        gpu_cache: GpuCacheStatus::SkipRasterization,
        atlas_id: None,
        top,
        left,
    }
}

/// A place for a glyph in a texture.
#[derive(Clone, Copy, Debug, PartialEq, Eq, Structural)]
pub struct Allocation {
    /// The top left texel.
    pub x: i32,
    pub y: i32,
    /// The number of the place in the packer of the texture.
    pub id: u32,
}

/// Texels that are to be written to a texture.
pub struct TextureWrite {
    /// The texture for this kind of texels.
    pub content_type: ContentType,
    /// The top left texel that is written.
    pub x: u32,
    pub y: u32,
    pub width: u32,
    pub height: u32,
    pub bytes_per_row: u32,
    pub data: Vec<u8>,
}

/// What is to be done next.
pub enum Step {
    /// Hand the next text area to the preparation.
    NextArea,
    /// Go on with the preparation.
    NextGlyph,
    /// Rasterize a glyph of a font.
    RasterizeText(RasterizeTextStep),
    /// Rasterize a custom glyph.
    RasterizeCustom(RasterizeCustomStep),
    /// Find a place for a glyph in a texture.
    Allocate(AllocateStep),
    /// Make a texture larger.
    Grow(GrowStep),
    /// Write the texels of a glyph to a texture.
    WriteTexture(WriteTextureStep),
    /// Find the depth of a glyph.
    Depth(DepthStep),
    /// Bring the corners of a glyph to clip space.
    Transform(TransformStep),
    /// Every text area has been prepared.
    Finished,
    /// The preparation ends with an error.
    Failed(PrepareError),
    /// The preparation cannot go on: a coordinate leaves the range of its type.
    Overflow,
}

/// A glyph that is being prepared.
#[derive(Clone, Copy, Debug, PartialEq, Eq, Structural)]
pub struct GlyphTask {
    pub frame: Frame,
    /// Whether the glyph is drawn as it is laid out.
    pub is_identity: bool,
    pub bounds: GlyphBounds,
    pub job: GlyphJob,
}

/// A glyph of a font that is to be rasterized.
pub struct RasterizeTextStep {
    pub task: GlyphTask,
}

/// A custom glyph that is to be rasterized.
pub struct RasterizeCustomStep {
    pub task: GlyphTask,
    pub request: RasterizeCustomGlyphRequest,
}

/// An image for which a place is to be found in the texture for its kind of texels.
pub struct AllocateStep {
    pub task: GlyphTask,
    pub image: GetGlyphImageResult,
}

/// An image for which the texture for its kind of texels has no place.
pub struct GrowStep {
    pub task: GlyphTask,
    pub image: GetGlyphImageResult,
}

/// An image that is to be written to a texture.
pub struct WriteTextureStep {
    pub task: GlyphTask,
    pub write: TextureWrite,
    pub details: GlyphDetails,
}

/// A glyph whose depth is to be found.
pub struct DepthStep {
    pub task: GlyphTask,
    pub glyph: PlacedGlyph,
}

/// A glyph whose corners are to be brought to clip space.
pub struct TransformStep {
    pub task: GlyphTask,
    pub glyph: PlacedGlyph,
    /// The depth of the glyph, by its bits.
    pub depth: u32,
}

impl GlyphTask {
    /// What is to be done for a glyph whose details are known.
    pub open spec fn resolved(self, details: GlyphDetails, color_mode: ColorMode) -> Step {
        match placement(self.job.metadata, details, self.bounds, color_mode) {
            Placement::Visible(glyph) => match self.frame.depth {
                DepthSource::Zero => Step::Transform(TransformStep { task: self, glyph, depth: 0 }),
                DepthSource::Metadata => Step::Depth(DepthStep { task: self, glyph }),
            },
            Placement::Hidden => Step::NextGlyph,
            Placement::Overflow => Step::Overflow,
        }
    }

    /// Whether this is a custom glyph without pixels or without a rasterizer, of which no image is
    /// asked for.
    pub open spec fn is_unwanted(self) -> bool {
        self.job.source matches GlyphSource::Custom(request) && (request.width == 0
            || request.height == 0 || self.frame.custom is Absent)
    }

    /// What is to be done first for a glyph: nothing outside where it is cached, and otherwise
    /// its image is wanted, unless it is a custom glyph without pixels or without a rasterizer.
    pub open spec fn begun(self, atlas: TextAtlasView) -> Step {
        match atlas.cached(self.job.metadata.cache_key) {
            Some(details) => self.resolved(details, atlas.color_mode),
            None => match self.job.source {
                GlyphSource::Text => Step::RasterizeText(RasterizeTextStep { task: self }),
                GlyphSource::Custom(request) => if self.is_unwanted() {
                    Step::NextGlyph
                } else {
                    Step::RasterizeCustom(RasterizeCustomStep { task: self, request })
                },
            },
        }
    }

    /// What is to be done for a glyph that has just been entered into the atlas.
    pub open spec fn entered(self, atlas: TextAtlasView, details: GlyphDetails) -> Step {
        self.resolved(
            atlas.details_with_glyph(self.job.metadata.cache_key, details),
            atlas.color_mode,
        )
    }

    fn resolve(self, details: GlyphDetails, color_mode: ColorMode) -> (step: Step)
        ensures
            step == self.resolved(details, color_mode),
    {
        match place_glyph(self.job.metadata, details, self.bounds, color_mode) {
            Placement::Visible(glyph) => match self.frame.depth {
                DepthSource::Zero => Step::Transform(TransformStep { task: self, glyph, depth: 0 }),
                DepthSource::Metadata => Step::Depth(DepthStep { task: self, glyph }),
            },
            Placement::Hidden => Step::NextGlyph,
            Placement::Overflow => Step::Overflow,
        }
    }

    /// Begins to prepare a glyph.
    pub fn prepare_glyph(self, atlas: &mut TextAtlas) -> (step: Step)
        ensures
            step == self.begun(old(atlas)@),
            final(atlas)@ == old(atlas)@.after_lookup(self.job.metadata.cache_key),
    {
        if let Some(details) = atlas.lookup(self.job.metadata.cache_key) {
            return self.resolve(details, atlas.color_mode);
        }
        match self.job.source {
            GlyphSource::Text => Step::RasterizeText(RasterizeTextStep { task: self }),
            GlyphSource::Custom(request) => {
                let absent: bool = match self.frame.custom {
                    CustomRasterizer::Absent => true,
                    CustomRasterizer::Present => false,
                };
                if request.width == 0 || request.height == 0 || absent {
                    Step::NextGlyph
                } else {
                    Step::RasterizeCustom(RasterizeCustomStep { task: self, request })
                }
            },
        }
    }

    fn enter(self, atlas: &mut TextAtlas, details: GlyphDetails) -> (step: Step)
        ensures
            step == self.entered(old(atlas)@, details),
            final(atlas)@ == old(atlas)@.with_glyph(self.job.metadata.cache_key, details),
    {
        let cached = atlas.insert_glyph(self.job.metadata.cache_key, details);
        self.resolve(cached, atlas.color_mode)
    }

    /// Goes on with a glyph whose image is known: a place is wanted for its texels, and a glyph
    /// without texels is entered into the atlas as it is.
    pub fn imaged(self, atlas: &mut TextAtlas, image: GetGlyphImageResult) -> (step: Step)
        ensures
            image.width > 0 && image.height > 0 ==> step == Step::Allocate(
                AllocateStep { task: self, image },
            ) && final(atlas)@ == old(atlas)@,
            image.width == 0 || image.height == 0 ==> {
                let details = textureless(image.width, image.height, image.top, image.left);
                &&& step == self.entered(old(atlas)@, details)
                &&& final(atlas)@ == old(atlas)@.with_glyph(self.job.metadata.cache_key, details)
            },
    {
        if image.width > 0 && image.height > 0 {
            return Step::Allocate(AllocateStep { task: self, image });
        }
        let details = GlyphDetails {
            width: image.width,
            height: image.height,
            gpu_cache: GpuCacheStatus::SkipRasterization,
            atlas_id: None,
            top: image.top,
            left: image.left,
        };
        self.enter(atlas, details)
    }
}

impl RasterizeTextStep {
    /// The details of the glyph where its image has no texels.
    pub open spec fn textureless_details(self, image: SwashImage) -> GlyphDetails {
        textureless(
            geometry::low_16_bits(image.width as int),
            geometry::low_16_bits(image.height as int),
            image::low_16_bits_signed(image.top as int),
            image::low_16_bits_signed(image.left as int),
        )
    }

    /// Whether an image comes to this step and this atlas: without an image the glyph is passed
    /// over, with texels a place is wanted for them, and without texels the glyph is entered into
    /// the atlas as it is.
    pub open spec fn takes_image(
        self,
        image: Option<SwashImage>,
        atlas: TextAtlasView,
        step: Step,
        atlas_after: TextAtlasView,
    ) -> bool {
        match image {
            None => step == Step::NextGlyph && atlas_after == atlas,
            Some(image) => {
                let details = self.textureless_details(image);
                if details.width > 0 && details.height > 0 {
                    &&& step matches Step::Allocate(next) && next.task == self.task
                        && next.image.is_of_text(image)
                    &&& atlas_after == atlas
                } else {
                    &&& step == self.task.entered(atlas, details)
                    &&& atlas_after == atlas.with_glyph(self.task.job.metadata.cache_key, details)
                }
            },
        }
    }

    /// Takes the image of the glyph, `None` where there is none.
    pub fn rasterized(self, atlas: &mut TextAtlas, image: Option<SwashImage>) -> (step: Step)
        ensures
            self.takes_image(image, old(atlas)@, step, final(atlas)@),
    {
        match image {
            Some(image) => self.task.imaged(atlas, GetGlyphImageResult::from_text(image)),
            None => Step::NextGlyph,
        }
    }
}

impl RasterizeCustomStep {
    /// The details of the glyph where its image has no texels.
    pub open spec fn textureless_details(self) -> GlyphDetails {
        textureless(self.request.width, self.request.height, 0, 0)
    }

    /// Whether an image comes to this step and this atlas: without an image the glyph is passed
    /// over, with texels a place is wanted for them, and without texels the glyph is entered into
    /// the atlas as it is.
    pub open spec fn takes_image(
        self,
        output: Option<RasterizedCustomGlyph>,
        atlas: TextAtlasView,
        step: Step,
        atlas_after: TextAtlasView,
    ) -> bool {
        match output {
            None => step == Step::NextGlyph && atlas_after == atlas,
            Some(output) => if self.request.width > 0 && self.request.height > 0 {
                &&& step matches Step::Allocate(next) && next.task == self.task
                    && next.image.is_of_custom(self.request, output)
                &&& atlas_after == atlas
            } else {
                let details = self.textureless_details();
                &&& step == self.task.entered(atlas, details)
                &&& atlas_after == atlas.with_glyph(self.task.job.metadata.cache_key, details)
            },
        }
    }

    /// Takes the image of the glyph, `None` where there is none.
    pub fn rasterized(self, atlas: &mut TextAtlas, output: Option<RasterizedCustomGlyph>) -> (step:
        Step)
        ensures
            self.takes_image(output, old(atlas)@, step, final(atlas)@),
    {
        match output {
            Some(output) => self.task.imaged(
                atlas,
                GetGlyphImageResult::from_custom(self.request, output),
            ),
            None => Step::NextGlyph,
        }
    }
}

/// `value` as a `u32` with the same bits.
fn to_unsigned(value: i32) -> (unsigned: u32)
    ensures
        unsigned == value as int % 0x1_0000_0000,
{
    let unsigned: u32 = #[verifier::truncate] (value as u32);
    proof {
        assert(unsigned == value as i64 % 0x1_0000_0000i64) by (bit_vector)
            requires
                unsigned == value as u32,
        ;
    }
    unsigned
}

impl AllocateStep {
    /// The details of the glyph once its image lies at a place.
    pub open spec fn details_at(self, place: Allocation) -> GlyphDetails {
        GlyphDetails {
            width: self.image.width,
            height: self.image.height,
            gpu_cache: GpuCacheStatus::InAtlas {
                x: geometry::low_16_bits(place.x as int),
                y: geometry::low_16_bits(place.y as int),
                content_type: self.image.content_type,
            },
            atlas_id: Some(place.id),
            top: self.image.top,
            left: self.image.left,
        }
    }

    /// The texels that are to be written once a place has been found.
    pub open spec fn write_at(
        self,
        place: Allocation,
        atlas: TextAtlasView,
        write: TextureWrite,
    ) -> bool {
        &&& write.content_type == self.image.content_type
        &&& write.x == place.x as int % 0x1_0000_0000
        &&& write.y == place.y as int % 0x1_0000_0000
        &&& write.width == self.image.width
        &&& write.height == self.image.height
        &&& write.bytes_per_row == self.image.width * atlas.inner(
            self.image.content_type,
        ).num_channels
        &&& write.data == self.image.data
    }

    /// Whether a place comes to this step: the texels are to be written there, and without a place
    /// the texture is to be made larger.
    pub open spec fn takes_place(
        self,
        place: Option<Allocation>,
        atlas: TextAtlasView,
        step: Step,
    ) -> bool {
        match place {
            None => step == Step::Grow(GrowStep { task: self.task, image: self.image }),
            Some(place) => {
                &&& step matches Step::WriteTexture(next)
                &&& next.task == self.task
                &&& next.details == self.details_at(place)
                &&& self.write_at(place, atlas, next.write)
            },
        }
    }

    /// Takes the place that was found in the texture, `None` where there is none.
    pub fn allocated(self, atlas: &TextAtlas, place: Option<Allocation>) -> (step: Step)
        ensures
            self.takes_place(place, atlas@, step),
    {
        match place {
            Some(place) => {
                let image = self.image;
                let channels: u8 = atlas.num_channels(image.content_type);
                let details = GlyphDetails {
                    width: image.width,
                    height: image.height,
                    gpu_cache: GpuCacheStatus::InAtlas {
                        x: geometry::to_u16(place.x),
                        y: geometry::to_u16(place.y),
                        content_type: image.content_type,
                    },
                    atlas_id: Some(place.id),
                    top: image.top,
                    left: image.left,
                };
                proof {
                    assert(0 <= image.width * channels <= 0xffff * 0xff) by (nonlinear_arith)
                        requires
                            image.width <= 0xffff,
                            channels <= 0xff,
                    ;
                }
                let write = TextureWrite {
                    content_type: image.content_type,
                    x: to_unsigned(place.x),
                    y: to_unsigned(place.y),
                    width: image.width as u32,
                    height: image.height as u32,
                    bytes_per_row: image.width as u32 * channels as u32,
                    data: image.data,
                };
                Step::WriteTexture(WriteTextureStep { task: self.task, write, details })
            },
            None => Step::Grow(GrowStep { task: self.task, image: self.image }),
        }
    }
}

impl GrowStep {
    /// What is to be done next: a place is looked for again where the texture has been made larger,
    /// and the preparation fails where it has not.
    pub open spec fn after(self, grew: bool) -> Step {
        if grew {
            Step::Allocate(AllocateStep { task: self.task, image: self.image })
        } else {
            Step::Failed(PrepareError::AtlasFull)
        }
    }

    /// Takes whether the texture has been made larger.
    pub fn grown(self, grew: bool) -> (step: Step)
        ensures
            step == self.after(grew),
    {
        if grew {
            Step::Allocate(AllocateStep { task: self.task, image: self.image })
        } else {
            Step::Failed(PrepareError::AtlasFull)
        }
    }
}

impl WriteTextureStep {
    /// What is to be done once the texels have been written.
    pub open spec fn after(self, atlas: TextAtlasView) -> Step {
        self.task.entered(atlas, self.details)
    }

    /// The atlas once the texels have been written: it holds the glyph.
    pub open spec fn atlas_after(self, atlas: TextAtlasView) -> TextAtlasView {
        atlas.with_glyph(self.task.job.metadata.cache_key, self.details)
    }

    /// Goes on once the texels have been written: the glyph is entered into the atlas.
    pub fn written(self, atlas: &mut TextAtlas) -> (step: Step)
        ensures
            step == self.after(old(atlas)@),
            final(atlas)@ == self.atlas_after(old(atlas)@),
            step == self.task.entered(old(atlas)@, self.details),
            final(atlas)@ == old(atlas)@.with_glyph(
                self.task.job.metadata.cache_key,
                self.details,
            ),
    {
        self.task.enter(atlas, self.details)
    }
}

impl DepthStep {
    /// What is to be done next: the corners of the glyph are wanted.
    pub open spec fn after(self, depth: u32) -> Step {
        Step::Transform(TransformStep { task: self.task, glyph: self.glyph, depth })
    }

    /// Takes the depth of the glyph, by its bits.
    pub fn measured(self, depth: u32) -> (step: Step)
        ensures
            step == self.after(depth),
    {
        Step::Transform(TransformStep { task: self.task, glyph: self.glyph, depth })
    }
}

impl TransformStep {
    /// The distances of the corners of the glyph from its top left pixel, clockwise from the top
    /// left corner.
    pub fn corners(&self) -> (corners: [[u16; 2]; 4])
        ensures
            corners[0]@ == seq![0u16, 0u16],
            corners[1]@ == seq![self.glyph.rect.width, 0u16],
            corners[2]@ == seq![self.glyph.rect.width, self.glyph.rect.height],
            corners[3]@ == seq![0u16, self.glyph.rect.height],
            forall|i: int|
                0 <= i < 4 ==> {
                    &&& (#[trigger] corners[i])[0] == (if crate::text_render::is_right(i) {
                        self.glyph.rect.width
                    } else {
                        0
                    })
                    &&& corners[i][1] == (if crate::text_render::is_bottom(i) {
                        self.glyph.rect.height
                    } else {
                        0
                    })
                },
    {
        let width: u16 = self.glyph.rect.width;
        let height: u16 = self.glyph.rect.height;
        [[0, 0], [width, 0], [width, height], [0, height]]
    }

    /// Takes the x, y, z and w coordinates of the corners in clip space, by their bits, and adds
    /// the glyph to those that are drawn.
    pub fn transformed(self, renderer: &mut TextRenderer, clip: [[u32; 4]; 4]) -> (step: Step)
        requires
            old(renderer)@.wf(),
        ensures
            step == Step::NextGlyph,
            old(renderer)@.expands_to(self.glyph, clip, final(renderer)@),
    {
        renderer.expand_glyph(self.glyph, clip);
        Step::NextGlyph
    }
}

/// A glyph of a text area, as it is prepared.
pub open spec fn task_in(frame: Frame, area: TextArea, job: GlyphJob) -> GlyphTask {
    GlyphTask {
        frame,
        is_identity: area.is_identity(),
        bounds: geometry::spec_glyph_bounds(area.is_identity(), area.bounds, frame.resolution),
        job,
    }
}

/// A preparation of text areas that is under way.
pub struct Preparation {
    frame: Frame,
    cursor: Option<AreaCursor>,
}

/// What a [`Preparation`] has before it.
#[verifier::ext_equal]
pub struct PreparationView {
    /// What the text areas share.
    pub frame: Frame,
    /// The text area that is being prepared.
    pub area: Option<TextArea>,
    /// What is left to be prepared of the text area.
    pub remaining: Seq<AreaItem>,
}

impl View for Preparation {
    type V = PreparationView;

    closed spec fn view(&self) -> PreparationView {
        PreparationView {
            frame: self.frame,
            area: match self.cursor {
                Some(cursor) => Some(cursor.area()),
                None => None,
            },
            remaining: match self.cursor {
                Some(cursor) => cursor.remaining(),
                None => Seq::empty(),
            },
        }
    }
}

impl PreparationView {
    /// A preparation without text areas.
    pub open spec fn start(frame: Frame) -> PreparationView {
        PreparationView { frame, area: None, remaining: Seq::empty() }
    }

    /// A glyph of the text area that is being prepared.
    pub open spec fn task(self, job: GlyphJob) -> GlyphTask {
        task_in(self.frame, self.area.unwrap(), job)
    }

    /// The preparation once it has been handed the next text area, `None` where there is none.
    pub open spec fn with_area(self, area: Option<TextArea>) -> PreparationView {
        PreparationView {
            area,
            remaining: match area {
                Some(area) => area.items(),
                None => Seq::empty(),
            },
            ..self
        }
    }

    /// What is to be done once the preparation has been handed the next text area.
    pub open spec fn step_with_area(area: Option<TextArea>) -> Step {
        match area {
            Some(_) => Step::NextGlyph,
            None => Step::Finished,
        }
    }

    /// The preparation once it has gone on: the next glyph has been taken.
    pub open spec fn advanced(self) -> PreparationView {
        if self.remaining.len() > 0 && self.remaining[0] is Glyph {
            PreparationView { remaining: self.remaining.drop_first(), ..self }
        } else {
            self
        }
    }

    /// What is to be done once the preparation has gone on: the next glyph is begun, or the next
    /// text area is wanted where there is none left.
    pub open spec fn step_advanced(self, atlas: TextAtlasView) -> Step {
        if self.remaining.len() == 0 {
            Step::NextArea
        } else {
            match self.remaining[0] {
                AreaItem::Glyph(job) => self.task(job).begun(atlas),
                AreaItem::Overflow => Step::Overflow,
            }
        }
    }

    /// The atlas once the preparation has gone on: the next glyph has been looked up.
    pub open spec fn atlas_advanced(self, atlas: TextAtlasView) -> TextAtlasView {
        if self.remaining.len() > 0 {
            match self.remaining[0] {
                AreaItem::Glyph(job) => atlas.after_lookup(job.metadata.cache_key),
                AreaItem::Overflow => atlas,
            }
        } else {
            atlas
        }
    }
}

impl Preparation {
    #[verifier::type_invariant]
    spec fn wf(self) -> bool {
        self.cursor matches Some(cursor) ==> cursor.clip_bounds() == geometry::spec_glyph_bounds(
            cursor.area().is_identity(),
            cursor.area().bounds,
            self.frame.resolution,
        )
    }

    /// A preparation without text areas.
    pub fn new(frame: Frame) -> (preparation: Preparation)
        ensures
            preparation@ == PreparationView::start(frame),
    {
        Preparation { frame, cursor: None }
    }

    /// Takes the next text area, `None` where there is none left.
    pub fn take_area(&mut self, area: Option<TextArea>) -> (step: Step)
        ensures
            final(self)@ == old(self)@.with_area(area),
            step == PreparationView::step_with_area(area),
    {
        match area {
            Some(area) => {
                let cursor = AreaCursor::new(area, self.frame.resolution);
                self.cursor = Some(cursor);
                Step::NextGlyph
            },
            None => {
                self.cursor = None;
                Step::Finished
            },
        }
    }

    /// Begins to prepare the next glyph of the text area. Where there is none left, the next text
    /// area is wanted.
    pub fn next(&mut self, atlas: &mut TextAtlas) -> (step: Step)
        ensures
            final(self)@ == old(self)@.advanced(),
            step == old(self)@.step_advanced(old(atlas)@),
            final(atlas)@ == old(self)@.atlas_advanced(old(atlas)@),
    {
        proof {
            use_type_invariant(&*self);
        }
        let mut current: Option<AreaCursor> = None;
        std::mem::swap(&mut current, &mut self.cursor);
        let mut cursor: AreaCursor = match current {
            Some(cursor) => cursor,
            None => return Step::NextArea,
        };
        let item: Option<AreaItem> = cursor.next();
        let is_identity: bool = cursor.is_identity();
        let bounds = cursor.bounds();
        self.cursor = Some(cursor);
        match item {
            Some(AreaItem::Glyph(job)) => GlyphTask {
                frame: self.frame,
                is_identity,
                bounds,
                job,
            }.prepare_glyph(atlas),
            Some(AreaItem::Overflow) => Step::Overflow,
            None => Step::NextArea,
        }
    }
}

/// Text outside of the visible area is clipped: whatever glyph of untransformed text is drawn with
/// any pixel, it is drawn on the screen and in its area only.
pub proof fn drawn_glyph_lies_in_visible_area(
    metadata: GlyphMetadata,
    details: GlyphDetails,
    color_mode: ColorMode,
    area: TextBounds,
    resolution: Resolution,
)
    ensures
        placement(
            metadata,
            details,
            geometry::spec_glyph_bounds(true, area, resolution),
            color_mode,
        ) matches Placement::Visible(glyph) ==> (glyph.rect.width > 0 && glyph.rect.height > 0
            ==> {
            &&& 0 <= glyph.rect.x && glyph.rect.x + glyph.rect.width <= resolution.width
            &&& 0 <= glyph.rect.y && glyph.rect.y + glyph.rect.height <= resolution.height
            &&& area.left <= glyph.rect.x && glyph.rect.x + glyph.rect.width <= area.right
            &&& area.top <= glyph.rect.y && glyph.rect.y + glyph.rect.height <= area.bottom
        }),
{
    if let GpuCacheStatus::InAtlas { x: atlas_x, y: atlas_y, .. } = details.gpu_cache {
        let rect = GlyphRect {
            x: (metadata.x + details.left) as i32,
            y: (metadata.line_y + metadata.y - details.top) as i32,
            width: details.width,
            height: details.height,
            atlas_x,
            atlas_y,
        };
        geometry::untransformed_text_stays_on_screen(rect, area, resolution);
    }
}

/// A glyph that was entered into the atlas is prepared without rasterizing it again, and as it was
/// when it was entered.
pub proof fn cached_glyph_is_not_rasterized(
    task: GlyphTask,
    atlas: TextAtlasView,
    details: GlyphDetails,
)
    requires
        atlas.cached(task.job.metadata.cache_key) is None,
    ensures
        task.begun(atlas.with_glyph(task.job.metadata.cache_key, details)) == task.entered(
            atlas,
            details,
        ),
        task.entered(atlas, details) == task.resolved(details, atlas.color_mode),
{
    crate::atlas::entered_glyph_is_found(
        atlas,
        task.job.metadata.cache_key,
        details,
        task.job.metadata.cache_key,
    );
}

/// Preparing a glyph once more changes nothing in the atlas and asks for the same step.
pub proof fn preparing_a_cached_glyph_twice(task: GlyphTask, atlas: TextAtlasView)
    requires
        atlas.cached(task.job.metadata.cache_key) is Some,
    ensures
        task.begun(atlas.after_lookup(task.job.metadata.cache_key)) == task.begun(atlas),
        atlas.after_lookup(task.job.metadata.cache_key).after_lookup(task.job.metadata.cache_key)
            == atlas.after_lookup(task.job.metadata.cache_key),
{
    let key = task.job.metadata.cache_key;
    assert(atlas.after_lookup(key).after_lookup(key) =~~= atlas.after_lookup(key));
}

/// Neither finding a glyph in the atlas nor entering it fails: a preparation fails only where a
/// texture is too small and cannot grow.
pub proof fn only_refused_growth_fails(
    task: GlyphTask,
    atlas: TextAtlasView,
    details: GlyphDetails,
)
    ensures
        !(task.begun(atlas) is Failed),
        !(task.entered(atlas, details) is Failed),
{
}

/// A glyph that lies in the bounds has its left edge at its pen position moved right by the offset
/// of its image, and its top edge at its pen position on the baseline of its line moved up by that
/// offset. It has the size of its image and starts at the texel at which the image lies.
pub proof fn pen_and_offset_place_glyph(
    metadata: GlyphMetadata,
    details: GlyphDetails,
    bounds: GlyphBounds,
    color_mode: ColorMode,
)
    requires
        details.gpu_cache is InAtlas,
        -0x8000_0000 <= metadata.line_y + metadata.y <= 0x7fff_ffff,
        bounds.x.min <= metadata.x + details.left,
        metadata.x + details.left + details.width <= bounds.x.max,
        bounds.y.min <= metadata.line_y + metadata.y - details.top,
        metadata.line_y + metadata.y - details.top + details.height <= bounds.y.max,
    ensures
        placement(metadata, details, bounds, color_mode) matches Placement::Visible(glyph) && {
            &&& glyph.rect.x == metadata.x + details.left
            &&& glyph.rect.y == metadata.line_y + metadata.y - details.top
            &&& glyph.rect.width == details.width
            &&& glyph.rect.height == details.height
            &&& details.gpu_cache matches GpuCacheStatus::InAtlas { x, y, .. } && glyph.rect.atlas_x
                == x && glyph.rect.atlas_y == y
        },
{
}

/// Moving the image of a glyph by some pixels to the right and up, or its pen position or its
/// baseline by some pixels to the right and down, moves what is drawn by as many, as long as
/// nothing is clipped.
pub proof fn moved_glyph_is_drawn_moved(
    metadata: GlyphMetadata,
    details: GlyphDetails,
    moved_metadata: GlyphMetadata,
    moved_details: GlyphDetails,
    bounds: GlyphBounds,
    color_mode: ColorMode,
)
    requires
        details.gpu_cache is InAtlas,
        moved_details.gpu_cache is InAtlas,
        -0x8000_0000 <= metadata.line_y + metadata.y <= 0x7fff_ffff,
        bounds.x.min <= metadata.x + details.left,
        metadata.x + details.left + details.width <= bounds.x.max,
        bounds.y.min <= metadata.line_y + metadata.y - details.top,
        metadata.line_y + metadata.y - details.top + details.height <= bounds.y.max,
        -0x8000_0000 <= moved_metadata.line_y + moved_metadata.y <= 0x7fff_ffff,
        bounds.x.min <= moved_metadata.x + moved_details.left,
        moved_metadata.x + moved_details.left + moved_details.width <= bounds.x.max,
        bounds.y.min <= moved_metadata.line_y + moved_metadata.y - moved_details.top,
        moved_metadata.line_y + moved_metadata.y - moved_details.top + moved_details.height
            <= bounds.y.max,
    ensures
        placement(metadata, details, bounds, color_mode) matches Placement::Visible(a) && placement(
            moved_metadata,
            moved_details,
            bounds,
            color_mode,
        ) matches Placement::Visible(b) && {
            &&& b.rect.x - a.rect.x == (moved_metadata.x - metadata.x) + (moved_details.left
                - details.left)
            &&& b.rect.y - a.rect.y == (moved_metadata.y - metadata.y) + (moved_metadata.line_y
                - metadata.line_y) - (moved_details.top - details.top)
        },
{
    pen_and_offset_place_glyph(metadata, details, bounds, color_mode);
    pen_and_offset_place_glyph(moved_metadata, moved_details, bounds, color_mode);
}

/// Where a glyph is drawn, and whether it is, does not depend on the kind of its texels, its
/// colour, its metadata, its key or the colour mode.
pub proof fn looks_leave_place(
    metadata: GlyphMetadata,
    details: GlyphDetails,
    other_metadata: GlyphMetadata,
    other_details: GlyphDetails,
    bounds: GlyphBounds,
    color_mode: ColorMode,
    other_mode: ColorMode,
)
    requires
        other_metadata.x == metadata.x && other_metadata.y == metadata.y,
        other_metadata.line_y == metadata.line_y,
        other_details.width == details.width && other_details.height == details.height,
        other_details.left == details.left && other_details.top == details.top,
        details.gpu_cache matches GpuCacheStatus::InAtlas { x, y, .. }
            && other_details.gpu_cache matches GpuCacheStatus::InAtlas { x: other_x, y: other_y, .. }
            && x == other_x && y == other_y,
    ensures
        match (
            placement(metadata, details, bounds, color_mode),
            placement(other_metadata, other_details, bounds, other_mode),
        ) {
            (Placement::Visible(a), Placement::Visible(b)) => a.rect == b.rect,
            (Placement::Hidden, Placement::Hidden) => true,
            (Placement::Overflow, Placement::Overflow) => true,
            _ => false,
        },
{
}

/// A glyph is drawn in its own colour, and the shader is told the kind of its texels (0 for
/// colours, 1 for coverages) and whether to convert colours (1 where they are to be accurate, 0
/// otherwise).
pub proof fn drawn_glyph_has_its_looks(
    metadata: GlyphMetadata,
    details: GlyphDetails,
    bounds: GlyphBounds,
    color_mode: ColorMode,
)
    ensures
        placement(metadata, details, bounds, color_mode) matches Placement::Visible(glyph) ==> {
            &&& glyph.color == metadata.color
            &&& details.gpu_cache matches GpuCacheStatus::InAtlas { content_type, .. } && {
                &&& content_type is Color ==> glyph.content_type == 0
                &&& content_type is Mask ==> glyph.content_type == 1
            }
            &&& color_mode is Accurate ==> glyph.conversion == 1
            &&& color_mode is Web ==> glyph.conversion == 0
        },
{
}

/// Of a glyph whose coordinates are in range just those pixels are drawn that lie both in its
/// image, where its pen position and the offset place it, and in the bounds, each with its own
/// texel.
pub proof fn pixels_of_image_in_bounds_are_drawn(
    metadata: GlyphMetadata,
    details: GlyphDetails,
    bounds: GlyphBounds,
    color_mode: ColorMode,
    atlas_x: u16,
    atlas_y: u16,
    content_type: ContentType,
    x: int,
    y: int,
)
    requires
        details.gpu_cache == (GpuCacheStatus::InAtlas { x: atlas_x, y: atlas_y, content_type }),
        -0x8000_0000 <= metadata.line_y + metadata.y <= 0x7fff_ffff,
        -0x8000_0000 <= metadata.x + details.left,
        metadata.x + details.left + details.width <= 0x7fff_ffff,
        -0x8000_0000 <= metadata.line_y + metadata.y - details.top,
        metadata.line_y + metadata.y - details.top + details.height <= 0x7fff_ffff,
        atlas_x + details.width <= 65535,
        atlas_y + details.height <= 65535,
    ensures
        ({
            let left = metadata.x + details.left;
            let top = metadata.line_y + metadata.y - details.top;
            let is_shown = left <= x < left + details.width && top <= y < top + details.height
                && bounds.x.min <= x < bounds.x.max && bounds.y.min <= y < bounds.y.max;
            match placement(metadata, details, bounds, color_mode) {
                Placement::Visible(glyph) => {
                    let rect = glyph.rect;
                    let is_drawn = rect.x <= x < rect.x + rect.width && rect.y <= y < rect.y
                        + rect.height;
                    &&& is_drawn <==> is_shown
                    &&& is_drawn ==> rect.atlas_x + (x - rect.x) == atlas_x + (x - left)
                        && rect.atlas_y + (y - rect.y) == atlas_y + (y - top)
                },
                Placement::Hidden => !is_shown,
                Placement::Overflow => false,
            }
        }),
{
    let rect = GlyphRect {
        x: (metadata.x + details.left) as i32,
        y: (metadata.line_y + metadata.y - details.top) as i32,
        width: details.width,
        height: details.height,
        atlas_x,
        atlas_y,
    };
    geometry::edges_decide_clipping(rect, bounds);
}

/// A glyph with texels whose place is in range is drawn as much as clipping leaves of its image
/// there, is hidden where clipping hides it, and stops the preparation where clipping cannot be
/// decided.
pub proof fn clipping_decides_what_is_drawn(
    metadata: GlyphMetadata,
    details: GlyphDetails,
    bounds: GlyphBounds,
    color_mode: ColorMode,
    image: GlyphRect,
)
    requires
        -0x8000_0000 <= metadata.line_y + metadata.y <= 0x7fff_ffff,
        image.x == metadata.x + details.left,
        image.y == metadata.line_y + metadata.y - details.top,
        image.width == details.width && image.height == details.height,
        details.gpu_cache matches GpuCacheStatus::InAtlas { x, y, .. } && x == image.atlas_x && y
            == image.atlas_y,
    ensures
        match geometry::clip(image, bounds) {
            Clip::Visible(part) => placement(metadata, details, bounds, color_mode) matches
                Placement::Visible(glyph) && glyph.rect == part,
            Clip::Hidden => placement(metadata, details, bounds, color_mode) is Hidden,
            Clip::Overflow => placement(metadata, details, bounds, color_mode) is Overflow,
        },
{
}

/// A glyph without texels is never drawn, and a glyph whose place is no `i32` stops the
/// preparation.
pub proof fn glyph_without_texels_or_place_is_not_drawn(
    metadata: GlyphMetadata,
    details: GlyphDetails,
    bounds: GlyphBounds,
    color_mode: ColorMode,
)
    ensures
        ({
            let x = metadata.x + details.left;
            let baseline = metadata.line_y + metadata.y;
            let y = baseline - details.top;
            let in_range = -0x8000_0000 <= x <= 0x7fff_ffff && -0x8000_0000 <= baseline
                <= 0x7fff_ffff && -0x8000_0000 <= y <= 0x7fff_ffff;
            let placed = placement(metadata, details, bounds, color_mode);
            &&& !in_range ==> placed is Overflow
            &&& in_range && details.gpu_cache is SkipRasterization ==> placed is Hidden
        }),
{
}

/// The texels that are written are those of the place that was found. The region is as wide and as
/// high, in texels, as the image and as the glyph is entered with. Its rows are as long as so many
/// texels of the texture for the image's kind, so that an image with that many bytes for each texel
/// fills it.
pub proof fn image_fills_its_place(
    asked: AllocateStep,
    place: Allocation,
    atlas: TextAtlasView,
    next: WriteTextureStep,
)
    requires
        asked.takes_place(Some(place), atlas, Step::WriteTexture(next)),
    ensures
        next.task == asked.task,
        next.write.content_type == asked.image.content_type,
        next.write.data@ == asked.image.data@,
        next.write.width == asked.image.width && next.write.height == asked.image.height,
        next.details.width == next.write.width && next.details.height == next.write.height,
        next.details.left == asked.image.left && next.details.top == asked.image.top,
        next.details.atlas_id == Some(place.id),
        place.x >= 0 ==> next.write.x == place.x,
        place.y >= 0 ==> next.write.y == place.y,
        (place.x - next.write.x) % 0x1_0000_0000 == 0,
        (place.y - next.write.y) % 0x1_0000_0000 == 0,
        next.details.gpu_cache matches GpuCacheStatus::InAtlas { x, y, content_type } && {
            &&& content_type == asked.image.content_type
            &&& 0 <= place.x <= 65535 ==> x == place.x
            &&& 0 <= place.y <= 65535 ==> y == place.y
            &&& (place.x - x) % 65536 == 0 && (place.y - y) % 65536 == 0
        },
        asked.image.content_type is Color ==> next.write.bytes_per_row == next.write.width
            * atlas.color_atlas.num_channels,
        asked.image.content_type is Mask ==> next.write.bytes_per_row == next.write.width
            * atlas.mask_atlas.num_channels,
        asked.image.data@.len() == asked.image.height * (asked.image.width * atlas.inner(
            asked.image.content_type,
        ).num_channels) ==> next.write.data@.len() == next.write.height
            * next.write.bytes_per_row,
{
    geometry::low_bits_keep_small_numbers(place.x as int);
    geometry::low_bits_keep_small_numbers(place.y as int);
}

/// Whatever place is found, something is done with it: with a place the texels are written, and
/// without one a larger texture is wanted for the same glyph and the same image. Where it was made
/// larger, a place is looked for once more, and where it was not, the atlas is full.
pub proof fn image_is_stored_or_atlas_is_full(
    asked: AllocateStep,
    place: Option<Allocation>,
    atlas: TextAtlasView,
    step: Step,
)
    requires
        asked.takes_place(place, atlas, step),
    ensures
        place is Some ==> step is WriteTexture,
        place is None ==> (step matches Step::Grow(larger) && {
            &&& larger.task == asked.task
            &&& larger.image == asked.image
            &&& larger.after(true) == Step::Allocate(asked)
            &&& larger.after(false) == Step::Failed(PrepareError::AtlasFull)
        }),
{
}

/// The depth that was found is the depth at which the glyph goes on, and nothing else of it
/// changes.
pub proof fn depth_is_handed_on(asked: DepthStep, depth: u32)
    ensures
        asked.after(depth) matches Step::Transform(next) && next.depth == depth && next.task
            == asked.task && next.glyph == asked.glyph,
{
}

/// An image of a font with texels waits for a place as it is, with its size, its kind and its
/// offset, each cut to 16 bits, and the atlas is left as it is.
pub proof fn text_image_waits_for_place(
    asked: RasterizeTextStep,
    image: SwashImage,
    atlas: TextAtlasView,
    step: Step,
    atlas_after: TextAtlasView,
)
    requires
        asked.takes_image(Some(image), atlas, step, atlas_after),
        image.width % 65536 > 0,
        image.height % 65536 > 0,
    ensures
        atlas_after == atlas,
        step matches Step::Allocate(next) && {
            &&& next.task == asked.task
            &&& next.image.width == image.width % 65536
            &&& next.image.height == image.height % 65536
            &&& (image.left - next.image.left) % 65536 == 0
            &&& (image.top - next.image.top) % 65536 == 0
            &&& next.image.content_type is Color <==> image.content is Color
            &&& -32768 <= image.left <= 32767 ==> next.image.left == image.left
            &&& -32768 <= image.top <= 32767 ==> next.image.top == image.top
            &&& !(image.content is SubpixelMask) ==> next.image.data@ == image.data@
            &&& image.content is SubpixelMask ==> next.image.data@ == image::alpha_coverage(
                image.data@,
                image.width,
                image.height,
            )
        },
{
    geometry::low_bits_keep_small_numbers(image.width as int);
    geometry::low_bits_keep_small_numbers(image.height as int);
    if let Step::Allocate(next) = step {
        image::text_image_is_kept(next.image, image);
    }
}

/// An image of a font without texels, its size cut to 16 bits, is entered among the colours, with
/// its size and its offset, so that it is not asked for again, and the glyph is not drawn.
pub proof fn text_image_without_texels_is_entered(
    asked: RasterizeTextStep,
    image: SwashImage,
    atlas: TextAtlasView,
    step: Step,
    atlas_after: TextAtlasView,
)
    requires
        asked.takes_image(Some(image), atlas, step, atlas_after),
        image.width % 65536 == 0 || image.height % 65536 == 0,
        atlas.cached(asked.task.job.metadata.cache_key) is None,
    ensures
        atlas_after.color_mode == atlas.color_mode,
        atlas_after.mask_atlas == atlas.mask_atlas,
        atlas_after.cached(asked.task.job.metadata.cache_key) matches Some(details) && {
            &&& details.gpu_cache is SkipRasterization
            &&& details.atlas_id is None
            &&& details.width == image.width % 65536 && details.height == image.height % 65536
            &&& (image.left - details.left) % 65536 == 0 && (image.top - details.top) % 65536 == 0
        },
        ({
            let metadata = asked.task.job.metadata;
            let details = atlas_after.cached(metadata.cache_key).unwrap();
            let x = metadata.x + details.left;
            let baseline = metadata.line_y + metadata.y;
            let y = baseline - details.top;
            let in_range = -0x8000_0000 <= x <= 0x7fff_ffff && -0x8000_0000 <= baseline
                <= 0x7fff_ffff && -0x8000_0000 <= y <= 0x7fff_ffff;
            &&& in_range ==> step is NextGlyph
            &&& !in_range ==> step is Overflow
        }),
{
    let key = asked.task.job.metadata.cache_key;
    let details = asked.textureless_details(image);
    geometry::low_bits_keep_small_numbers(image.width as int);
    geometry::low_bits_keep_small_numbers(image.height as int);
    crate::atlas::glyph_is_entered_by_its_texels(atlas, key, details);
    crate::atlas::entered_glyph_is_found(atlas, key, details, key);
}

/// The image of a custom glyph waits for a place as it is, with the size that was asked for and
/// without an offset, and the atlas is left as it is.
pub proof fn custom_image_waits_for_place(
    asked: RasterizeCustomStep,
    output: RasterizedCustomGlyph,
    atlas: TextAtlasView,
    step: Step,
    atlas_after: TextAtlasView,
)
    requires
        asked.takes_image(Some(output), atlas, step, atlas_after),
        asked.request.width > 0,
        asked.request.height > 0,
    ensures
        atlas_after == atlas,
        step matches Step::Allocate(next) && {
            &&& next.task == asked.task
            &&& next.image.width == asked.request.width
            &&& next.image.height == asked.request.height
            &&& next.image.content_type == output.content_type
            &&& next.image.left == 0 && next.image.top == 0
            &&& next.image.data@ == output.data@
        },
{
}

/// A glyph of which there is no image is passed over, and the atlas is left as it is.
pub proof fn glyph_without_image_is_passed_over(
    text: RasterizeTextStep,
    custom: RasterizeCustomStep,
    atlas: TextAtlasView,
    step: Step,
    atlas_after: TextAtlasView,
)
    requires
        text.takes_image(None, atlas, step, atlas_after) || custom.takes_image(
            None,
            atlas,
            step,
            atlas_after,
        ),
    ensures
        step is NextGlyph,
        atlas_after == atlas,
{
}

/// The image of a glyph that no texture holds is asked for: that of a glyph of a font always, and
/// that of a custom glyph where it has pixels and there is a rasterizer. A custom glyph without
/// pixels or without a rasterizer is passed over.
pub proof fn image_is_asked_for_unless_held(task: GlyphTask, atlas: TextAtlasView)
    requires
        !atlas.mask_atlas.glyph_cache.contains_key(task.job.metadata.cache_key.spec_code()),
        !atlas.color_atlas.glyph_cache.contains_key(task.job.metadata.cache_key.spec_code()),
    ensures
        match task.job.source {
            GlyphSource::Text => task.begun(atlas) matches Step::RasterizeText(asked) && asked.task
                == task,
            GlyphSource::Custom(request) => if request.width > 0 && request.height > 0
                && task.frame.custom is Present {
                task.begun(atlas) matches Step::RasterizeCustom(asked) && asked.task == task
                    && asked.request == request
            } else {
                task.begun(atlas) is NextGlyph
            },
        },
{
}

/// A glyph that a texture holds goes on with what is held, that of the masks first.
pub proof fn held_glyph_goes_on(task: GlyphTask, atlas: TextAtlasView)
    ensures
        ({
            let code = task.job.metadata.cache_key.spec_code();
            let masks = atlas.mask_atlas.glyph_cache;
            let colors = atlas.color_atlas.glyph_cache;
            &&& masks.contains_key(code) ==> task.begun(atlas) == task.resolved(
                masks[code],
                atlas.color_mode,
            )
            &&& !masks.contains_key(code) && colors.contains_key(code) ==> task.begun(atlas)
                == task.resolved(colors[code], atlas.color_mode)
        }),
{
}

/// A visible glyph goes on to its depth where depths come from the metadata, and straight to its
/// corners, at depth zero, where they do not. A hidden one is passed over.
pub proof fn visible_glyph_goes_on(task: GlyphTask, details: GlyphDetails, color_mode: ColorMode)
    ensures
        match placement(task.job.metadata, details, task.bounds, color_mode) {
            Placement::Visible(glyph) => {
                &&& task.frame.depth is Metadata ==> (task.resolved(details, color_mode) matches
                    Step::Depth(asked) && asked.task == task && asked.glyph == glyph)
                &&& task.frame.depth is Zero ==> (task.resolved(details, color_mode) matches
                    Step::Transform(asked) && asked.task == task && asked.glyph == glyph
                    && asked.depth == 0)
            },
            Placement::Hidden => task.resolved(details, color_mode) is NextGlyph,
            Placement::Overflow => task.resolved(details, color_mode) is Overflow,
        },
{
}

/// A glyph is prepared with the frame of the preparation and as its area asks for: untransformed
/// where the area is, and clipped to the pixels of the area that are on the screen, or to none.
pub proof fn glyph_is_prepared_as_its_area_asks(
    frame: Frame,
    area: TextArea,
    job: GlyphJob,
    pixel: int,
)
    requires
        frame.resolution.width <= i32::MAX,
        frame.resolution.height <= i32::MAX,
    ensures
        ({
            let task = task_in(frame, area, job);
            &&& task.frame == frame
            &&& task.job == job
            &&& task.is_identity == area.is_identity()
            &&& area.is_identity() ==> {
                &&& task.bounds.x.min <= pixel < task.bounds.x.max <==> area.bounds.left <= pixel
                    < area.bounds.right && 0 <= pixel < frame.resolution.width
                &&& task.bounds.y.min <= pixel < task.bounds.y.max <==> area.bounds.top <= pixel
                    < area.bounds.bottom && 0 <= pixel < frame.resolution.height
            }
            &&& !area.is_identity() ==> {
                &&& task.bounds.x.min == -1073741824 && task.bounds.x.max == 1073741823
                &&& task.bounds.y.min == -1073741824 && task.bounds.y.max == 1073741823
            }
        }),
{
    geometry::bounds_hold_pixels_of_area_on_screen(area.bounds, frame.resolution, pixel);
    geometry::bounds_of_transformed_text_are_wide(area.bounds, frame.resolution);
}

/// A preparation goes through its areas and, in each, through all that is prepared of it, in order,
/// and it keeps its frame. It wants the next area once nothing is left of one, and is finished once
/// there is none.
pub proof fn preparation_goes_through_areas(
    preparation: PreparationView,
    area: TextArea,
    atlas: TextAtlasView,
)
    ensures
        preparation.with_area(Some(area)).area == Some(area),
        preparation.with_area(Some(area)).remaining == area.items(),
        preparation.with_area(Some(area)).frame == preparation.frame,
        preparation.with_area(None).remaining.len() == 0,
        preparation.with_area(None).area is None,
        preparation.with_area(None).frame == preparation.frame,
        PreparationView::start(preparation.frame).remaining.len() == 0,
        PreparationView::start(preparation.frame).area is None,
        PreparationView::start(preparation.frame).frame == preparation.frame,
        PreparationView::step_with_area(Some(area)) is NextGlyph,
        PreparationView::step_with_area(None) is Finished,
        preparation.advanced().frame == preparation.frame,
        preparation.advanced().area == preparation.area,
        preparation.remaining.len() == 0 ==> preparation.step_advanced(atlas) is NextArea
            && preparation.atlas_advanced(atlas) == atlas,
        preparation.remaining.len() > 0 ==> match preparation.remaining[0] {
            AreaItem::Glyph(job) => {
                let task = task_in(preparation.frame, preparation.area.unwrap(), job);
                &&& preparation.advanced().remaining == preparation.remaining.subrange(
                    1,
                    preparation.remaining.len() as int,
                )
                &&& preparation.step_advanced(atlas) == task.begun(atlas)
                &&& preparation.atlas_advanced(atlas) == atlas.after_lookup(job.metadata.cache_key)
            },
            AreaItem::Overflow => {
                &&& preparation.step_advanced(atlas) is Overflow
                &&& preparation.atlas_advanced(atlas) == atlas
                &&& preparation.advanced().remaining == preparation.remaining
            },
        },
{
}

/// A glyph whose texels have been written is held from then on in the texture for its kind of
/// texels, in use there, and goes on with the details with which that texture holds it: its own,
/// unless the texture held it before.
pub proof fn written_glyph_is_held(asked: WriteTextureStep, atlas: TextAtlasView)
    requires
        asked.details.gpu_cache is InAtlas,
    ensures
        ({
            let code = asked.task.job.metadata.cache_key.spec_code();
            let after = asked.atlas_after(atlas);
            let (before_home, home) = if asked.details.gpu_cache->content_type is Mask {
                (atlas.mask_atlas, after.mask_atlas)
            } else {
                (atlas.color_atlas, after.color_atlas)
            };
            &&& home.glyph_cache.contains_key(code)
            &&& home.glyphs_in_use.contains(code)
            &&& after.color_mode == atlas.color_mode
            &&& !before_home.glyph_cache.contains_key(code) ==> home.glyph_cache[code]
                == asked.details
            &&& before_home.glyph_cache.contains_key(code) ==> home.glyph_cache[code]
                == before_home.glyph_cache[code]
            &&& asked.after(atlas) == asked.task.resolved(
                home.glyph_cache[code],
                atlas.color_mode,
            )
        }),
{
    crate::atlas::glyph_is_entered_by_its_texels(
        atlas,
        asked.task.job.metadata.cache_key,
        asked.details,
    );
}

} // verus!
