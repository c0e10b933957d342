use glyphon::atlas::{
    ColorMode, CustomGlyphCacheKey, GlyphDetails, GlyphonCacheKey, GpuCacheStatus, InnerAtlas,
    TextAtlas,
};
use glyphon::geometry::{GlyphRect, Resolution, TextBounds};
use glyphon::image::{
    ContentType, RasterizeCustomGlyphRequest, RasterizedCustomGlyph, SubpixelBin, SwashContent,
    SwashImage,
};
use glyphon::layout::{AreaCursor, AreaItem, CustomGlyph, LayoutGlyph, LayoutRun, TextArea};
use glyphon::prepare::{
    place_glyph, Allocation, AllocateStep, DepthSource, DepthStep, GrowStep, Placement,
    RasterizeCustomStep, RasterizeTextStep, TransformStep, WriteTextureStep,
};
use glyphon::{CameraUniform, Preparation, PrepareError, Step, TextRenderer, Viewport};
use glyphon::bytes::ByteOrder;

const ONE: u32 = 0x3f80_0000;

fn identity() -> [[u32; 4]; 4] {
    CameraUniform::default().view_proj
}

fn area(runs: Vec<LayoutRun>, custom_glyphs: Vec<CustomGlyph>) -> TextArea {
    TextArea {
        transform: identity(),
        zoom: ONE,
        bounds: TextBounds {
            left: 0,
            top: 0,
            right: 1000,
            bottom: 1000,
        },
        default_color: 0xff00_00ff,
        custom_glyphs,
        runs,
    }
}

fn glyph(x: i32, y: i32, cache_key: u64) -> LayoutGlyph {
    LayoutGlyph {
        x,
        y,
        cache_key,
        color_opt: None,
        metadata: 17,
    }
}

fn run(start_y: i32, keys: &[u64]) -> LayoutRun {
    LayoutRun {
        start_y,
        height: 10,
        line_y: 8,
        glyphs: keys.iter().map(|key| glyph(5, 1, *key)).collect(),
    }
}

fn custom(id: u16, snap: bool) -> CustomGlyph {
    CustomGlyph {
        id,
        rounded_x: 11,
        rounded_y: 12,
        binned_x: 10,
        x_bin: SubpixelBin::Three,
        binned_y: 12,
        y_bin: SubpixelBin::One,
        width: 4,
        height: 2,
        color: Some(0x1234_5678),
        snap_to_physical_pixel: snap,
        metadata: 23,
    }
}

fn empty_atlas() -> TextAtlas {
    TextAtlas {
        color_atlas: InnerAtlas::new(4),
        mask_atlas: InnerAtlas::new(1),
        color_mode: ColorMode::Accurate,
    }
}

fn viewport() -> Viewport {
    let (mut viewport, _) = Viewport::new();
    let resolution = Resolution {
        width: 200,
        height: 100,
    };
    viewport.update(resolution, CameraUniform::default(), ByteOrder::Little);
    viewport
}

fn mask(width: u32, height: u32) -> SwashImage {
    SwashImage {
        content: SwashContent::Mask,
        left: 2,
        top: 6,
        width,
        height,
        data: vec![1; (width * height) as usize],
    }
}

fn text_step(step: Step) -> RasterizeTextStep {
    match step {
        Step::RasterizeText(step) => step,
        _ => panic!("no image of a font's glyph is wanted"),
    }
}

fn custom_step(step: Step) -> RasterizeCustomStep {
    match step {
        Step::RasterizeCustom(step) => step,
        _ => panic!("no image of a custom glyph is wanted"),
    }
}

fn allocate_step(step: Step) -> AllocateStep {
    match step {
        Step::Allocate(step) => step,
        _ => panic!("no place is wanted"),
    }
}

fn grow_step(step: Step) -> GrowStep {
    match step {
        Step::Grow(step) => step,
        _ => panic!("no larger texture is wanted"),
    }
}

fn write_step(step: Step) -> WriteTextureStep {
    match step {
        Step::WriteTexture(step) => step,
        _ => panic!("no texels are to be written"),
    }
}

fn depth_step(step: Step) -> DepthStep {
    match step {
        Step::Depth(step) => step,
        _ => panic!("no depth is wanted"),
    }
}

fn transform_step(step: Step) -> TransformStep {
    match step {
        Step::Transform(step) => step,
        _ => panic!("no corners are wanted"),
    }
}

fn place(x: i32, y: i32) -> Option<Allocation> {
    Some(Allocation { x, y, id: 77 })
}

fn started(
    renderer: &mut TextRenderer,
    area: TextArea,
) -> Preparation {
    let mut preparation = renderer.prepare(&viewport());
    assert!(matches!(preparation.take_area(Some(area)), Step::NextGlyph));
    preparation
}

fn keys(area: TextArea) -> Vec<Option<GlyphonCacheKey>> {
    let mut cursor = AreaCursor::new(
        area,
        Resolution {
            width: 200,
            height: 100,
        },
    );
    let mut keys = Vec::new();
    loop {
        match cursor.next() {
            Some(AreaItem::Glyph(job)) => keys.push(Some(job.metadata.cache_key)),
            Some(AreaItem::Overflow) => {
                keys.push(None);
                return keys;
            }
            None => return keys,
        }
    }
}

fn text(key: u64) -> Option<GlyphonCacheKey> {
    Some(GlyphonCacheKey::Text(key))
}

#[test]
fn area_goes_through_custom_glyphs_and_then_lines() {
    let custom_key = |id| {
        Some(GlyphonCacheKey::Custom(CustomGlyphCacheKey {
            glyph_id: id,
            width: 4,
            height: 2,
            x_bin: SubpixelBin::Three,
            y_bin: SubpixelBin::One,
        }))
    };
    let walked = keys(area(
        vec![run(0, &[1, 2]), run(10, &[]), run(20, &[3])],
        vec![custom(8, false), custom(9, false)],
    ));
    assert_eq!(
        walked,
        vec![custom_key(8), custom_key(9), text(1), text(2), text(3)]
    );
}

#[test]
fn area_takes_the_first_block_of_visible_lines() {
    let walked = keys(area(
        vec![
            run(-50, &[1]),
            run(-20, &[2]),
            run(-10, &[3]),
            run(0, &[4, 5]),
            run(1001, &[6]),
            run(0, &[7]),
        ],
        Vec::new(),
    ));
    assert_eq!(walked, vec![text(3), text(4), text(5)]);
}

#[test]
fn area_without_visible_lines_has_no_glyphs() {
    assert_eq!(keys(area(vec![run(-50, &[1]), run(2000, &[2])], Vec::new())), vec![]);
    assert_eq!(keys(area(Vec::new(), Vec::new())), vec![]);
}

#[test]
fn transformed_area_takes_every_line() {
    let mut turned = area(vec![run(-50, &[1]), run(i32::MAX, &[2]), run(0, &[3])], Vec::new());
    turned.zoom = 2.0f32.to_bits();
    assert_eq!(keys(turned), vec![text(1), text(2), text(3)]);
}

#[test]
fn line_whose_bottom_is_out_of_range_is_reported() {
    let walked = keys(area(vec![run(0, &[1]), run(i32::MAX, &[2])], Vec::new()));
    assert_eq!(walked, vec![text(1), None]);
    // It is not looked at behind the end of the visible lines.
    let walked = keys(area(
        vec![run(0, &[1]), run(5000, &[2]), run(i32::MAX, &[3])],
        Vec::new(),
    ));
    assert_eq!(walked, vec![text(1)]);
}

#[test]
fn custom_glyphs_snap_to_whole_pixels() {
    let job = custom(3, true).job(1);
    assert_eq!((job.metadata.x, job.metadata.y, job.metadata.line_y), (11, 12, 0));
    assert_eq!(job.metadata.color, 0x1234_5678);
    assert_eq!(job.metadata.metadata, 23);
    assert_eq!(
        job.metadata.cache_key,
        GlyphonCacheKey::Custom(CustomGlyphCacheKey {
            glyph_id: 3,
            width: 4,
            height: 2,
            x_bin: SubpixelBin::Zero,
            y_bin: SubpixelBin::Zero,
        })
    );
    let job = custom(3, false).job(1);
    assert_eq!((job.metadata.x, job.metadata.y), (10, 12));
    let mut plain = custom(3, false);
    plain.color = None;
    assert_eq!(plain.job(1).metadata.color, 1);
}

#[test]
fn text_glyphs_have_their_colour_or_that_of_the_area() {
    let mut red = glyph(1, 2, 3);
    assert_eq!(red.job(4, 5).metadata.color, 5);
    assert_eq!(red.job(4, 5).metadata.line_y, 4);
    red.color_opt = Some(6);
    assert_eq!(red.job(4, 5).metadata.color, 6);
}

#[test]
fn uncached_glyph_goes_through_every_step() {
    let (mut renderer, _, _) = TextRenderer::new();
    let mut atlas = empty_atlas();
    let mut preparation = started(&mut renderer, area(vec![run(0, &[1])], Vec::new()));
    let step = text_step(preparation.next(&mut atlas));
    assert_eq!(step.task.job.metadata.cache_key, GlyphonCacheKey::Text(1));
    assert!(step.task.is_identity);
    let step = allocate_step(step.rasterized(&mut atlas, Some(mask(3, 4))));
    assert_eq!(step.image.content_type, ContentType::Mask);
    // No place, a larger texture, and a place.
    let step = grow_step(step.allocated(&atlas, None));
    let step = allocate_step(step.grown(true));
    assert_eq!((step.image.width, step.image.height), (3, 4));
    let step = write_step(step.allocated(&atlas, place(40, 50)));
    assert_eq!(step.write.content_type, ContentType::Mask);
    assert_eq!((step.write.x, step.write.y), (40, 50));
    assert_eq!((step.write.width, step.write.height), (3, 4));
    assert_eq!(step.write.bytes_per_row, 3);
    assert_eq!(step.write.data, vec![1; 12]);
    let details = GlyphDetails {
        width: 3,
        height: 4,
        gpu_cache: GpuCacheStatus::InAtlas {
            x: 40,
            y: 50,
            content_type: ContentType::Mask,
        },
        atlas_id: Some(77),
        top: 6,
        left: 2,
    };
    assert_eq!(step.details, details);
    assert!(atlas.mask_atlas.glyph_cache.is_empty());
    let step = transform_step(step.written(&mut atlas));
    let code = GlyphonCacheKey::Text(1).code();
    assert_eq!(atlas.mask_atlas.glyph_cache.get(&code), Some(&details));
    assert!(atlas.mask_atlas.glyphs_in_use.contains(&code));
    // x = 5 + 2, y = 8 + 1 - 6.
    let rect = GlyphRect {
        x: 7,
        y: 3,
        width: 3,
        height: 4,
        atlas_x: 40,
        atlas_y: 50,
    };
    assert_eq!(step.glyph.rect, rect);
    assert_eq!(step.glyph.color, 0xff00_00ff);
    assert_eq!((step.glyph.content_type, step.glyph.conversion), (1, 1));
    assert_eq!(step.depth, 0);
    assert_eq!(step.corners(), [[0, 0], [3, 0], [3, 4], [0, 4]]);
    let clip = [[1, 2, 3, 4], [5, 6, 7, 8], [9, 10, 11, 12], [13, 14, 15, 16]];
    assert!(matches!(step.transformed(&mut renderer, clip), Step::NextGlyph));
    assert_eq!(renderer.vertices().len(), 4);
    assert_eq!(renderer.indices(), &vec![0, 1, 2, 0, 2, 3]);
    assert!(matches!(preparation.next(&mut atlas), Step::NextArea));
    assert!(matches!(preparation.take_area(None), Step::Finished));
}

#[test]
fn cached_glyph_is_not_rasterized_again() {
    let (mut renderer, _, _) = TextRenderer::new();
    let mut atlas = empty_atlas();
    let mut preparation = started(&mut renderer, area(vec![run(0, &[1, 1])], Vec::new()));
    let step = text_step(preparation.next(&mut atlas));
    let step = allocate_step(step.rasterized(&mut atlas, Some(mask(3, 4))));
    let step = write_step(step.allocated(&atlas, place(40, 50)));
    let first = transform_step(step.written(&mut atlas));
    let second = transform_step(preparation.next(&mut atlas));
    assert_eq!(first.glyph, second.glyph);
}

#[test]
fn refused_growth_ends_the_preparation() {
    let (mut renderer, _, _) = TextRenderer::new();
    let mut atlas = empty_atlas();
    let mut preparation = started(&mut renderer, area(vec![run(0, &[1])], Vec::new()));
    let step = text_step(preparation.next(&mut atlas));
    let step = allocate_step(step.rasterized(&mut atlas, Some(mask(3, 4))));
    let step = grow_step(step.allocated(&atlas, None));
    assert!(matches!(
        step.grown(false),
        Step::Failed(PrepareError::AtlasFull)
    ));
    assert!(atlas.mask_atlas.glyph_cache.is_empty());
}

#[test]
fn glyph_without_image_is_passed_over() {
    let (mut renderer, _, _) = TextRenderer::new();
    let mut atlas = empty_atlas();
    let mut preparation = started(&mut renderer, area(vec![run(0, &[1, 2])], Vec::new()));
    let step = text_step(preparation.next(&mut atlas));
    assert!(matches!(step.rasterized(&mut atlas, None), Step::NextGlyph));
    assert!(atlas.mask_atlas.glyph_cache.is_empty());
    let step = text_step(preparation.next(&mut atlas));
    assert_eq!(step.task.job.metadata.cache_key, GlyphonCacheKey::Text(2));
}

#[test]
fn glyph_without_texels_is_entered_among_the_colours() {
    let (mut renderer, _, _) = TextRenderer::new();
    let mut atlas = empty_atlas();
    let mut preparation = started(&mut renderer, area(vec![run(0, &[1, 1])], Vec::new()));
    let step = text_step(preparation.next(&mut atlas));
    assert!(matches!(
        step.rasterized(&mut atlas, Some(mask(0, 4))),
        Step::NextGlyph
    ));
    let code = GlyphonCacheKey::Text(1).code();
    assert!(atlas.mask_atlas.glyph_cache.is_empty());
    assert_eq!(
        atlas.color_atlas.glyph_cache.get(&code),
        Some(&GlyphDetails {
            width: 0,
            height: 4,
            gpu_cache: GpuCacheStatus::SkipRasterization,
            atlas_id: None,
            top: 6,
            left: 2,
        })
    );
    assert!(atlas.color_atlas.glyphs_in_use.contains(&code));
    // The second time it is known that there is nothing to draw.
    assert!(matches!(preparation.next(&mut atlas), Step::NextGlyph));
}

#[test]
fn custom_glyph_with_a_rasterizer_is_rasterized() {
    let (mut renderer, _, _) = TextRenderer::new();
    let mut atlas = empty_atlas();
    let mut preparation = renderer.prepare_with_custom(&viewport());
    preparation.take_area(Some(area(Vec::new(), vec![custom(3, true)])));
    let step = custom_step(preparation.next(&mut atlas));
    assert_eq!(
        step.request,
        RasterizeCustomGlyphRequest {
            id: 3,
            width: 4,
            height: 2,
            x_bin: SubpixelBin::Zero,
            y_bin: SubpixelBin::Zero,
        }
    );
    let output = RasterizedCustomGlyph {
        content_type: ContentType::Color,
        data: vec![9; 32],
    };
    let step = allocate_step(step.rasterized(&mut atlas, Some(output)));
    let step = write_step(step.allocated(&atlas, place(0, 0)));
    assert_eq!(step.write.bytes_per_row, 16);
    assert_eq!(step.write.data, vec![9; 32]);
    let step = transform_step(step.written(&mut atlas));
    assert_eq!((step.glyph.content_type, step.glyph.conversion), (0, 1));
    assert_eq!((step.glyph.rect.x, step.glyph.rect.y), (11, 12));
    assert_eq!(atlas.color_atlas.glyph_cache.len(), 1);
}

#[test]
fn custom_glyph_without_pixels_or_rasterizer_or_image_is_passed_over() {
    let (mut renderer, _, _) = TextRenderer::new();
    let mut atlas = empty_atlas();
    let mut flat = custom(3, true);
    flat.height = 0;
    let mut preparation = renderer.prepare_with_custom(&viewport());
    preparation.take_area(Some(area(Vec::new(), vec![flat, custom(4, true)])));
    assert!(matches!(preparation.next(&mut atlas), Step::NextGlyph));
    let step = custom_step(preparation.next(&mut atlas));
    assert!(matches!(step.rasterized(&mut atlas, None), Step::NextGlyph));
    let mut preparation = started(&mut renderer, area(Vec::new(), vec![custom(4, true)]));
    assert!(matches!(preparation.next(&mut atlas), Step::NextGlyph));
    assert!(matches!(preparation.next(&mut atlas), Step::NextArea));
    assert!(atlas.color_atlas.glyph_cache.is_empty());
}

#[test]
fn depths_are_asked_for_visible_glyphs_only() {
    let (mut renderer, _, _) = TextRenderer::new();
    let mut atlas = empty_atlas();
    let mut preparation = renderer.prepare_with_depth(&viewport());
    let mut line = run(0, &[1, 1]);
    line.glyphs[1].x = 5000;
    preparation.take_area(Some(area(vec![line], Vec::new())));
    let step = text_step(preparation.next(&mut atlas));
    let step = allocate_step(step.rasterized(&mut atlas, Some(mask(3, 4))));
    let step = write_step(step.allocated(&atlas, place(40, 50)));
    let step = depth_step(step.written(&mut atlas));
    assert_eq!(step.task.job.metadata.metadata, 17);
    assert_eq!(step.task.frame.depth, DepthSource::Metadata);
    let step = transform_step(step.measured(0.5f32.to_bits()));
    assert_eq!(step.depth, 0.5f32.to_bits());
    assert!(matches!(preparation.next(&mut atlas), Step::NextGlyph));
}

#[test]
fn glyph_at_the_edge_of_the_range_stops_the_preparation() {
    let (mut renderer, _, _) = TextRenderer::new();
    let mut atlas = empty_atlas();
    let mut line = run(0, &[1, 1, 1]);
    line.glyphs[0].x = i32::MAX;
    line.glyphs[1].y = i32::MAX;
    line.glyphs[2].y = i32::MIN;
    let mut preparation = started(&mut renderer, area(vec![line], Vec::new()));
    let step = text_step(preparation.next(&mut atlas));
    let step = allocate_step(step.rasterized(&mut atlas, Some(mask(3, 4))));
    let step = write_step(step.allocated(&atlas, place(40, 50)));
    assert!(matches!(step.written(&mut atlas), Step::Overflow));
    assert!(matches!(preparation.next(&mut atlas), Step::Overflow));
    assert!(matches!(preparation.next(&mut atlas), Step::NextGlyph));
}

#[test]
fn places_are_cut_to_the_width_of_their_numbers() {
    let (mut renderer, _, _) = TextRenderer::new();
    let mut atlas = empty_atlas();
    let mut preparation = started(&mut renderer, area(vec![run(0, &[1])], Vec::new()));
    let step = text_step(preparation.next(&mut atlas));
    let step = allocate_step(step.rasterized(&mut atlas, Some(mask(3, 4))));
    let step = write_step(step.allocated(&atlas, place(65536 + 9, -1)));
    assert_eq!((step.write.x, step.write.y), (65545, u32::MAX));
    assert_eq!(
        step.details.gpu_cache,
        GpuCacheStatus::InAtlas {
            x: 9,
            y: 65535,
            content_type: ContentType::Mask,
        }
    );
}

#[test]
fn web_colours_are_not_converted() {
    let details = GlyphDetails {
        width: 3,
        height: 4,
        gpu_cache: GpuCacheStatus::InAtlas {
            x: 40,
            y: 50,
            content_type: ContentType::Color,
        },
        atlas_id: None,
        top: 0,
        left: 0,
    };
    let cursor = AreaCursor::new(area(Vec::new(), Vec::new()), viewport().resolution());
    let metadata = glyph(198, 20, 1).job(0, 3).metadata;
    match place_glyph(metadata, details, cursor.bounds(), ColorMode::Web) {
        Placement::Visible(placed) => {
            assert_eq!((placed.content_type, placed.conversion), (0, 0));
            // The screen is 200 pixels wide.
            assert_eq!(placed.rect.width, 2);
            assert_eq!(placed.color, 3);
        }
        _ => panic!("the glyph is visible"),
    }
}

/// Prepares text areas in a world where every glyph has an image and a place, and returns the
/// colours of the glyphs that are drawn and the number of images that were asked for.
fn prepare_all(
    renderer: &mut TextRenderer,
    atlas: &mut TextAtlas,
    mut preparation: Preparation,
    areas: Vec<TextArea>,
) -> (Vec<u32>, usize) {
    let mut areas = areas.into_iter();
    let mut images = 0;
    let mut step = Step::NextArea;
    loop {
        step = match step {
            Step::NextArea => preparation.take_area(areas.next()),
            Step::NextGlyph => preparation.next(atlas),
            Step::RasterizeText(step) => {
                images += 1;
                step.rasterized(atlas, Some(mask(3, 4)))
            }
            Step::RasterizeCustom(step) => {
                images += 1;
                let output = RasterizedCustomGlyph {
                    content_type: ContentType::Color,
                    data: vec![9; 32],
                };
                step.rasterized(atlas, Some(output))
            }
            Step::Allocate(step) => step.allocated(atlas, place(images as i32 * 5, 0)),
            Step::Grow(step) => step.grown(true),
            Step::WriteTexture(step) => step.written(atlas),
            Step::Depth(step) => step.measured(0),
            Step::Transform(step) => step.transformed(renderer, [[0; 4]; 4]),
            Step::Finished => break,
            Step::Failed(_) | Step::Overflow => panic!("the preparation does not finish"),
        };
    }
    let colors = renderer.vertices().iter().step_by(4).map(|vertex| vertex.color);
    (colors.collect(), images)
}

fn two_areas() -> Vec<TextArea> {
    let mut first = area(vec![run(0, &[1, 2]), run(10, &[1])], vec![custom(3, true)]);
    first.runs[0].glyphs[0].color_opt = Some(10);
    first.runs[0].glyphs[1].color_opt = Some(20);
    first.runs[0].glyphs[1].x = 3000;
    first.runs[1].glyphs[0].color_opt = Some(30);
    let mut second = area(vec![run(0, &[2])], Vec::new());
    second.default_color = 40;
    vec![first, second]
}

#[test]
fn finished_preparation_draws_the_visible_glyphs_in_order() {
    let (mut renderer, _, _) = TextRenderer::new();
    let mut atlas = empty_atlas();
    let preparation = renderer.prepare_with_depth_and_custom(&viewport());
    let (colors, images) = prepare_all(&mut renderer, &mut atlas, preparation, two_areas());
    assert_eq!(colors, vec![0x1234_5678, 10, 30, 40]);
    assert_eq!(images, 3);
    assert_eq!(renderer.indices().len(), 24);
    let vertices = renderer.vertex_bytes(ByteOrder::Little);
    let indices = renderer.index_bytes(ByteOrder::Little);
    // Everything is cached now, and the second preparation draws the same. It does so too where no
    // glyph is in use any more.
    atlas.mask_atlas.glyphs_in_use.clear();
    atlas.color_atlas.glyphs_in_use.clear();
    let preparation = renderer.prepare_with_depth_and_custom(&viewport());
    let (again, images) = prepare_all(&mut renderer, &mut atlas, preparation, two_areas());
    assert_eq!(again, colors);
    assert_eq!(images, 0);
    assert_eq!(renderer.vertex_bytes(ByteOrder::Little), vertices);
    assert_eq!(renderer.index_bytes(ByteOrder::Little), indices);
}

#[test]
fn glyphs_that_differ_in_colour_or_metadata_share_an_image() {
    let (mut renderer, _, _) = TextRenderer::new();
    let mut atlas = empty_atlas();
    let mut other = custom(3, false);
    other.color = Some(50);
    other.metadata = 99;
    let mut line = run(0, &[1, 1]);
    line.glyphs[1].color_opt = Some(60);
    line.glyphs[1].metadata = 98;
    let areas = vec![area(vec![line], vec![custom(3, false), other])];
    let preparation = renderer.prepare_with_custom(&viewport());
    let (colors, images) = prepare_all(&mut renderer, &mut atlas, preparation, areas);
    assert_eq!(colors, vec![0x1234_5678, 50, 0xff00_00ff, 60]);
    assert_eq!(images, 2);
    // Another size, or another part of a pixel, is another image.
    let mut larger = custom(3, false);
    larger.width = 5;
    let mut moved = custom(3, false);
    moved.y_bin = SubpixelBin::Two;
    let areas = vec![area(Vec::new(), vec![larger, moved, custom(3, false)])];
    let preparation = renderer.prepare_with_custom(&viewport());
    let (colors, images) = prepare_all(&mut renderer, &mut atlas, preparation, areas);
    assert_eq!(colors.len(), 3);
    assert_eq!(images, 2);
}

#[test]
fn image_that_was_not_there_is_asked_for_again() {
    let (mut renderer, _, _) = TextRenderer::new();
    let mut atlas = empty_atlas();
    let mut preparation = started(&mut renderer, area(vec![run(0, &[1, 1])], Vec::new()));
    let step = text_step(preparation.next(&mut atlas));
    assert!(matches!(step.rasterized(&mut atlas, None), Step::NextGlyph));
    let step = text_step(preparation.next(&mut atlas));
    let step = allocate_step(step.rasterized(&mut atlas, Some(mask(3, 4))));
    let step = write_step(step.allocated(&atlas, place(40, 50)));
    let step = transform_step(step.written(&mut atlas));
    assert!(matches!(
        step.transformed(&mut renderer, [[0; 4]; 4]),
        Step::NextGlyph
    ));
    // Only the second glyph is drawn.
    assert_eq!(renderer.vertices().len(), 4);
}

#[test]
fn area_that_does_not_meet_the_screen_shows_no_pixels() {
    let (mut viewport, _) = Viewport::new();
    let resolution = Resolution {
        width: 100,
        height: 100,
    };
    viewport.update(resolution, CameraUniform::default(), ByteOrder::Little);
    let (mut renderer, _, _) = TextRenderer::new();
    let mut atlas = empty_atlas();
    let mut glyph = custom(1, true);
    glyph.rounded_x = -10;
    glyph.rounded_y = 0;
    glyph.width = 20;
    glyph.height = 4;
    let mut aside = area(Vec::new(), vec![glyph]);
    aside.bounds = TextBounds {
        left: -50,
        top: 0,
        right: -5,
        bottom: 100,
    };
    let mut preparation = renderer.prepare_with_custom(&viewport);
    assert!(matches!(preparation.take_area(Some(aside)), Step::NextGlyph));
    let step = custom_step(preparation.next(&mut atlas));
    let output = RasterizedCustomGlyph {
        content_type: ContentType::Mask,
        data: vec![1; 80],
    };
    let step = allocate_step(step.rasterized(&mut atlas, Some(output)));
    let step = write_step(step.allocated(&atlas, place(0, 0)));
    let step = transform_step(step.written(&mut atlas));
    assert!(matches!(
        step.transformed(&mut renderer, [[0; 4]; 4]),
        Step::NextGlyph
    ));
    assert!(matches!(preparation.next(&mut atlas), Step::NextArea));
    assert!(matches!(preparation.take_area(None), Step::Finished));
    assert_eq!(renderer.vertices().len(), 4);
    assert!(renderer.vertices().iter().all(|vertex| vertex.dim[0] == 0));
}

#[test]
fn preparation_without_a_rasterizer_leaves_custom_glyphs_out() {
    let (mut renderer, _, _) = TextRenderer::new();
    let mut atlas = empty_atlas();
    let preparation = renderer.prepare(&viewport());
    let (colors, images) = prepare_all(&mut renderer, &mut atlas, preparation, two_areas());
    assert_eq!(colors, vec![10, 30, 40]);
    assert_eq!(images, 2);
}

/// What was asked for in a preparation.
#[derive(Default)]
struct Asked {
    text: Vec<u64>,
    custom: Vec<u16>,
    depths: Vec<usize>,
}

/// Prepares text areas to the end in a world in which the fonts lack some glyphs, custom glyphs may
/// all lack images, and depths are some function of the metadata. The corners of a glyph lie at its
/// depth.
fn prepare_in_world(
    renderer: &mut TextRenderer,
    atlas: &mut TextAtlas,
    mut preparation: Preparation,
    areas: Vec<TextArea>,
    lacking: &[u64],
    has_custom_images: bool,
    depth: fn(usize) -> u32,
) -> Asked {
    let mut areas = areas.into_iter();
    let mut asked = Asked::default();
    let mut step = Step::NextArea;
    loop {
        step = match step {
            Step::NextArea => preparation.take_area(areas.next()),
            Step::NextGlyph => preparation.next(atlas),
            Step::RasterizeText(step) => {
                let key = match step.task.job.metadata.cache_key {
                    GlyphonCacheKey::Text(key) => key,
                    GlyphonCacheKey::Custom(_) => panic!("a font has no custom glyphs"),
                };
                asked.text.push(key);
                let image = if lacking.contains(&key) {
                    None
                } else {
                    Some(mask(3, 4))
                };
                step.rasterized(atlas, image)
            }
            Step::RasterizeCustom(step) => {
                asked.custom.push(step.request.id);
                let output = if has_custom_images {
                    Some(RasterizedCustomGlyph {
                        content_type: ContentType::Color,
                        data: vec![9; 32],
                    })
                } else {
                    None
                };
                step.rasterized(atlas, output)
            }
            Step::Allocate(step) => step.allocated(atlas, place(8, 9)),
            Step::Grow(step) => step.grown(true),
            Step::WriteTexture(step) => step.written(atlas),
            Step::Depth(step) => {
                let metadata = step.task.job.metadata.metadata;
                asked.depths.push(metadata);
                step.measured(depth(metadata))
            }
            Step::Transform(step) => {
                let corners = [[step.depth; 4]; 4];
                step.transformed(renderer, corners)
            }
            Step::Finished => return asked,
            Step::Failed(_) | Step::Overflow => panic!("the preparation does not finish"),
        };
    }
}

fn contents(renderer: &TextRenderer) -> (Vec<u8>, Vec<u8>) {
    (
        renderer.vertex_bytes(ByteOrder::Little),
        renderer.index_bytes(ByteOrder::Little),
    )
}

fn cached_keys(atlas: &TextAtlas) -> Vec<u128> {
    let masks = atlas.mask_atlas.glyph_cache.keys();
    let mut keys: Vec<u128> = masks.chain(atlas.color_atlas.glyph_cache.keys()).copied().collect();
    keys.sort();
    keys
}

#[test]
fn preparing_without_choices_is_preparing_with_trivial_ones() {
    let zero = |_| 0;
    let mut all = Vec::new();
    for choices in 0..4 {
        let (mut renderer, _, _) = TextRenderer::new();
        let mut atlas = empty_atlas();
        let preparation = match choices {
            0 => renderer.prepare(&viewport()),
            1 => renderer.prepare_with_depth(&viewport()),
            2 => renderer.prepare_with_custom(&viewport()),
            _ => renderer.prepare_with_depth_and_custom(&viewport()),
        };
        let asked = prepare_in_world(
            &mut renderer,
            &mut atlas,
            preparation,
            two_areas(),
            &[],
            false,
            zero,
        );
        assert_eq!(asked.text, vec![1, 2]);
        assert_eq!(asked.custom.len(), choices / 2);
        assert_eq!(asked.depths.len(), if choices % 2 == 1 { 3 } else { 0 });
        all.push((contents(&renderer), cached_keys(&atlas)));
    }
    assert_eq!(all[0].0 .0.len(), 3 * 4 * 32);
    assert!(all.iter().all(|one| *one == all[0]));
}

#[test]
fn custom_images_at_depth_zero_are_those_at_depths_that_are_zero() {
    let mut all = Vec::new();
    for has_depth in [false, true] {
        let (mut renderer, _, _) = TextRenderer::new();
        let mut atlas = empty_atlas();
        let preparation = if has_depth {
            renderer.prepare_with_depth_and_custom(&viewport())
        } else {
            renderer.prepare_with_custom(&viewport())
        };
        let asked = prepare_in_world(
            &mut renderer,
            &mut atlas,
            preparation,
            two_areas(),
            &[],
            true,
            |_| 0,
        );
        assert_eq!(asked.custom, vec![3]);
        all.push((contents(&renderer), cached_keys(&atlas)));
    }
    assert_eq!(all[0].0 .0.len(), 4 * 4 * 32);
    assert_eq!(all[0], all[1]);
}

#[test]
fn metadata_matter_for_depths_only() {
    let mut all = Vec::new();
    for (has_depth, metadata) in [(false, 17), (false, 18), (true, 17), (true, 18)] {
        let (mut renderer, _, _) = TextRenderer::new();
        let mut atlas = empty_atlas();
        let mut areas = two_areas();
        areas[0].custom_glyphs[0].metadata = metadata;
        areas[1].runs[0].glyphs[0].metadata = metadata;
        let preparation = if has_depth {
            renderer.prepare_with_depth_and_custom(&viewport())
        } else {
            renderer.prepare_with_custom(&viewport())
        };
        let asked = prepare_in_world(
            &mut renderer,
            &mut atlas,
            preparation,
            areas,
            &[],
            true,
            |metadata| metadata as u32,
        );
        if has_depth {
            assert_eq!(asked.depths, vec![metadata, 17, 17, metadata]);
        } else {
            assert_eq!(asked.depths, Vec::<usize>::new());
        }
        all.push(contents(&renderer));
    }
    assert_eq!(all[0], all[1]);
    assert_ne!(all[2], all[3]);
}

#[test]
fn repetition_asks_only_for_images_that_the_fonts_lack() {
    let (mut renderer, _, _) = TextRenderer::new();
    let mut atlas = empty_atlas();
    let mut results = Vec::new();
    for _ in 0..2 {
        let preparation = renderer.prepare_with_custom(&viewport());
        let asked = prepare_in_world(
            &mut renderer,
            &mut atlas,
            preparation,
            two_areas(),
            &[2],
            true,
            |_| 0,
        );
        results.push((asked.text, asked.custom, contents(&renderer)));
    }
    assert_eq!(results[0].0, vec![1, 2, 2]);
    assert_eq!(results[0].1, vec![3]);
    assert_eq!(results[1].0, vec![2, 2]);
    assert_eq!(results[1].1, Vec::<u16>::new());
    assert_eq!(results[0].2, results[1].2);
    // The custom glyph and two glyphs of the first area.
    assert_eq!(results[0].2 .0.len(), 3 * 4 * 32);
}

#[test]
fn depth_is_asked_for_each_drawn_glyph_in_order() {
    let (mut renderer, _, _) = TextRenderer::new();
    let mut atlas = empty_atlas();
    let mut areas = two_areas();
    for (metadata, glyph) in areas[0].runs[0].glyphs.iter_mut().enumerate() {
        glyph.metadata = metadata;
    }
    let preparation = renderer.prepare_with_depth(&viewport());
    let asked = prepare_in_world(
        &mut renderer,
        &mut atlas,
        preparation,
        areas,
        &[],
        false,
        |metadata| 100 + metadata as u32,
    );
    // The second glyph of the first line is not on the screen.
    assert_eq!(asked.depths, vec![0, 17, 17]);
    let firsts = renderer.vertices().iter().step_by(4);
    let depths: Vec<u32> = firsts.map(|vertex| vertex.depth).collect();
    assert_eq!(depths, vec![100, 117, 117]);
}
