use glyphon::geometry::{
    clip_glyph, glyph_bounds, is_run_visible, Bounds, Clip, GlyphBounds, GlyphRect, Resolution,
    RunVisibility, TextBounds,
};
use glyphon::transform::is_identity;

const SCREEN: Resolution = Resolution {
    width: 100,
    height: 50,
};

fn text_bounds(left: i32, top: i32, right: i32, bottom: i32) -> TextBounds {
    TextBounds {
        left,
        top,
        right,
        bottom,
    }
}

fn bounds(x: (i32, i32), y: (i32, i32)) -> GlyphBounds {
    GlyphBounds {
        x: Bounds { min: x.0, max: x.1 },
        y: Bounds { min: y.0, max: y.1 },
    }
}

fn rect(x: i32, y: i32, width: u16, height: u16, atlas_x: u16, atlas_y: u16) -> GlyphRect {
    GlyphRect {
        x,
        y,
        width,
        height,
        atlas_x,
        atlas_y,
    }
}

#[test]
fn bounds_are_the_part_of_the_area_on_the_screen() {
    assert_eq!(
        glyph_bounds(true, text_bounds(-5, 3, 200, 20), SCREEN),
        bounds((0, 100), (3, 20))
    );
    assert_eq!(
        glyph_bounds(true, text_bounds(10, -3, 20, 200), SCREEN),
        bounds((10, 20), (0, 50))
    );
    // An area left of the screen has reversed bounds.
    assert_eq!(
        glyph_bounds(true, text_bounds(-50, 0, -5, 20), SCREEN),
        bounds((0, -5), (0, 20))
    );
    // A width that is no `i32` is taken by its bits.
    let wide = Resolution {
        width: u32::MAX,
        height: 0x8000_0000,
    };
    assert_eq!(
        glyph_bounds(true, text_bounds(0, 0, 10, 10), wide),
        bounds((0, -1), (0, i32::MIN))
    );
}

#[test]
fn transformed_text_has_half_of_the_range_as_bounds() {
    assert_eq!(
        glyph_bounds(false, text_bounds(1, 2, 3, 4), SCREEN),
        bounds(
            (i32::MIN / 2, i32::MAX / 2),
            (i32::MIN / 2, i32::MAX / 2)
        )
    );
}

#[test]
fn glyph_inside_the_bounds_is_drawn_whole() {
    let glyph = rect(10, 20, 8, 9, 100, 200);
    assert_eq!(
        clip_glyph(glyph, bounds((0, 100), (0, 50))),
        Clip::Visible(glyph)
    );
    assert_eq!(
        clip_glyph(glyph, bounds((10, 18), (20, 29))),
        Clip::Visible(glyph)
    );
}

#[test]
fn glyph_is_clipped_on_every_side() {
    let glyph = rect(10, 20, 8, 9, 100, 200);
    assert_eq!(
        clip_glyph(glyph, bounds((12, 100), (0, 50))),
        Clip::Visible(rect(12, 20, 6, 9, 102, 200))
    );
    assert_eq!(
        clip_glyph(glyph, bounds((0, 15), (0, 50))),
        Clip::Visible(rect(10, 20, 5, 9, 100, 200))
    );
    assert_eq!(
        clip_glyph(glyph, bounds((0, 100), (23, 50))),
        Clip::Visible(rect(10, 23, 8, 6, 100, 203))
    );
    assert_eq!(
        clip_glyph(glyph, bounds((0, 100), (0, 25))),
        Clip::Visible(rect(10, 20, 8, 5, 100, 200))
    );
    assert_eq!(
        clip_glyph(glyph, bounds((12, 15), (23, 25))),
        Clip::Visible(rect(12, 23, 3, 2, 102, 203))
    );
}

#[test]
fn glyph_outside_the_bounds_is_hidden() {
    let glyph = rect(10, 20, 8, 9, 100, 200);
    assert_eq!(clip_glyph(glyph, bounds((0, 9), (0, 50))), Clip::Hidden);
    assert_eq!(clip_glyph(glyph, bounds((19, 100), (0, 50))), Clip::Hidden);
    assert_eq!(clip_glyph(glyph, bounds((0, 100), (0, 19))), Clip::Hidden);
    assert_eq!(clip_glyph(glyph, bounds((0, 100), (30, 50))), Clip::Hidden);
}

#[test]
fn glyph_that_only_touches_the_bounds_is_drawn_without_pixels() {
    let glyph = rect(10, 20, 8, 9, 100, 200);
    assert_eq!(
        clip_glyph(glyph, bounds((0, 10), (0, 50))),
        Clip::Visible(rect(10, 20, 0, 9, 100, 200))
    );
    assert_eq!(
        clip_glyph(glyph, bounds((18, 100), (0, 50))),
        Clip::Visible(rect(18, 20, 0, 9, 108, 200))
    );
}

#[test]
fn reversed_bounds_show_no_pixels() {
    assert_eq!(
        clip_glyph(rect(-10, 0, 20, 5, 7, 7), bounds((0, -5), (0, 50))),
        Clip::Visible(rect(0, 0, 0, 5, 17, 7))
    );
    assert_eq!(
        clip_glyph(rect(0, -10, 5, 20, 7, 7), bounds((0, 50), (0, -5))),
        Clip::Visible(rect(0, 0, 5, 0, 7, 17))
    );
}

#[test]
fn area_behind_the_right_edge_of_the_screen_shows_no_pixels() {
    let screen = Resolution {
        width: 100,
        height: 100,
    };
    let bounds = glyph_bounds(true, text_bounds(150, 0, 300, 100), screen);
    assert_eq!(
        clip_glyph(rect(90, 0, 70, 5, 7, 7), bounds),
        Clip::Visible(rect(150, 0, 0, 5, 67, 7))
    );
}

#[test]
fn screen_without_pixels_shows_none() {
    let screen = Resolution {
        width: 0,
        height: 0,
    };
    let bounds = glyph_bounds(true, text_bounds(10, 0, 300, 100), screen);
    assert_eq!(
        clip_glyph(rect(-5, 0, 25, 5, 7, 7), bounds),
        Clip::Visible(rect(10, 0, 0, 0, 22, 7))
    );
}

#[test]
fn coordinates_out_of_range_are_reported() {
    let all = bounds((0, 100), (0, 50));
    let right = rect(i32::MAX - 3, 0, 4, 4, 0, 0);
    assert_eq!(clip_glyph(right, all), Clip::Overflow);
    let bottom = rect(0, i32::MAX - 3, 4, 4, 0, 0);
    assert_eq!(clip_glyph(bottom, all), Clip::Overflow);
    // A glyph that is hidden on the x axis is not looked at on the y axis.
    let hidden = rect(200, i32::MAX - 3, 4, 4, 0, 0);
    assert_eq!(clip_glyph(hidden, all), Clip::Hidden);
    let texel_x = rect(-2, 0, 4, 4, u16::MAX - 1, 0);
    assert_eq!(clip_glyph(texel_x, all), Clip::Overflow);
    let texel_y = rect(0, -2, 4, 4, 0, u16::MAX - 1);
    assert_eq!(clip_glyph(texel_y, all), Clip::Overflow);
    let last_texel = rect(-2, -2, 4, 4, u16::MAX - 2, u16::MAX - 2);
    assert_eq!(
        clip_glyph(last_texel, all),
        Clip::Visible(rect(0, 0, 2, 2, u16::MAX, u16::MAX))
    );
}

#[test]
fn lines_are_visible_where_they_meet_the_area() {
    let area = text_bounds(0, 10, 100, 40);
    assert_eq!(
        is_run_visible(true, area, 0, 10),
        RunVisibility::Visible
    );
    assert_eq!(is_run_visible(true, area, 0, 9), RunVisibility::Hidden);
    assert_eq!(
        is_run_visible(true, area, 40, 10),
        RunVisibility::Visible
    );
    assert_eq!(is_run_visible(true, area, 41, 10), RunVisibility::Hidden);
    assert_eq!(
        is_run_visible(true, area, i32::MAX, 1),
        RunVisibility::Overflow
    );
    assert_eq!(
        is_run_visible(false, area, i32::MAX, 1),
        RunVisibility::Visible
    );
}

fn bits(matrix: glam::Mat4) -> [[u32; 4]; 4] {
    matrix
        .to_cols_array_2d()
        .map(|column| column.map(f32::to_bits))
}

#[test]
fn identity_is_told_apart_as_floats_tell_it() {
    let mut negative_zero = glam::Mat4::IDENTITY;
    negative_zero.y_axis.x = -0.0;
    let mut nan = glam::Mat4::IDENTITY;
    nan.y_axis.x = f32::NAN;
    let matrices = [
        glam::Mat4::IDENTITY,
        glam::Mat4::ZERO,
        negative_zero,
        nan,
        glam::Mat4::from_scale(glam::Vec3::new(1.0, 1.0, 2.0)),
        glam::Mat4::from_translation(glam::Vec3::new(0.0, 0.0, 1.0)),
        glam::Mat4::from_rotation_z(1.0),
    ];
    for matrix in matrices {
        for zoom in [1.0f32, 0.0, -1.0, 1.5, f32::NAN] {
            assert_eq!(
                is_identity(&bits(matrix), zoom.to_bits()),
                matrix == glam::Mat4::IDENTITY && zoom == 1.0
            );
        }
    }
    assert!(is_identity(&bits(negative_zero), 1.0f32.to_bits()));
    assert!(!is_identity(&bits(nan), 1.0f32.to_bits()));
}
