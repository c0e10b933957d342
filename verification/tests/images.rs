use glyphon::image::{
    ContentType, GetGlyphImageResult, RasterizeCustomGlyphRequest, RasterizedCustomGlyph,
    SubpixelBin, SwashContent, SwashImage,
};

fn image(content: SwashContent, width: u32, height: u32, data: Vec<u8>) -> SwashImage {
    SwashImage {
        content,
        left: -3,
        top: 7,
        width,
        height,
        data,
    }
}

#[test]
fn masks_and_colours_are_kept() {
    let mask = GetGlyphImageResult::from_text(image(SwashContent::Mask, 2, 1, vec![9, 8]));
    assert_eq!(mask.content_type, ContentType::Mask);
    assert_eq!((mask.left, mask.top), (-3, 7));
    assert_eq!((mask.width, mask.height), (2, 1));
    assert_eq!(mask.data, vec![9, 8]);
    let color = GetGlyphImageResult::from_text(image(SwashContent::Color, 1, 1, vec![1, 2, 3, 4]));
    assert_eq!(color.content_type, ContentType::Color);
    assert_eq!(color.data, vec![1, 2, 3, 4]);
}

#[test]
fn subpixel_coverages_become_the_greatest_of_each_pixel() {
    let data = vec![1, 5, 3, 4, 9, 7, 7, 9, 0, 0, 0, 0, 2, 1, 2, 1];
    let alpha = GetGlyphImageResult::from_text(image(SwashContent::SubpixelMask, 2, 2, data));
    assert_eq!(alpha.content_type, ContentType::Mask);
    assert_eq!(alpha.data, vec![5, 9, 0, 2]);
    let data = vec![1, 2, 3, 6, 5, 4];
    let alpha = GetGlyphImageResult::from_text(image(SwashContent::SubpixelMask, 2, 1, data));
    assert_eq!(alpha.data, vec![3, 6]);
}

#[test]
fn subpixel_coverages_of_another_shape_are_kept() {
    for (width, height, len) in [(2, 2, 4), (2, 2, 7), (2, 2, 3), (0, 5, 6), (5, 0, 6), (3, 1, 0)] {
        let data: Vec<u8> = (0..len).collect();
        let kept =
            GetGlyphImageResult::from_text(image(SwashContent::SubpixelMask, width, height, data.clone()));
        assert_eq!(kept.content_type, ContentType::Mask);
        assert_eq!(kept.data, data);
    }
    let data: Vec<u8> = vec![1, 2];
    let huge = image(SwashContent::SubpixelMask, u32::MAX, u32::MAX, data.clone());
    assert_eq!(GetGlyphImageResult::from_text(huge).data, data);
}

#[test]
fn placements_are_cut_to_sixteen_bits() {
    let cut = GetGlyphImageResult::from_text(SwashImage {
        content: SwashContent::Mask,
        left: 40000,
        top: -40000,
        width: 65536 + 5,
        height: 65536,
        data: Vec::new(),
    });
    assert_eq!(cut.left, 40000i32 as i16);
    assert_eq!(cut.left, -25536);
    assert_eq!(cut.top, 25536);
    assert_eq!(cut.width, 5);
    assert_eq!(cut.height, 0);
}

#[test]
fn custom_images_have_the_size_of_their_request() {
    let request = RasterizeCustomGlyphRequest {
        id: 3,
        width: 4,
        height: 2,
        x_bin: SubpixelBin::One,
        y_bin: SubpixelBin::Two,
    };
    let output = RasterizedCustomGlyph {
        content_type: ContentType::Color,
        data: vec![7; 32],
    };
    let result = GetGlyphImageResult::from_custom(request, output);
    assert_eq!(result.content_type, ContentType::Color);
    assert_eq!((result.left, result.top), (0, 0));
    assert_eq!((result.width, result.height), (4, 2));
    assert_eq!(result.data, vec![7; 32]);
}

#[test]
fn content_types_have_numbers() {
    assert_eq!(ContentType::Color.code(), 0);
    assert_eq!(ContentType::Mask.code(), 1);
}
