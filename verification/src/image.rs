//! Glyph images: what the rasterizers hand over, and the image that is put into the atlas.
use vstd::prelude::*;
use crate::geometry;

verus! {

/// The kind of texels that a glyph image consists of, which is also the atlas that holds it.
#[derive(Clone, Copy, Debug, PartialEq, Eq, Structural)]
pub enum ContentType {
    /// Each texel is a colour.
    Color,
    /// Each texel is a coverage.
    Mask,
}

impl ContentType {
    /// The number by which the shader tells the kinds of texels apart.
    pub open spec fn spec_code(self) -> u16 {
        match self {
            ContentType::Color => 0,
            ContentType::Mask => 1,
        }
    }

    /// The number by which the shader tells the kinds of texels apart.
    pub fn code(self) -> (code: u16)
        ensures
            code == self.spec_code(),
    {
        match self {
            ContentType::Color => 0,
            ContentType::Mask => 1,
        }
    }
}

/// The quarter of a pixel by which a glyph is shifted when it is rasterized.
#[derive(Clone, Copy, Debug, PartialEq, Eq, Structural)]
pub enum SubpixelBin {
    Zero,
    One,
    Two,
    Three,
}

/// The kind of image that the font rasterizer made.
#[derive(Clone, Copy, Debug, PartialEq, Eq, Structural)]
pub enum SwashContent {
    /// One coverage per pixel.
    Mask,
    /// Several coverages per pixel.
    SubpixelMask,
    /// One colour per pixel.
    Color,
}

/// An image that the font rasterizer made, with its offset from the glyph's origin.
pub struct SwashImage {
    pub content: SwashContent,
    pub left: i32,
    pub top: i32,
    pub width: u32,
    pub height: u32,
    pub data: Vec<u8>,
}

/// The image of a custom glyph that is wanted.
#[derive(Clone, Copy, Debug, PartialEq, Eq, Structural)]
pub struct RasterizeCustomGlyphRequest {
    pub id: u16,
    pub width: u16,
    pub height: u16,
    pub x_bin: SubpixelBin,
    pub y_bin: SubpixelBin,
}

/// The image that was made for a [`RasterizeCustomGlyphRequest`].
pub struct RasterizedCustomGlyph {
    pub content_type: ContentType,
    pub data: Vec<u8>,
}

/// A glyph image that is ready for the atlas.
pub struct GetGlyphImageResult {
    pub content_type: ContentType,
    pub top: i16,
    pub left: i16,
    pub width: u16,
    pub height: u16,
    pub data: Vec<u8>,
}

/// The number that an `i16` with the low 16 bits of `value` holds.
pub open spec fn low_16_bits_signed(value: int) -> i16 {
    ((value + 0x8000) % 0x1_0000 - 0x8000) as i16
}

fn to_i16(value: i32) -> (low: i16)
    ensures
        low == low_16_bits_signed(value as int),
{
    let low: i16 = #[verifier::truncate] (value as i16);
    proof {
        assert(low == (value + 0x8000) % 0x1_0000 - 0x8000) by (bit_vector)
            requires
                low == value as i16,
        ;
    }
    low
}

fn low_u16(value: u32) -> (low: u16)
    ensures
        low == geometry::low_16_bits(value as int),
{
    let low: u16 = #[verifier::truncate] (value as u16);
    proof {
        assert(low == value % 0x1_0000) by (bit_vector)
            requires
                low == value as u16,
        ;
    }
    low
}

/// The largest of some coverages, 0 for none.
pub open spec fn greatest(coverages: Seq<u8>) -> u8
    decreases coverages.len(),
{
    if coverages.len() == 0 {
        0
    } else {
        let before = greatest(coverages.drop_last());
        if before >= coverages.last() {
            before
        } else {
            coverages.last()
        }
    }
}

/// The number of pixels of an image, at most `usize::MAX`.
pub open spec fn pixel_count(width: u32, height: u32) -> int {
    geometry::min_of(width * height, usize::MAX as int)
}

/// Whether `data` holds the same number of coverages, more than one, for each of the pixels.
pub open spec fn has_channels(data: Seq<u8>, pixels: int) -> bool {
    pixels > 0 && data.len() % (pixels as nat) == 0 && data.len() / (pixels as nat) > 1
}

/// One coverage per pixel: the greatest of the pixel's coverages, where `data` holds the same
/// number of them, more than one, for each pixel, and `data` as it is otherwise.
pub open spec fn alpha_coverage(data: Seq<u8>, width: u32, height: u32) -> Seq<u8> {
    let pixels = pixel_count(width, height);
    if has_channels(data, pixels) {
        let channels = data.len() as int / pixels;
        Seq::new(
            pixels as nat,
            |i: int| greatest(data.subrange(i * channels, (i + 1) * channels)),
        )
    } else {
        data
    }
}

/// Turns the coverages of subpixels into one coverage per pixel.
fn to_alpha_coverage(data: Vec<u8>, width: u32, height: u32) -> (alpha: Vec<u8>)
    ensures
        alpha@ == alpha_coverage(data@, width, height),
{
    let pixels: usize = match (width as usize).checked_mul(height as usize) {
        Some(pixels) => pixels,
        None => usize::MAX,
    };
    if pixels == 0 || data.len() < pixels || data.len() % pixels != 0 {
        proof {
            if pixels > 0 && data.len() < pixels {
                assert(data.len() as int / pixels as int == 0) by (nonlinear_arith)
                    requires
                        0 <= data.len() < pixels,
                ;
            }
        }
        return data;
    }
    let channels: usize = data.len() / pixels;
    if channels <= 1 {
        return data;
    }
    proof {
        assert(data.len() == pixels * channels) by (nonlinear_arith)
            requires
                pixels > 0,
                data.len() as int % pixels as int == 0,
                channels == data.len() as int / pixels as int,
        ;
        assert(0 * channels == 0) by (nonlinear_arith);
    }
    let mut alpha: Vec<u8> = Vec::with_capacity(pixels);
    let mut start: usize = 0;
    while alpha.len() < pixels
        invariant
            alpha.len() <= pixels,
            start == alpha.len() * channels,
            data.len() == pixels * channels,
            channels > 1,
            forall|i: int|
                0 <= i < alpha.len() ==> #[trigger] alpha@[i] == greatest(
                    data@.subrange(i * channels, (i + 1) * channels),
                ),
        decreases pixels - alpha.len(),
    {
        let ghost done = alpha.len() as int;
        proof {
            assert((done + 1) * channels <= data.len() && start + channels == (done + 1)
                * channels) by (nonlinear_arith)
                requires
                    0 <= done < pixels,
                    channels > 1,
                    start == done * channels,
                    data.len() == pixels * channels,
            ;
        }
        let mut coverage: u8 = 0;
        let mut channel: usize = 0;
        while channel < channels
            invariant
                channel <= channels,
                start + channels <= data.len(),
                coverage == greatest(data@.subrange(start as int, start + channel)),
            decreases channels - channel,
        {
            proof {
                let longer = data@.subrange(start as int, start + channel + 1);
                assert(longer.drop_last() == data@.subrange(start as int, start + channel));
            }
            let next: u8 = data[start + channel];
            if coverage < next {
                coverage = next;
            }
            channel = channel + 1;
        }
        alpha.push(coverage);
        start = start + channels;
    }
    alpha
}

impl GetGlyphImageResult {
    /// Whether this is the image that is put into the atlas for an image of the font rasterizer.
    pub open spec fn is_of_text(self, image: SwashImage) -> bool {
        &&& self.content_type == (if image.content is Color {
            ContentType::Color
        } else {
            ContentType::Mask
        })
        &&& self.top == low_16_bits_signed(image.top as int)
        &&& self.left == low_16_bits_signed(image.left as int)
        &&& self.width == geometry::low_16_bits(image.width as int)
        &&& self.height == geometry::low_16_bits(image.height as int)
        &&& self.data@ == (if image.content is SubpixelMask {
            alpha_coverage(image.data@, image.width, image.height)
        } else {
            image.data@
        })
    }

    /// Whether this is the image that is put into the atlas for the image of a custom glyph.
    pub open spec fn is_of_custom(
        self,
        request: RasterizeCustomGlyphRequest,
        output: RasterizedCustomGlyph,
    ) -> bool {
        &&& self.content_type == output.content_type
        &&& self.top == 0
        &&& self.left == 0
        &&& self.width == request.width
        &&& self.height == request.height
        &&& self.data == output.data
    }

    /// The image that is put into the atlas for an image of the font rasterizer.
    pub fn from_text(image: SwashImage) -> (result: GetGlyphImageResult)
        ensures
            result.is_of_text(image),
    {
        let width: u32 = image.width;
        let height: u32 = image.height;
        let content_type = match image.content {
            SwashContent::Color => ContentType::Color,
            SwashContent::Mask => ContentType::Mask,
            SwashContent::SubpixelMask => ContentType::Mask,
        };
        let top: i16 = to_i16(image.top);
        let left: i16 = to_i16(image.left);
        let data: Vec<u8> = match image.content {
            SwashContent::SubpixelMask => to_alpha_coverage(image.data, width, height),
            _ => image.data,
        };
        GetGlyphImageResult {
            content_type,
            top,
            left,
            width: low_u16(width),
            height: low_u16(height),
            data,
        }
    }

    /// The image that is put into the atlas for the image of a custom glyph.
    pub fn from_custom(request: RasterizeCustomGlyphRequest, output: RasterizedCustomGlyph) -> (result:
        GetGlyphImageResult)
        ensures
            result.is_of_custom(request, output),
    {
        GetGlyphImageResult {
            content_type: output.content_type,
            top: 0,
            left: 0,
            width: request.width,
            height: request.height,
            data: output.data,
        }
    }
}

/// The greatest of some coverages is one of them, and none of them is greater.
pub proof fn greatest_is_maximum(coverages: Seq<u8>)
    requires
        coverages.len() > 0,
    ensures
        coverages.contains(greatest(coverages)),
        forall|i: int| 0 <= i < coverages.len() ==> #[trigger] coverages[i] <= greatest(coverages),
    decreases coverages.len(),
{
    let init = coverages.drop_last();
    assert(coverages[coverages.len() - 1] == coverages.last());
    if init.len() > 0 {
        greatest_is_maximum(init);
        let at = choose|i: int| 0 <= i < init.len() && init[i] == greatest(init);
        assert(coverages[at] == greatest(init));
        assert forall|i: int| 0 <= i < coverages.len() implies #[trigger] coverages[i] <= greatest(
            coverages,
        ) by {
            if i < init.len() {
                assert(init[i] == coverages[i]);
            }
        }
    }
}

/// An image with several coverages per pixel is reduced to one coverage per pixel.
pub proof fn alpha_coverage_has_one_byte_per_pixel(data: Seq<u8>, width: u32, height: u32)
    requires
        has_channels(data, pixel_count(width, height)),
    ensures
        alpha_coverage(data, width, height).len() == pixel_count(width, height),
        forall|i: int, j: int|
            #![trigger alpha_coverage(data, width, height)[i], data[j]]
            0 <= i < pixel_count(width, height) && i * (data.len() as int / pixel_count(
                width,
                height,
            )) <= j < (i + 1) * (data.len() as int / pixel_count(width, height)) ==> data[j]
                <= alpha_coverage(data, width, height)[i],
{
    let pixels = pixel_count(width, height);
    let channels = data.len() as int / pixels;
    assert(data.len() == pixels * channels) by (nonlinear_arith)
        requires
            pixels > 0,
            data.len() as int % pixels == 0,
            channels == data.len() as int / pixels,
    ;
    assert forall|i: int, j: int|
        #![trigger alpha_coverage(data, width, height)[i], data[j]]
        0 <= i < pixels && i * channels <= j < (i + 1) * channels implies data[j]
        <= alpha_coverage(data, width, height)[i] by {
        assert(0 <= i * channels && (i + 1) * channels <= data.len()) by (nonlinear_arith)
            requires
                0 <= i < pixels,
                channels > 1,
                data.len() == pixels * channels,
        ;
        let group = data.subrange(i * channels, (i + 1) * channels);
        greatest_is_maximum(group);
        assert(group[j - i * channels] == data[j]);
    }
}

/// The shader tells colours and coverages apart by the numbers 0 and 1.
pub proof fn kinds_of_texels_have_numbers(content_type: ContentType)
    ensures
        content_type is Color ==> content_type.spec_code() == 0,
        content_type is Mask ==> content_type.spec_code() == 1,
{
}

/// The low 16 bits of a number differ from it by a multiple of their range, and a number in that
/// range, from -32768 to 32767, is its own low bits.
pub proof fn low_bits_keep_small_signed_numbers(value: int)
    ensures
        (value - low_16_bits_signed(value)) % 65536 == 0,
        -32768 <= value <= 32767 ==> low_16_bits_signed(value) == value,
{
}

/// Where an image holds two or more coverages for each of its pixels, one is left per pixel: one of
/// the pixel's own coverages, and none of them is greater.
pub proof fn pixel_has_its_greatest_coverage(
    data: Seq<u8>,
    width: u32,
    height: u32,
    channels: int,
    pixel: int,
)
    requires
        width * height <= usize::MAX,
        channels >= 2,
        data.len() == (width * height) * channels,
        0 <= pixel < width * height,
    ensures
        alpha_coverage(data, width, height).len() == width * height,
        exists|at: int|
            pixel * channels <= at < (pixel + 1) * channels && #[trigger] data[at]
                == alpha_coverage(data, width, height)[pixel],
        forall|at: int|
            pixel * channels <= at < (pixel + 1) * channels ==> #[trigger] data[at]
                <= alpha_coverage(data, width, height)[pixel],
{
    let pixels = width * height;
    assert(data.len() as int % pixels == 0 && data.len() as int / pixels == channels && 0 <= pixel
        * channels && (pixel + 1) * channels <= data.len() && (pixel + 1) * channels == pixel
        * channels + channels) by (nonlinear_arith)
        requires
            data.len() == pixels * channels,
            0 <= pixel < pixels,
            channels >= 2,
    ;
    let group = data.subrange(pixel * channels, (pixel + 1) * channels);
    greatest_is_maximum(group);
    let at = choose|i: int| 0 <= i < group.len() && group[i] == greatest(group);
    assert(data[pixel * channels + at] == greatest(group));
    assert forall|at: int| pixel * channels <= at < (pixel + 1) * channels implies #[trigger] data[at]
        <= alpha_coverage(data, width, height)[pixel] by {
        assert(group[at - pixel * channels] == data[at]);
    }
}

/// An image that does not hold the same number of coverages, two or more, for each of its pixels is
/// left as it is.
pub proof fn other_coverages_are_left(data: Seq<u8>, width: u32, height: u32)
    requires
        data.len() <= usize::MAX,
        forall|channels: int|
            channels >= 2 && width * height > 0 ==> data.len() != #[trigger] ((width * height)
                * channels),
    ensures
        alpha_coverage(data, width, height) == data,
{
    let all = width * height;
    assert(all >= 0) by (nonlinear_arith)
        requires
            all == width * height,
    ;
    let pixels = pixel_count(width, height);
    if has_channels(data, pixels) {
        let channels = data.len() as int / pixels;
        assert(data.len() == pixels * channels) by (nonlinear_arith)
            requires
                pixels > 0,
                data.len() as int % pixels == 0,
                channels == data.len() as int / pixels,
        ;
        if all <= usize::MAX {
            assert(data.len() != (width * height) * channels);
        } else {
            assert(pixels * channels > pixels) by (nonlinear_arith)
                requires
                    pixels > 0,
                    channels > 1,
            ;
        }
    }
}

/// The image that is put into the atlas for one of the font rasterizer is of the same kind and size
/// and has the same offset, as far as they fit, and the same bytes unless it holds coverages of
/// subpixels.
pub proof fn text_image_is_kept(result: GetGlyphImageResult, image: SwashImage)
    requires
        result.is_of_text(image),
    ensures
        result.content_type is Color <==> image.content is Color,
        image.width <= 65535 ==> result.width == image.width,
        image.height <= 65535 ==> result.height == image.height,
        -32768 <= image.left <= 32767 ==> result.left == image.left,
        -32768 <= image.top <= 32767 ==> result.top == image.top,
        !(image.content is SubpixelMask) ==> result.data@ == image.data@,
        image.content is SubpixelMask ==> result.data@ == alpha_coverage(
            image.data@,
            image.width,
            image.height,
        ),
        (image.width - result.width) % 65536 == 0 && (image.height - result.height) % 65536 == 0,
        (image.left - result.left) % 65536 == 0 && (image.top - result.top) % 65536 == 0,
{
}

/// The image that is put into the atlas for that of a custom glyph is of the size that was asked
/// for, has no offset, and is otherwise the one that was handed over.
pub proof fn custom_image_is_kept(
    result: GetGlyphImageResult,
    request: RasterizeCustomGlyphRequest,
    output: RasterizedCustomGlyph,
)
    requires
        result.is_of_custom(request, output),
    ensures
        result.content_type == output.content_type,
        result.width == request.width && result.height == request.height,
        result.left == 0 && result.top == 0,
        result.data@ == output.data@,
{
}

} // verus!
