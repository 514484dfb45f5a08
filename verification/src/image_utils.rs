//! Gray images: scaling, row normalization, cropping, and coordinates in rotated images.

use vstd::prelude::*;

use crate::astro_util::ImageCoord;

verus! {

/// An image of 8-bit gray pixels, row by row.
#[derive(Debug)]
pub struct GrayImage {
    /// Pixels in a row.
    pub width: u32,
    /// Rows.
    pub height: u32,
    /// The pixels, the top row first.
    pub pixels: Vec<u8>,
}

impl GrayImage {
    /// There are as many pixels as rows and columns ask for.
    pub open spec fn wf(&self) -> bool {
        self.pixels@.len() == self.width * self.height
    }

    /// The pixel at a column and a row.
    pub open spec fn at(&self, x: int, y: int) -> u8 {
        self.pixels@[y * self.width + x]
    }
}

/// A column and a row within an image stand for one of its pixels, and two different pairs for
/// two different ones.
pub proof fn lemma_pixel_index(width: int, height: int, x: int, y: int)
    requires
        0 <= x < width,
        0 <= y < height,
    ensures
        0 <= y * width,
        y * width + x < width * height,
        (y * width + x) / width == y,
        (y * width + x) % width == x,
{
    assert(0 <= y * width && y * width + width <= width * height) by (nonlinear_arith)
        requires
            0 <= y < height,
            0 < width,
    ;
    vstd::arithmetic::div_mod::lemma_fundamental_div_mod_converse(y * width + x, width, y, x);
}

/// Whether a function is defined for all arguments and always gives the same result for them.
pub open spec fn is_curve<F: Fn(u8, u8) -> u8>(curve: F) -> bool {
    &&& forall|args: (u8, u8)| #[trigger] call_requires(curve, args)
    &&& forall|args: (u8, u8), a: u8, b: u8|
        #[trigger] call_ensures(curve, args, a) && #[trigger] call_ensures(curve, args, b) ==> a
            == b
}

/// What a brightness curve makes of a pixel that lies `above` the darkest by that much, where
/// the brightest lies above it by `range`.
pub open spec fn curved<F: Fn(u8, u8) -> u8>(curve: F, above: u8, range: u8) -> u8 {
    choose|r: u8| call_ensures(curve, (above, range), r)
}

/// A pixel value after scaling: black below `min`, white from `peak` on, and along the curve
/// between them.
pub open spec fn scaled_value<F: Fn(u8, u8) -> u8>(curve: F, min: u8, peak: u8, value: u8) -> u8 {
    let top = if peak < min { min } else { peak };
    if value < min {
        0
    } else if value >= top {
        255
    } else {
        curved(curve, (value - min) as u8, (top - min) as u8)
    }
}

/// Computes the scaled value of each of the 256 pixel values.
pub fn compute_lut<F: Fn(u8, u8) -> u8>(
    min_pixel_value: u8,
    peak_pixel_value: u8,
    curve: &F,
) -> (lut: Vec<u8>)
    requires
        is_curve(*curve),
    ensures
        lut@.len() == 256,
        forall|n: u8| #[trigger]
            lut@[n as int] == scaled_value(*curve, min_pixel_value, peak_pixel_value, n),
{
    let top: u8 = if peak_pixel_value < min_pixel_value {
        min_pixel_value
    } else {
        peak_pixel_value
    };
    let mut lut: Vec<u8> = Vec::new();
    let mut n: u16 = 0;
    while n < 256
        invariant
            n <= 256,
            is_curve(*curve),
            top == (if peak_pixel_value < min_pixel_value {
                min_pixel_value
            } else {
                peak_pixel_value
            }),
            lut@.len() == n,
            forall|k: int|
                0 <= k < n ==> #[trigger] lut@[k] == scaled_value(
                    *curve,
                    min_pixel_value,
                    peak_pixel_value,
                    k as u8,
                ),
        decreases 256 - n,
    {
        let value: u8 = n as u8;
        let scaled: u8 = if value < min_pixel_value {
            0
        } else if value >= top {
            255
        } else {
            curve(value - min_pixel_value, top - min_pixel_value)
        };
        lut.push(scaled);
        n = n + 1;
    }
    lut
}

/// Copies an image with its pixels scaled from `min_pixel_value..peak_pixel_value` to the full
/// range along a curve.
pub fn scale_image<F: Fn(u8, u8) -> u8>(
    image: &GrayImage,
    min_pixel_value: u8,
    peak_pixel_value: u8,
    curve: &F,
) -> (scaled: GrayImage)
    requires
        is_curve(*curve),
        image.wf(),
    ensures
        scaled.wf(),
        scaled.width == image.width,
        scaled.height == image.height,
        forall|i: int|
            0 <= i < image.pixels@.len() ==> #[trigger] scaled.pixels@[i] == scaled_value(
                *curve,
                min_pixel_value,
                peak_pixel_value,
                image.pixels@[i],
            ),
{
    let lut: Vec<u8> = compute_lut(min_pixel_value, peak_pixel_value, curve);
    let mut pixels: Vec<u8> = Vec::new();
    let mut i: usize = 0;
    while i < image.pixels.len()
        invariant
            i <= image.pixels@.len(),
            lut@.len() == 256,
            forall|n: u8| #[trigger]
                lut@[n as int] == scaled_value(*curve, min_pixel_value, peak_pixel_value, n),
            pixels@.len() == i,
            forall|k: int|
                0 <= k < i ==> #[trigger] pixels@[k] == scaled_value(
                    *curve,
                    min_pixel_value,
                    peak_pixel_value,
                    image.pixels@[k],
                ),
        decreases image.pixels@.len() - i,
    {
        let value: u8 = image.pixels[i];
        pixels.push(lut[value as usize]);
        i = i + 1;
    }
    GrayImage { width: image.width, height: image.height, pixels }
}

/// Scales the pixels of an image in place.
pub fn scale_image_mut<F: Fn(u8, u8) -> u8>(
    image: &mut GrayImage,
    min_pixel_value: u8,
    peak_pixel_value: u8,
    curve: &F,
)
    requires
        is_curve(*curve),
        old(image).wf(),
    ensures
        final(image).wf(),
        final(image).width == old(image).width,
        final(image).height == old(image).height,
        forall|i: int|
            0 <= i < old(image).pixels@.len() ==> #[trigger] final(image).pixels@[i]
                == scaled_value(
                *curve,
                min_pixel_value,
                peak_pixel_value,
                old(image).pixels@[i],
            ),
{
    let scaled: GrayImage = scale_image(image, min_pixel_value, peak_pixel_value, curve);
    image.pixels = scaled.pixels;
}

/// The smallest of the first `count` values from `start` on, or 255 where there is none.
pub open spec fn smallest(values: Seq<u8>, start: int, count: int) -> u8
    decreases count,
{
    if count <= 0 {
        255
    } else {
        let before = smallest(values, start, count - 1);
        if values[start + count - 1] < before {
            values[start + count - 1]
        } else {
            before
        }
    }
}

/// The smallest of some values is none that exceeds one of them, and is one of them.
proof fn lemma_smallest(values: Seq<u8>, start: int, count: int)
    ensures
        forall|k: int|
            start <= k < start + count ==> smallest(values, start, count) <= #[trigger] values[k],
        count > 0 ==> exists|k: int|
            start <= k < start + count && #[trigger] values[k] == smallest(values, start, count),
    decreases count,
{
    if count > 0 {
        lemma_smallest(values, start, count - 1);
        let before = smallest(values, start, count - 1);
        let last = values[start + count - 1];
        if count > 1 && last >= before {
            let k = choose|k: int|
                start <= k < start + count - 1 && #[trigger] values[k] == before;
            assert(values[k] == smallest(values, start, count));
        } else {
            assert(last == smallest(values, start, count));
        }
    }
}

/// The darkest pixel of a row.
pub open spec fn row_minimum(image: GrayImage, y: int) -> u8 {
    smallest(image.pixels@, y * image.width, image.width as int)
}

/// Moves each row down so that its darkest pixel is black. Some cameras give rows a level of
/// their own by noise; this makes the rows similar again.
pub fn normalize_rows_mut(image: &mut GrayImage)
    requires
        old(image).wf(),
    ensures
        final(image).wf(),
        final(image).width == old(image).width,
        final(image).height == old(image).height,
        forall|x: int, y: int|
            0 <= x < old(image).width && 0 <= y < old(image).height ==> #[trigger] final(image).at(
                x,
                y,
            ) == old(image).at(x, y) - row_minimum(*old(image), y),
{
    let ghost before = image.pixels@;
    let width: usize = image.width as usize;
    let total: usize = image.pixels.len();
    let mut y: u32 = 0;
    let mut start: usize = 0;
    assert(0 * image.width == 0) by (nonlinear_arith);
    while y < image.height
        invariant
            y <= image.height,
            width == image.width,
            image.width == old(image).width,
            image.height == old(image).height,
            old(image).wf(),
            before == old(image).pixels@,
            image.pixels@.len() == before.len(),
            before.len() == total,
            start == y * image.width,
            forall|i: int| start <= i < before.len() ==> image.pixels@[i] == before[i],
            forall|x: int, r: int|
                0 <= x < image.width && 0 <= r < y ==> #[trigger] image.at(x, r) == old(image).at(
                    x,
                    r,
                ) - row_minimum(*old(image), r),
        decreases image.height - y,
    {
        let ghost row = y as int;
        proof {
            if image.width > 0 {
                lemma_pixel_index(image.width as int, image.height as int, image.width - 1, row);
            }
            assert(start + width <= image.pixels@.len()) by (nonlinear_arith)
                requires
                    start == y * width,
                    y < image.height,
                    image.pixels@.len() == width * image.height,
            ;
        }
        let mut min_value: u8 = 255;
        let mut x: usize = 0;
        while x < width
            invariant
                x <= width,
                start + width <= image.pixels@.len(),
                image.pixels@.len() == before.len(),
                before.len() == total,
                forall|i: int| start <= i < before.len() ==> image.pixels@[i] == before[i],
                min_value == smallest(before, start as int, x as int),
            decreases width - x,
        {
            let value: u8 = image.pixels[start + x];
            if value < min_value {
                min_value = value;
            }
            x = x + 1;
        }
        proof {
            lemma_smallest(before, start as int, width as int);
        }
        let ghost so_far = *image;
        let mut x: usize = 0;
        while x < width
            invariant
                x <= width,
                start + width <= image.pixels@.len(),
                image.pixels@.len() == before.len(),
                before.len() == total,
                so_far.pixels@.len() == before.len(),
                image.width == old(image).width,
                image.height == old(image).height,
                forall|k: int| start <= k < start + width ==> min_value <= #[trigger] before[k],
                forall|i: int| 0 <= i < start ==> image.pixels@[i] == so_far.pixels@[i],
                forall|i: int|
                    start <= i < start + x ==> image.pixels@[i] == before[i] - min_value,
                forall|i: int| start + x <= i < before.len() ==> image.pixels@[i] == before[i],
            decreases width - x,
        {
            let value: u8 = image.pixels[start + x];
            assert(value == before[start + x]);
            image.pixels.set(start + x, value - min_value);
            x = x + 1;
        }
        assert forall|c: int, r: int| 0 <= c < image.width && 0 <= r < y + 1 implies
            #[trigger] image.at(c, r) == old(image).at(c, r) - row_minimum(*old(image), r) by {
            lemma_pixel_index(image.width as int, image.height as int, c, r);
            if r < row {
                assert(r * image.width + c < start) by (nonlinear_arith)
                    requires
                        r < row,
                        0 <= c < image.width,
                        start == row * image.width,
                ;
                assert(image.at(c, r) == so_far.at(c, r));
            }
        }
        assert((y + 1) * image.width == start + width) by (nonlinear_arith)
            requires
                start == y * image.width,
                width == image.width,
        ;
        y = y + 1;
        start = start + width;
    }
}

/// After normalization every row of an image that has columns holds a black pixel.
pub proof fn law_normalized_rows_touch_black(before: GrayImage, after: GrayImage, y: int)
    requires
        before.width > 0,
        0 <= y < before.height,
        after.width == before.width,
        forall|x: int|
            0 <= x < before.width ==> #[trigger] after.at(x, y) == before.at(x, y) - row_minimum(
                before,
                y,
            ),
    ensures
        exists|x: int| 0 <= x < before.width && #[trigger] after.at(x, y) == 0,
{
    lemma_smallest(before.pixels@, y * before.width, before.width as int);
    let k = choose|k: int|
        y * before.width <= k < y * before.width + before.width && #[trigger] before.pixels@[k]
            == row_minimum(before, y);
    let x = k - y * before.width;
    assert(before.at(x, y) == before.pixels@[k]);
    assert(after.at(x, y) == 0);
}

/// The smaller of two numbers.
pub open spec fn smaller(a: int, b: int) -> int {
    if a < b {
        a
    } else {
        b
    }
}

/// Whether an image is the part of another that starts at a column and a row and has at most the
/// given size, cut off at the edges.
pub open spec fn is_crop(
    cropped: GrayImage,
    image: GrayImage,
    x: int,
    y: int,
    width: int,
    height: int,
) -> bool {
    let left = smaller(x, image.width as int);
    let top = smaller(y, image.height as int);
    &&& cropped.wf()
    &&& cropped.width == smaller(width, image.width - left)
    &&& cropped.height == smaller(height, image.height - top)
    &&& forall|c: int, r: int|
        0 <= c < cropped.width && 0 <= r < cropped.height ==> #[trigger] cropped.at(c, r)
            == image.at(left + c, top + r)
}

/// Calls `imageops::crop_imm` of the image crate and copies the part out. Claimed of it: the
/// result is the part of the image that starts at the given column and row, of at most the given
/// size, and what lies beyond an edge is left away.
#[verifier::external_body]
pub(crate) fn crop_imm(image: &GrayImage, x: u32, y: u32, width: u32, height: u32) -> (cropped:
    GrayImage)
    requires
        image.wf(),
    ensures
        is_crop(cropped, *image, x as int, y as int, width as int, height as int),
{
    let source = image::GrayImage::from_raw(image.width, image.height, image.pixels.clone());
    let cropped = image::imageops::crop_imm(&source.unwrap(), x, y, width, height).to_image();
    GrayImage { width: cropped.width(), height: cropped.height(), pixels: cropped.into_raw() }
}

/// What the image crate's JPEG encoder makes of a gray image, given by its size and its pixels, at
/// a quality.
pub uninterp spec fn jpeg_bytes(width: u32, height: u32, pixels: Seq<u8>, quality: u8) -> Seq<u8>;

/// Calls `JpegEncoder::encode_image` of the image crate on a gray image, at a quality given to
/// `JpegEncoder::new_with_quality`. Claimed of it: it refuses an image exactly where a side has no
/// pixel or more than 65535, and otherwise what it writes depends on the image and the quality
/// alone.
#[verifier::external_body]
fn encode_jpeg(image: &GrayImage, quality: u8) -> (jpeg: Option<Vec<u8>>)
    requires
        image.wf(),
    ensures
        jpeg is Some <==> can_be_jpeg(image.width, image.height),
        jpeg matches Some(bytes) ==> bytes@ == jpeg_bytes(
            image.width,
            image.height,
            image.pixels@,
            quality,
        ),
{
    let source = image::GrayImage::from_raw(image.width, image.height, image.pixels.clone());
    let mut bytes: Vec<u8> = Vec::new();
    let mut encoder = image::codecs::jpeg::JpegEncoder::new_with_quality(&mut bytes, quality);
    encoder.encode_image(&source.unwrap()).ok()?;
    Some(bytes)
}

/// Whether an image of the given size can be encoded as JPEG.
pub open spec fn can_be_jpeg(width: u32, height: u32) -> bool {
    1 <= width <= 65535 && 1 <= height <= 65535
}

/// The pixels of an image scaled from `min_pixel_value..peak_pixel_value` to the full range along
/// a curve.
pub open spec fn scaled_pixels<F: Fn(u8, u8) -> u8>(
    image: GrayImage,
    min_pixel_value: u8,
    peak_pixel_value: u8,
    curve: F,
) -> Seq<u8> {
    Seq::new(
        image.pixels@.len(),
        |i: int| scaled_value(curve, min_pixel_value, peak_pixel_value, image.pixels@[i]),
    )
}

/// Scales an image for display and encodes it as JPEG, unless it is empty or too large for that.
pub fn jpeg_encode<F: Fn(u8, u8) -> u8>(
    image: &GrayImage,
    min_pixel_value: u8,
    peak_pixel_value: u8,
    curve: &F,
    jpeg_quality: u8,
) -> (jpeg: Option<Vec<u8>>)
    requires
        is_curve(*curve),
        image.wf(),
    ensures
        jpeg is Some <==> can_be_jpeg(image.width, image.height),
        jpeg matches Some(bytes) ==> bytes@ == jpeg_bytes(
            image.width,
            image.height,
            scaled_pixels(*image, min_pixel_value, peak_pixel_value, *curve),
            jpeg_quality,
        ),
{
    let scaled: GrayImage = scale_image(image, min_pixel_value, peak_pixel_value, curve);
    assert(scaled.pixels@ =~= scaled_pixels(*image, min_pixel_value, peak_pixel_value, *curve));
    encode_jpeg(&scaled, jpeg_quality)
}

/// A rectangle in an image, in whole pixels.
#[derive(Clone, Copy, Debug, PartialEq, Eq, Structural)]
pub struct Rectangle {
    /// Left edge.
    pub origin_x: i32,
    /// Top edge.
    pub origin_y: i32,
    /// Columns.
    pub width: i32,
    /// Rows.
    pub height: i32,
}

/// One in the fixed-point form of a sine or cosine.
pub const TRIG_ONE: i64 = 1_000_000_000;

/// The largest coordinate that is dealt with, in micropixels.
pub const MAX_COORD: i64 = 1_000_000_000_000_000;

/// Whether a place lies within the range that is dealt with.
pub open spec fn in_reach(place: ImageCoord) -> bool {
    &&& -MAX_COORD <= place.x <= MAX_COORD
    &&& -MAX_COORD <= place.y <= MAX_COORD
}

/// A number of billionths, to the nearest whole; a half goes up.
pub open spec fn nearest_whole(billionths: int) -> int {
    (billionths + 500_000_000) / 1_000_000_000
}

/// A vector turned counter-clockwise, given the sine and cosine of the angle in billionths.
pub open spec fn rotated_vector(x: int, y: int, sin_term: int, cos_term: int) -> (int, int) {
    (
        nearest_whole(x * cos_term - y * sin_term),
        nearest_whole(x * sin_term + y * cos_term),
    )
}

/// Rotates an image about its center, takes the central square of the result, as high as the
/// image, and carries coordinates from one to the other.
#[derive(Clone, Copy, Debug, PartialEq, Eq, Structural)]
pub struct ImageRotator {
    /// The angle in microarcseconds, counter-clockwise.
    pub angle: i64,
    /// The sine of the angle, in billionths.
    pub sin_term: i64,
    /// The cosine of the angle, in billionths.
    pub cos_term: i64,
}

impl ImageRotator {
    /// Sine and cosine lie between -1 and 1.
    pub open spec fn wf(self) -> bool {
        &&& -TRIG_ONE <= self.sin_term <= TRIG_ONE
        &&& -TRIG_ONE <= self.cos_term <= TRIG_ONE
    }

    /// The rotator that leaves an image upright.
    pub open spec fn upright() -> ImageRotator {
        ImageRotator { angle: 0, sin_term: 0, cos_term: TRIG_ONE }
    }

    /// A rotator by an angle, whose sine and cosine are given in billionths.
    pub fn new(angle: i64, sin_term: i64, cos_term: i64) -> (rotator: Self)
        requires
            -TRIG_ONE <= sin_term <= TRIG_ONE,
            -TRIG_ONE <= cos_term <= TRIG_ONE,
        ensures
            rotator == (ImageRotator { angle, sin_term, cos_term }),
            rotator.wf(),
    {
        ImageRotator { angle, sin_term, cos_term }
    }

    /// The central square of an image that is already rotated.
    pub fn crop(&self, rotated_image: &GrayImage) -> (cropped: GrayImage)
        requires
            rotated_image.wf(),
            rotated_image.width / 2 >= rotated_image.height / 2,
        ensures
            is_crop(
                cropped,
                *rotated_image,
                rotated_image.width / 2 - rotated_image.height / 2,
                0,
                rotated_image.height as int,
                rotated_image.height as int,
            ),
    {
        let square_size: u32 = rotated_image.height;
        let center_x: u32 = rotated_image.width / 2;
        crop_imm(rotated_image, center_x - square_size / 2, 0, square_size, square_size)
    }

    /// Where the central square lies in the image.
    pub fn get_cropped_region(&self, width: u32, height: u32) -> (region: Rectangle)
        requires
            height <= i32::MAX,
        ensures
            region.origin_x == width / 2 - height / 2,
            region.origin_y == 0,
            region.width == height,
            region.height == height,
    {
        let square_size: i32 = height as i32;
        let center_x: i32 = (width / 2) as i32;
        Rectangle {
            origin_x: center_x - square_size / 2,
            origin_y: 0,
            width: square_size,
            height: square_size,
        }
    }

    /// Where a place of an image lies in the rotated central square.
    pub open spec fn to_rotated(self, place: ImageCoord, width: int, height: int) -> (int, int) {
        let turned = rotated_vector(
            place.x - width * 500_000,
            height * 500_000 - place.y,
            self.sin_term as int,
            self.cos_term as int,
        );
        (turned.0 + height * 500_000, height * 500_000 - turned.1)
    }

    /// Where a place of the rotated central square lies in the image.
    pub open spec fn from_rotated(self, place: ImageCoord, width: int, height: int) -> (int, int) {
        let turned = rotated_vector(
            place.x - height * 500_000,
            height * 500_000 - place.y,
            -self.sin_term,
            self.cos_term as int,
        );
        (turned.0 + width * 500_000, height * 500_000 - turned.1)
    }

    /// Carries a place of an image to the rotated central square.
    pub fn transform_to_rotated(&self, place: ImageCoord, width: u32, height: u32) -> (moved:
        ImageCoord)
        requires
            self.wf(),
            in_reach(place),
        ensures
            (moved.x as int, moved.y as int) == self.to_rotated(place, width as int, height as int),
            -9 * MAX_COORD <= moved.x <= 9 * MAX_COORD,
            -9 * MAX_COORD <= moved.y <= 9 * MAX_COORD,
    {
        let half_width: i64 = width as i64 * 500_000;
        let half_height: i64 = height as i64 * 500_000;
        let (x, y) = rotate_vector(
            place.x - half_width,
            half_height - place.y,
            self.sin_term,
            self.cos_term,
        );
        ImageCoord { x: x + half_height, y: half_height - y }
    }

    /// Carries a place of the rotated central square back to the image.
    pub fn transform_from_rotated(&self, place: ImageCoord, width: u32, height: u32) -> (moved:
        ImageCoord)
        requires
            self.wf(),
            in_reach(place),
        ensures
            (moved.x as int, moved.y as int) == self.from_rotated(
                place,
                width as int,
                height as int,
            ),
            -9 * MAX_COORD <= moved.x <= 9 * MAX_COORD,
            -9 * MAX_COORD <= moved.y <= 9 * MAX_COORD,
    {
        let half_width: i64 = width as i64 * 500_000;
        let half_height: i64 = height as i64 * 500_000;
        let (x, y) = rotate_vector(
            place.x - half_height,
            half_height - place.y,
            -self.sin_term,
            self.cos_term,
        );
        ImageCoord { x: x + half_width, y: half_height - y }
    }
}

/// Divides by a billion, to the nearest whole.
fn round_billionths(billionths: i128) -> (whole: i128)
    requires
        -0x1000_0000_0000_0000_0000_0000 <= billionths <= 0x1000_0000_0000_0000_0000_0000,
    ensures
        whole == nearest_whole(billionths as int),
{
    let shifted: i128 = billionths + 500_000_000;
    if shifted >= 0 {
        shifted / 1_000_000_000
    } else {
        -((-shifted + 999_999_999) / 1_000_000_000)
    }
}

/// A coordinate times a sine or cosine stays in bounds.
proof fn lemma_product_bound(a: int, t: int)
    requires
        -3_200_000_000_000_000 <= a <= 3_200_000_000_000_000,
        -TRIG_ONE <= t <= TRIG_ONE,
    ensures
        -3_200_000_000_000_000_000_000_000 <= a * t <= 3_200_000_000_000_000_000_000_000,
{
    assert(-3_200_000_000_000_000_000_000_000 <= a * t <= 3_200_000_000_000_000_000_000_000)
        by (nonlinear_arith)
        requires
            -3_200_000_000_000_000 <= a <= 3_200_000_000_000_000,
            -1_000_000_000 <= t <= 1_000_000_000,
    ;
}

/// Turns a vector counter-clockwise.
fn rotate_vector(x: i64, y: i64, sin_term: i64, cos_term: i64) -> (turned: (i64, i64))
    requires
        -3_200_000_000_000_000 <= x <= 3_200_000_000_000_000,
        -3_200_000_000_000_000 <= y <= 3_200_000_000_000_000,
        -TRIG_ONE <= sin_term <= TRIG_ONE,
        -TRIG_ONE <= cos_term <= TRIG_ONE,
    ensures
        (turned.0 as int, turned.1 as int) == rotated_vector(
            x as int,
            y as int,
            sin_term as int,
            cos_term as int,
        ),
        -6_400_000_000_000_001 <= turned.0 <= 6_400_000_000_000_001,
        -6_400_000_000_000_001 <= turned.1 <= 6_400_000_000_000_001,
{
    proof {
        lemma_product_bound(x as int, cos_term as int);
        lemma_product_bound(y as int, sin_term as int);
        lemma_product_bound(x as int, sin_term as int);
        lemma_product_bound(y as int, cos_term as int);
    }
    let a: i128 = x as i128 * cos_term as i128 - y as i128 * sin_term as i128;
    let b: i128 = x as i128 * sin_term as i128 + y as i128 * cos_term as i128;
    (round_billionths(a) as i64, round_billionths(b) as i64)
}

/// The upright rotator only moves the left edge of the image to that of the central square.
pub proof fn law_upright_keeps_places(place: ImageCoord, width: int, height: int)
    ensures
        ImageRotator::upright().to_rotated(place, width, height) == (
            place.x - width * 500_000 + height * 500_000,
            place.y as int,
        ),
{
}

/// How far off a coordinate may be once it was turned and turned back: a micropixel for the
/// rounding, and as many billionths of the coordinate as the squares of sine and cosine are off
/// one.
pub open spec fn turn_error(coord: int, slack: int) -> int {
    if coord < 0 {
        1 + nearest_whole(slack * -coord)
    } else {
        1 + nearest_whole(slack * coord)
    }
}

/// Turning a vector and turning it back gives the vector, but for what the rounding takes away and
/// what the squares of sine and cosine are off one.
proof fn lemma_turn_back(x: int, y: int, s: int, c: int, slack: int)
    requires
        -TRIG_ONE <= s <= TRIG_ONE,
        -TRIG_ONE <= c <= TRIG_ONE,
        0 <= slack,
        -(slack * TRIG_ONE) <= s * s + c * c - TRIG_ONE * TRIG_ONE <= slack * TRIG_ONE,
    ensures
        ({
            let turned = rotated_vector(x, y, s, c);
            let back = rotated_vector(turned.0, turned.1, -s, c);
            &&& x - turn_error(x, slack) <= back.0 <= x + turn_error(x, slack)
            &&& y - turn_error(y, slack) <= back.1 <= y + turn_error(y, slack)
        }),
{
    let d: int = 1_000_000_000;
    let g = s * s + c * c - d * d;
    let a = x * c - y * s;
    let b = x * s + y * c;
    let p = nearest_whole(a);
    let q = nearest_whole(b);
    let r1 = d * p - a;
    let r2 = d * q - b;
    assert(-d <= 2 * r1 <= d && -d <= 2 * r2 <= d);
    lemma_turned_product(x, y, s, c, d, r1, r2, p, q);
    lemma_half_turn_bound(r1, c, d);
    lemma_half_turn_bound(r2, s, d);
    lemma_half_turn_bound(r1, s, d);
    lemma_half_turn_bound(r2, c, d);
    let e = p * c + q * s - x * d;
    let f = -(p * s) + q * c - y * d;
    lemma_turned_bound(x, g, slack, d, e, r1 * c + r2 * s);
    lemma_turned_bound(y, g, slack, d, f, -(r1 * s) + r2 * c);
    assert(p * c - q * (-s) == x * d + e) by (nonlinear_arith)
        requires
            e == p * c + q * s - x * d,
    ;
    assert(p * (-s) + q * c == y * d + f) by (nonlinear_arith)
        requires
            f == -(p * s) + q * c - y * d,
    ;
}

/// What is left of a coordinate that was turned and turned back stays in bounds.
proof fn lemma_turned_bound(x: int, g: int, slack: int, d: int, e: int, rounding: int)
    requires
        d > 0,
        0 <= slack,
        -(slack * d) <= g <= slack * d,
        -(d * d) <= rounding <= d * d,
        d * e == rounding + x * g,
    ensures
        x >= 0 ==> -(d + slack * x) <= e <= d + slack * x,
        x < 0 ==> -(d + slack * -x) <= e <= d + slack * -x,
{
    let w: int = if x < 0 { -x } else { x };
    assert(-(w * (slack * d)) <= x * g <= w * (slack * d)) by (nonlinear_arith)
        requires
            w >= 0,
            w == x || w == -x,
            -(slack * d) <= g <= slack * d,
    ;
    assert(w * (slack * d) == d * (slack * w)) by (nonlinear_arith);
    let limit = d + slack * w;
    assert(d * limit == d * d + d * (slack * w)) by (nonlinear_arith)
        requires
            limit == d + slack * w,
    ;
    assert(-limit <= e <= limit) by (nonlinear_arith)
        requires
            -(d * limit) <= d * e <= d * limit,
            d > 0,
    ;
}

/// The algebra of turning a vector back: what is left is what the rounding took away.
proof fn lemma_turned_product(
    x: int,
    y: int,
    s: int,
    c: int,
    d: int,
    r1: int,
    r2: int,
    p: int,
    q: int,
)
    requires
        r1 == d * p - (x * c - y * s),
        r2 == d * q - (x * s + y * c),
    ensures
        d * (p * c + q * s - x * d) == r1 * c + r2 * s + x * (s * s + c * c - d * d),
        d * (-(p * s) + q * c - y * d) == -(r1 * s) + r2 * c + y * (s * s + c * c - d * d),
{
    let a = x * c - y * s;
    let b = x * s + y * c;
    assert(r1 * c == d * (p * c) - a * c) by (nonlinear_arith)
        requires
            r1 == d * p - a,
    ;
    assert(r2 * s == d * (q * s) - b * s) by (nonlinear_arith)
        requires
            r2 == d * q - b,
    ;
    assert(r1 * s == d * (p * s) - a * s) by (nonlinear_arith)
        requires
            r1 == d * p - a,
    ;
    assert(r2 * c == d * (q * c) - b * c) by (nonlinear_arith)
        requires
            r2 == d * q - b,
    ;
    assert(a * c == x * (c * c) - y * (s * c)) by (nonlinear_arith)
        requires
            a == x * c - y * s,
    ;
    assert(b * s == x * (s * s) + y * (s * c)) by (nonlinear_arith)
        requires
            b == x * s + y * c,
    ;
    assert(a * s == x * (s * c) - y * (s * s)) by (nonlinear_arith)
        requires
            a == x * c - y * s,
    ;
    assert(b * c == x * (s * c) + y * (c * c)) by (nonlinear_arith)
        requires
            b == x * s + y * c,
    ;
    assert(x * (s * s + c * c - d * d) == x * (c * c) + x * (s * s) - x * (d * d))
        by (nonlinear_arith);
    assert(y * (s * s + c * c - d * d) == y * (c * c) + y * (s * s) - y * (d * d))
        by (nonlinear_arith);
    assert(d * (p * c + q * s - x * d) == d * (p * c) + d * (q * s) - x * (d * d))
        by (nonlinear_arith);
    assert(d * (-(p * s) + q * c - y * d) == -(d * (p * s)) + d * (q * c) - y * (d * d))
        by (nonlinear_arith);
}

/// Half a unit times a sine or cosine.
proof fn lemma_half_turn_bound(r: int, t: int, d: int)
    requires
        -d <= 2 * r <= d,
        -d <= t <= d,
        d > 0,
    ensures
        -d * d <= 2 * (r * t) <= d * d,
{
    assert(-d * d <= 2 * (r * t) <= d * d) by (nonlinear_arith)
        requires
            -d <= 2 * r <= d,
            -d <= t <= d,
            d > 0,
    ;
}

/// A place carried to the rotated square and back is the same place, to within a micropixel in
/// each direction and a few billionths of the distance from the center: as many as the squares of
/// sine and cosine are off one. Sine and cosine that are rounded to the billionth have a slack of
/// two, exact ones of none.
pub proof fn law_transforms_invert(
    rotator: ImageRotator,
    place: ImageCoord,
    moved: ImageCoord,
    width: int,
    height: int,
    slack: int,
)
    requires
        rotator.wf(),
        0 <= slack,
        -(slack * TRIG_ONE) <= rotator.sin_term * rotator.sin_term + rotator.cos_term
            * rotator.cos_term - TRIG_ONE * TRIG_ONE <= slack * TRIG_ONE,
        (moved.x as int, moved.y as int) == rotator.to_rotated(place, width, height),
    ensures
        ({
            let back = rotator.from_rotated(moved, width, height);
            let off_x = turn_error(place.x - width * 500_000, slack);
            let off_y = turn_error(height * 500_000 - place.y, slack);
            &&& place.x - off_x <= back.0 <= place.x + off_x
            &&& place.y - off_y <= back.1 <= place.y + off_y
        }),
{
    let x = place.x - width * 500_000;
    let y = height * 500_000 - place.y;
    lemma_turn_back(x, y, rotator.sin_term as int, rotator.cos_term as int, slack);
}

/// A pixel that is darker than black stays black, one from white on is white, and the curve says
/// what becomes of the others, by how far they are above black and how far white is. Copying,
/// scaling in place and the table agree.
pub proof fn law_pixels_are_stretched<F: Fn(u8, u8) -> u8>(
    image: GrayImage,
    min_pixel_value: u8,
    peak_pixel_value: u8,
    curve: F,
    scaled: GrayImage,
    in_place: &mut GrayImage,
    lut: Vec<u8>,
    i: int,
    value: u8,
)
    requires
        is_curve(curve),
        min_pixel_value <= peak_pixel_value,
        0 <= i < image.pixels@.len(),
        call_ensures(
            scale_image::<F>,
            (&image, min_pixel_value, peak_pixel_value, &curve),
            scaled,
        ),
        *old(in_place) == image,
        call_ensures(
            scale_image_mut::<F>,
            (in_place, min_pixel_value, peak_pixel_value, &curve),
            (),
        ),
        call_ensures(compute_lut::<F>, (min_pixel_value, peak_pixel_value, &curve), lut),
    ensures
        scaled.width == image.width && scaled.height == image.height,
        final(in_place).pixels@[i] == scaled.pixels@[i],
        lut@.len() == 256 && lut@[image.pixels@[i] as int] == scaled.pixels@[i],
        image.pixels@[i] < min_pixel_value ==> scaled.pixels@[i] == 0,
        image.pixels@[i] >= peak_pixel_value ==> scaled.pixels@[i] == 255,
        min_pixel_value <= image.pixels@[i] < peak_pixel_value && call_ensures(
            curve,
            (
                (image.pixels@[i] - min_pixel_value) as u8,
                (peak_pixel_value - min_pixel_value) as u8,
            ),
            value,
        ) ==> scaled.pixels@[i] == value,
{
    let n: u8 = image.pixels@[i];
    assert(lut@[n as int] == scaled_value(curve, min_pixel_value, peak_pixel_value, n));
}

/// Rows are moved as a whole: two pixels of a row differ by as much as before, none gets brighter,
/// and one of them is black.
pub proof fn law_rows_are_moved(image: &mut GrayImage, y: int, a: int, b: int)
    requires
        old(image).wf(),
        0 <= y < old(image).height,
        0 <= a < old(image).width,
        0 <= b < old(image).width,
        call_ensures(normalize_rows_mut, (image,), ()),
    ensures
        final(image).at(a, y) - final(image).at(b, y) == old(image).at(a, y) - old(image).at(b, y),
        final(image).at(a, y) <= old(image).at(a, y),
        exists|x: int| 0 <= x < old(image).width && #[trigger] final(image).at(x, y) == 0,
{
    assert(final(image).at(a, y) == old(image).at(a, y) - row_minimum(*old(image), y));
    assert(final(image).at(b, y) == old(image).at(b, y) - row_minimum(*old(image), y));
    law_normalized_rows_touch_black(*old(image), *final(image), y);
}

/// A place keeps its distance and direction from the center but for the turn: counter-clockwise by
/// the angle on the way to the rotated square, and back again on the way back. What is right of the
/// center and above it counts as positive, and rounding takes half a micropixel.
pub proof fn law_places_turn_about_the_center(
    rotator: ImageRotator,
    place: ImageCoord,
    width: u32,
    height: u32,
    there: ImageCoord,
    back: ImageCoord,
)
    requires
        call_ensures(
            ImageRotator::transform_to_rotated,
            (&rotator, place, width, height),
            there,
        ),
        call_ensures(
            ImageRotator::transform_from_rotated,
            (&rotator, place, width, height),
            back,
        ),
    ensures
        ({
            let s = rotator.sin_term as int;
            let c = rotator.cos_term as int;
            let up = height * 500_000 - place.y;
            let right = place.x - width * 500_000;
            let square_right = place.x - height * 500_000;
            let off_right = (there.x - height * 500_000) * 1_000_000_000 - (right * c - up * s);
            let off_up = (height * 500_000 - there.y) * 1_000_000_000 - (right * s + up * c);
            let off_back_right = (back.x - width * 500_000) * 1_000_000_000 - (square_right * c
                + up * s);
            let off_back_up = (height * 500_000 - back.y) * 1_000_000_000 - (up * c - square_right
                * s);
            &&& -500_000_000 <= off_right <= 500_000_000
            &&& -500_000_000 <= off_up <= 500_000_000
            &&& -500_000_000 <= off_back_right <= 500_000_000
            &&& -500_000_000 <= off_back_up <= 500_000_000
        }),
{
    let s = rotator.sin_term as int;
    let up = height * 500_000 - place.y;
    let square_right = place.x - height * 500_000;
    assert(up * (-s) == -(up * s) && square_right * (-s) == -(square_right * s))
        by (nonlinear_arith);
}

/// A quarter turn takes what is right of the center above it, and what is above it to the left; the
/// rotated image is as wide as the image is high.
pub proof fn law_quarter_turn(place: ImageCoord, width: u32, height: u32, there: ImageCoord)
    requires
        call_ensures(
            ImageRotator::transform_to_rotated,
            (
                &(ImageRotator { angle: 324_000_000_000, sin_term: 1_000_000_000, cos_term: 0 }),
                place,
                width,
                height,
            ),
            there,
        ),
    ensures
        height * 500_000 - there.y == place.x - width * 500_000,
        there.x - height * 500_000 == -(height * 500_000 - place.y),
{
}

/// The central square is cut out of the middle of a rotated image, as high as that, and is where
/// the region says.
pub proof fn law_central_square_is_cut_out(
    rotator: ImageRotator,
    image: GrayImage,
    cropped: GrayImage,
    region: Rectangle,
    c: int,
    r: int,
)
    requires
        image.wf(),
        image.height <= image.width <= i32::MAX,
        call_ensures(ImageRotator::crop, (&rotator, &image), cropped),
        call_ensures(
            ImageRotator::get_cropped_region,
            (&rotator, image.width, image.height),
            region,
        ),
        0 <= c < image.height,
        0 <= r < image.height,
    ensures
        cropped.width == image.height && cropped.height == image.height,
        region.width == image.height && region.height == image.height && region.origin_y == 0,
        -1 <= 2 * region.origin_x + image.height - image.width <= 1,
        cropped.at(c, r) == image.at(region.origin_x + c, r),
{
    let x = image.width / 2 - image.height / 2;
    assert(x + image.height <= image.width);
    assert(cropped.at(c, r) == image.at(smaller(x, image.width as int) + c, 0 + r));
}

/// An image is encoded as it is shown: two that look the same once they are stretched give the same
/// bytes. None is encoded without pixels, nor one with a side of more than 65535.
pub proof fn law_encoded_as_shown<F: Fn(u8, u8) -> u8>(
    a: GrayImage,
    b: GrayImage,
    min_pixel_value: u8,
    peak_pixel_value: u8,
    curve: F,
    quality: u8,
    shown_a: GrayImage,
    shown_b: GrayImage,
    jpeg_a: Option<Vec<u8>>,
    jpeg_b: Option<Vec<u8>>,
)
    requires
        call_ensures(
            scale_image::<F>,
            (&a, min_pixel_value, peak_pixel_value, &curve),
            shown_a,
        ),
        call_ensures(
            scale_image::<F>,
            (&b, min_pixel_value, peak_pixel_value, &curve),
            shown_b,
        ),
        a.wf() && b.wf(),
        shown_a.width == shown_b.width,
        shown_a.height == shown_b.height,
        shown_a.pixels@ == shown_b.pixels@,
        call_ensures(
            jpeg_encode::<F>,
            (&a, min_pixel_value, peak_pixel_value, &curve, quality),
            jpeg_a,
        ),
        call_ensures(
            jpeg_encode::<F>,
            (&b, min_pixel_value, peak_pixel_value, &curve, quality),
            jpeg_b,
        ),
    ensures
        jpeg_a is Some <==> 1 <= a.width <= 65535 && 1 <= a.height <= 65535,
        jpeg_a is Some <==> jpeg_b is Some,
        jpeg_a is Some ==> jpeg_a->0@ == jpeg_b->0@,
        jpeg_a matches Some(bytes) ==> bytes@ == jpeg_bytes(
            shown_a.width,
            shown_a.height,
            shown_a.pixels@,
            quality,
        ),
{
    assert(scaled_pixels(a, min_pixel_value, peak_pixel_value, curve) =~= shown_a.pixels@);
    assert(scaled_pixels(b, min_pixel_value, peak_pixel_value, curve) =~= shown_b.pixels@);
}

} // verus!
