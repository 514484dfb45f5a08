//! Turning a detection and a plate solution into the frame that is shown to the user.

use vstd::prelude::*;

use crate::astro_util::{FovCatalogEntry, ImageCoord, StarCentroid, fill_in_detections};
use crate::calibration::CalibrationData;
use crate::cedar::{
    CelestialCoord, MountType, OperatingMode, SlewRequest, normalize_angle, relative_angle,
    remainder_angle,
};
use crate::image_utils::{GrayImage, ImageRotator, Rectangle, MAX_COORD, TRIG_ONE};
use crate::imu_trait::{TransformCalibration, ZeroBias};
use crate::units::{FULL_TURN, MICROARCSECONDS_PER_DEGREE};

verus! {

/// The column of one of the eight pixels around another, counted row by row.
pub open spec fn neighbor_x(rx: int, k: int) -> int {
    if k == 0 || k == 3 || k == 5 {
        rx - 1
    } else if k == 1 || k == 6 {
        rx
    } else {
        rx + 1
    }
}

/// The row of one of the eight pixels around another, counted row by row.
pub open spec fn neighbor_y(ry: int, k: int) -> int {
    if k < 3 {
        ry - 1
    } else if k < 5 {
        ry
    } else {
        ry + 1
    }
}

/// One of the eight pixels around another.
pub open spec fn neighbor(image: GrayImage, rx: int, ry: int, k: int) -> u8 {
    image.at(neighbor_x(rx, k), neighbor_y(ry, k))
}

/// The mean of the eight pixels around another without three of them, rounded down.
pub open spec fn dim_mean(image: GrayImage, rx: int, ry: int, a: int, b: int, c: int) -> int {
    let total: int = neighbor(image, rx, ry, 0) + neighbor(image, rx, ry, 1)
        + neighbor(image, rx, ry, 2) + neighbor(image, rx, ry, 3) + neighbor(image, rx, ry, 4)
        + neighbor(image, rx, ry, 5) + neighbor(image, rx, ry, 6) + neighbor(image, rx, ry, 7);
    (total - neighbor(image, rx, ry, a) - neighbor(image, rx, ry, b)
        - neighbor(image, rx, ry, c)) / 5
}

/// Whether three of the eight pixels around another are as bright as any of the other five.
pub open spec fn are_brightest(
    image: GrayImage,
    rx: int,
    ry: int,
    a: int,
    b: int,
    c: int,
) -> bool {
    &&& 0 <= a < 8 && 0 <= b < 8 && 0 <= c < 8
    &&& a != b && a != c && b != c
    &&& forall|k: int|
        0 <= k < 8 && k != a && k != b && k != c ==> {
            &&& #[trigger] neighbor(image, rx, ry, k) <= neighbor(image, rx, ry, a)
            &&& neighbor(image, rx, ry, k) <= neighbor(image, rx, ry, b)
            &&& neighbor(image, rx, ry, k) <= neighbor(image, rx, ry, c)
        }
}

/// Whether a place is that of one of three of the pixels around another.
pub open spec fn is_one_of(x: int, y: int, rx: int, ry: int, a: int, b: int, c: int) -> bool {
    ||| x == neighbor_x(rx, a) && y == neighbor_y(ry, a)
    ||| x == neighbor_x(rx, b) && y == neighbor_y(ry, b)
    ||| x == neighbor_x(rx, c) && y == neighbor_y(ry, c)
}

/// What the repair of a hot pixel leaves at a place, where `a`, `b` and `c` are the brightest of
/// the pixels around it.
pub open spec fn repaired_pixel(
    image: GrayImage,
    rx: int,
    ry: int,
    a: int,
    b: int,
    c: int,
    x: int,
    y: int,
) -> int {
    let mean = dim_mean(image, rx, ry, a, b, c);
    if is_one_of(x, y, rx, ry, a, b, c) {
        mean
    } else if x == rx && y == ry && image.at(x, y) > mean {
        mean
    } else {
        image.at(x, y) as int
    }
}

/// Whether an image is another with a hot pixel repaired.
pub open spec fn is_repaired(
    after: GrayImage,
    before: GrayImage,
    rx: int,
    ry: int,
    a: int,
    b: int,
    c: int,
) -> bool {
    &&& are_brightest(before, rx, ry, a, b, c)
    &&& after.wf()
    &&& after.width == before.width
    &&& after.height == before.height
    &&& forall|x: int, y: int|
        0 <= x < before.width && 0 <= y < before.height ==> #[trigger] after.at(x, y)
            == repaired_pixel(before, rx, ry, a, b, c, x, y)
}

/// Whether an index is one of the two to leave out.
spec fn is_skipped(at: int, skip: int, skip_too: int) -> bool {
    at == skip || at == skip_too
}

/// Finds the brightest of eight pixels but for two, the first of them where several are equal.
fn brightest(values: &Vec<u8>, skip: usize, skip_too: usize) -> (at: usize)
    requires
        values@.len() == 8,
    ensures
        at < 8,
        at != skip,
        at != skip_too,
        forall|k: int|
            0 <= k < 8 && k != skip && k != skip_too ==> #[trigger] values@[k] <= values@[at as int],
{
    let mut at: usize = 8;
    let mut k: usize = 0;
    while k < 8
        invariant
            k <= 8,
            values@.len() == 8,
            at <= 8,
            at < 8 ==> at != skip && at != skip_too,
            at == 8 ==> (forall|j: int|
                0 <= j < k ==> #[trigger] is_skipped(j, skip as int, skip_too as int)),
            at < 8 ==> (forall|j: int|
                0 <= j < k && !is_skipped(j, skip as int, skip_too as int)
                    ==> #[trigger] values@[j] <= values@[at as int]),
        decreases 8 - k,
    {
        if k != skip && k != skip_too && (at == 8 || values[k] > values[at]) {
            at = k;
        }
        k = k + 1;
    }
    assert(at < 8) by {
        assert(!is_skipped(0, skip as int, skip_too as int) || !is_skipped(
            1,
            skip as int,
            skip_too as int,
        ) || !is_skipped(2, skip as int, skip_too as int));
    }
    at
}

/// Replaces a pixel of an image.
fn put_pixel(image: &mut GrayImage, x: u32, y: u32, value: u8)
    requires
        old(image).wf(),
        x < old(image).width,
        y < old(image).height,
    ensures
        final(image).wf(),
        final(image).width == old(image).width,
        final(image).height == old(image).height,
        forall|c: int, r: int|
            0 <= c < old(image).width && 0 <= r < old(image).height ==> #[trigger] final(image).at(
                c,
                r,
            ) == (if c == x && r == y {
                value
            } else {
                old(image).at(c, r)
            }),
{
    let total: usize = image.pixels.len();
    let width: usize = image.width as usize;
    proof {
        crate::image_utils::lemma_pixel_index(
            image.width as int,
            image.height as int,
            x as int,
            y as int,
        );
    }
    let at: usize = y as usize * width + x as usize;
    image.pixels.set(at, value);
    assert forall|c: int, r: int|
        0 <= c < image.width && 0 <= r < image.height implies #[trigger] image.at(c, r) == (if c
        == x && r == y {
        value
    } else {
        old(image).at(c, r)
    }) by {
        crate::image_utils::lemma_pixel_index(image.width as int, image.height as int, c, r);
    }
}

/// Reads a pixel of an image.
fn get_pixel(image: &GrayImage, x: u32, y: u32) -> (value: u8)
    requires
        image.wf(),
        x < image.width,
        y < image.height,
    ensures
        value == image.at(x as int, y as int),
{
    let total: usize = image.pixels.len();
    proof {
        crate::image_utils::lemma_pixel_index(
            image.width as int,
            image.height as int,
            x as int,
            y as int,
        );
    }
    image.pixels[y as usize * image.width as usize + x as usize]
}

/// Repairs a hot pixel: the three brightest of the eight pixels around it, which it has likely
/// bled into, become the mean of the other five, and so does the pixel itself where it is
/// brighter. Which of equally bright pixels count among the three is left open. A pixel at the
/// edge of the image is left alone.
#[verifier::spinoff_prover]
pub fn fix_hot_pixel(image: &mut GrayImage, rx: u32, ry: u32)
    requires
        old(image).wf(),
        rx < old(image).width,
        ry < old(image).height,
    ensures
        final(image).wf(),
        rx == 0 || ry == 0 || rx + 1 >= old(image).width || ry + 1 >= old(image).height
            ==> final(image).width == old(image).width && final(image).height == old(image).height
            && final(image).pixels@ == old(image).pixels@,
        rx > 0 && ry > 0 && rx + 1 < old(image).width && ry + 1 < old(image).height ==> exists|
            a: int,
            b: int,
            c: int,
        | #[trigger]
            is_repaired(*final(image), *old(image), rx as int, ry as int, a, b, c),
{
    if rx == 0 || ry == 0 || rx >= image.width - 1 || ry >= image.height - 1 {
        return;
    }
    let values: Vec<u8> = neighbor_values(image, rx, ry);
    let a: usize = brightest(&values, 8, 8);
    let b: usize = brightest(&values, a, 8);
    let c: usize = brightest(&values, a, b);
    proof {
        lemma_brightest(
            *image,
            values@,
            rx as int,
            ry as int,
            a as int,
            b as int,
            c as int,
        );
    }
    let mean: u8 = mean_of_rest(&values, a, b, c);
    assert(mean == dim_mean(*image, rx as int, ry as int, a as int, b as int, c as int));
    replace_pixels(image, rx, ry, a, b, c, mean);
    assert(is_repaired(*image, *old(image), rx as int, ry as int, a as int, b as int, c as int));
}

/// The mean of eight values without three of them, rounded down.
fn mean_of_rest(values: &Vec<u8>, a: usize, b: usize, c: usize) -> (mean: u8)
    requires
        values@.len() == 8,
        a < 8 && b < 8 && c < 8,
        a != b && a != c && b != c,
    ensures
        mean == (values@[0] + values@[1] + values@[2] + values@[3] + values@[4] + values@[5]
            + values@[6] + values@[7] - values@[a as int] - values@[b as int]
            - values@[c as int]) / 5,
{
    let total: u32 = values[0] as u32 + values[1] as u32 + values[2] as u32 + values[3] as u32
        + values[4] as u32 + values[5] as u32 + values[6] as u32 + values[7] as u32;
    proof {
        lemma_three_of_eight(values@, a as int, b as int, c as int);
    }
    let rest: u32 = total - values[a] as u32 - values[b] as u32 - values[c] as u32;
    (rest / 5) as u8
}

/// The place of one of the eight pixels around another.
fn neighbor_place(rx: u32, ry: u32, k: usize) -> (place: (u32, u32))
    requires
        0 < rx < u32::MAX,
        0 < ry < u32::MAX,
        k < 8,
    ensures
        place.0 == neighbor_x(rx as int, k as int),
        place.1 == neighbor_y(ry as int, k as int),
{
    let x: u32 = if k == 0 || k == 3 || k == 5 {
        rx - 1
    } else if k == 1 || k == 6 {
        rx
    } else {
        rx + 1
    };
    let y: u32 = if k < 3 {
        ry - 1
    } else if k < 5 {
        ry
    } else {
        ry + 1
    };
    (x, y)
}

/// The values of the eight pixels around another.
fn neighbor_values(image: &GrayImage, rx: u32, ry: u32) -> (values: Vec<u8>)
    requires
        image.wf(),
        0 < rx && rx + 1 < image.width,
        0 < ry && ry + 1 < image.height,
    ensures
        values@.len() == 8,
        forall|j: int|
            0 <= j < 8 ==> #[trigger] values@[j] == neighbor(*image, rx as int, ry as int, j),
{
    let mut values: Vec<u8> = Vec::new();
    let mut k: usize = 0;
    while k < 8
        invariant
            k <= 8,
            image.wf(),
            0 < rx && rx + 1 < image.width,
            0 < ry && ry + 1 < image.height,
            values@.len() == k,
            forall|j: int|
                0 <= j < k ==> #[trigger] values@[j] == neighbor(*image, rx as int, ry as int, j),
        decreases 8 - k,
    {
        let (x, y) = neighbor_place(rx, ry, k);
        values.push(get_pixel(image, x, y));
        k = k + 1;
    }
    values
}

/// Puts a value in place of three of the pixels around another, and of the pixel itself where it
/// is brighter.
fn replace_pixels(
    image: &mut GrayImage,
    rx: u32,
    ry: u32,
    a: usize,
    b: usize,
    c: usize,
    value: u8,
)
    requires
        old(image).wf(),
        0 < rx && rx + 1 < old(image).width,
        0 < ry && ry + 1 < old(image).height,
        a < 8 && b < 8 && c < 8,
    ensures
        final(image).wf(),
        final(image).width == old(image).width,
        final(image).height == old(image).height,
        forall|x: int, y: int|
            0 <= x < old(image).width && 0 <= y < old(image).height ==> #[trigger] final(image).at(
                x,
                y,
            ) == (if is_one_of(x, y, rx as int, ry as int, a as int, b as int, c as int) || (x == rx
                && y == ry && old(image).at(x, y) > value) {
                value
            } else {
                old(image).at(x, y)
            }),
{
    let center: u8 = get_pixel(image, rx, ry);
    let (ax, ay) = neighbor_place(rx, ry, a);
    let (bx, by) = neighbor_place(rx, ry, b);
    let (cx, cy) = neighbor_place(rx, ry, c);
    put_pixel(image, ax, ay, value);
    put_pixel(image, bx, by, value);
    put_pixel(image, cx, cy, value);
    if center > value {
        put_pixel(image, rx, ry, value);
    }
}

/// Three pixels, each the brightest but for those before it, are as bright as any of the others.
proof fn lemma_brightest(
    image: GrayImage,
    values: Seq<u8>,
    rx: int,
    ry: int,
    a: int,
    b: int,
    c: int,
)
    requires
        values.len() == 8,
        forall|j: int| 0 <= j < 8 ==> #[trigger] values[j] == neighbor(image, rx, ry, j),
        0 <= a < 8 && 0 <= b < 8 && 0 <= c < 8,
        a != b && a != c && b != c,
        forall|k: int| 0 <= k < 8 ==> values[k] <= values[a],
        forall|k: int| 0 <= k < 8 && k != a ==> values[k] <= values[b],
        forall|k: int| 0 <= k < 8 && k != a && k != b ==> values[k] <= values[c],
    ensures
        are_brightest(image, rx, ry, a, b, c),
{
    assert forall|k: int| 0 <= k < 8 && k != a && k != b && k != c implies {
        &&& #[trigger] neighbor(image, rx, ry, k) <= neighbor(image, rx, ry, a)
        &&& neighbor(image, rx, ry, k) <= neighbor(image, rx, ry, b)
        &&& neighbor(image, rx, ry, k) <= neighbor(image, rx, ry, c)
    } by {
        assert(values[k] <= values[a] && values[k] <= values[b] && values[k] <= values[c]);
    }
}

/// Three of eight values add up to no more than all of them, and the rest of them is small.
proof fn lemma_three_of_eight(v: Seq<u8>, a: int, b: int, c: int)
    requires
        v.len() == 8,
        0 <= a < 8,
        0 <= b < 8,
        0 <= c < 8,
        a != b,
        a != c,
        b != c,
    ensures
        0 <= v[0] + v[1] + v[2] + v[3] + v[4] + v[5] + v[6] + v[7] - v[a] - v[b] - v[c] <= 5 * 255,
{
}

/// The repair of a hot pixel makes no pixel brighter.
pub proof fn law_repair_never_brightens(
    after: GrayImage,
    before: GrayImage,
    rx: int,
    ry: int,
    a: int,
    b: int,
    c: int,
    x: int,
    y: int,
)
    requires
        is_repaired(after, before, rx, ry, a, b, c),
        0 <= x < before.width,
        0 <= y < before.height,
    ensures
        after.at(x, y) <= before.at(x, y),
{
    let v = Seq::new(8, |k: int| neighbor(before, rx, ry, k));
    assert forall|k: int| 0 <= k < 8 implies v[k] == #[trigger] neighbor(before, rx, ry, k) by {}
    lemma_five_dimmest(v, a, b, c);
    assert(after.at(x, y) == repaired_pixel(before, rx, ry, a, b, c, x, y));
}

/// The mean of the five dimmest of eight values exceeds none of the other three.
proof fn lemma_five_dimmest(v: Seq<u8>, a: int, b: int, c: int)
    requires
        v.len() == 8,
        0 <= a < 8,
        0 <= b < 8,
        0 <= c < 8,
        a != b,
        a != c,
        b != c,
        forall|k: int|
            0 <= k < 8 && k != a && k != b && k != c ==> #[trigger] v[k] <= v[a] && v[k] <= v[b]
                && v[k] <= v[c],
    ensures
        ({
            let rest: int = v[0] + v[1] + v[2] + v[3] + v[4] + v[5] + v[6] + v[7] - v[a] - v[b]
                - v[c];
            &&& rest <= 5 * v[a]
            &&& rest <= 5 * v[b]
            &&& rest <= 5 * v[c]
        }),
{
}

/// What helps the user focus.
#[derive(Clone, Copy, Debug, PartialEq, Eq, Structural)]
pub struct FocusAid {
    /// The brightest point near the center.
    pub center_peak_position: Option<ImageCoord>,
    /// Its pixel value.
    pub center_peak_value: Option<u8>,
    /// The part of the image around it that is shown enlarged.
    pub peak_image_region: Option<Rectangle>,
    /// The part of the image that is shown enlarged in daylight.
    pub daylight_focus_zoom_region: Option<Rectangle>,
}

/// What was found in an image.
#[derive(Debug)]
pub struct DetectResult {
    /// Identifies the image.
    pub frame_id: i32,
    /// Columns of the image, after binning by the camera.
    pub width: u32,
    /// Rows of the image, after binning by the camera.
    pub height: u32,
    /// How long it was exposed, in nanoseconds.
    pub exposure: u64,
    /// When it was read out, in nanoseconds since 1970 (UTC).
    pub readout_time: u64,
    /// How many sensor pixels across make a pixel of the image.
    pub camera_binning: u32,
    /// Whether the sensor has a color grid.
    pub is_color: bool,
    /// Whether the image was taken in daylight mode.
    pub daylight_mode: bool,
    /// What helps the user focus, in focus assist mode.
    pub focus_aid: Option<FocusAid>,
    /// The stars.
    pub star_candidates: Vec<StarCentroid>,
    /// The moving average of their number, as the detecting engine counts it.
    pub star_count_moving_average: u128,
    /// How many hot pixels were among the candidates.
    pub hot_pixel_count: i32,
    /// The noise of the image, in thousandths.
    pub noise_estimate: u64,
    /// The pixel value to show as black.
    pub display_black_level: u8,
    /// The pixel value to show as white.
    pub peak_value: u8,
    /// Whether there is a binned image beside the one that was captured.
    pub has_binned_image: bool,
}

/// A star of the solver's catalog within the image.
#[derive(Clone, Copy, Debug, PartialEq, Eq, Structural)]
pub struct CatalogStar {
    /// Where it appears.
    pub pixel: ImageCoord,
    /// Its magnitude, in thousandths.
    pub magnitude: i32,
}

/// Where an image lies in the sky.
#[derive(Debug)]
pub struct Solution {
    /// The place at the center of the image.
    pub image_sky_coord: CelestialCoord,
    /// The places at the points that were asked for; the boresight comes first.
    pub target_sky_coord: Vec<CelestialCoord>,
    /// The angle between image up and north, in microarcseconds.
    pub roll: i64,
    /// The stars of the catalog that lie in the image.
    pub catalog_stars: Vec<CatalogStar>,
}

/// What was made of a detection by the solver.
#[derive(Debug)]
pub struct PlateSolution {
    /// The solution, if there is one.
    pub solution: Option<Solution>,
    /// When the attempt to solve ended, in microseconds since 1970 (UTC), if there was one.
    pub solve_finish_time: Option<u64>,
    /// The slew in progress, if there is one.
    pub slew_request: Option<SlewRequest>,
    /// The part of the image around the boresight that is shown enlarged.
    pub boresight_image_region: Option<Rectangle>,
    /// The catalog objects in the image.
    pub fov_catalog_entries: Option<Vec<FovCatalogEntry>>,
    /// The catalog objects in the image that brighter ones push aside.
    pub decrowded_fov_catalog_entries: Option<Vec<FovCatalogEntry>>,
}

/// What an inertial measurement unit was found to be like.
#[derive(Clone, Copy, Debug, PartialEq, Eq, Structural)]
pub struct ImuCalibration {
    /// What it reports at rest, if that is known.
    pub zero_bias: Option<ZeroBias>,
    /// How its axes lie, if that is known.
    pub transform_calibration: Option<TransformCalibration>,
}

/// A map of the hot pixels of the camera.
#[derive(Clone, Copy, Debug, PartialEq, Eq, Structural)]
pub struct HotPixelMap {
    /// Whether enough is known to go by it.
    pub is_ready: bool,
    /// How many hot pixels it holds.
    pub count: i32,
}

/// The state of the server that a frame depends on.
#[derive(Clone, Copy, Debug)]
pub struct ServeContext {
    /// The mode of operation.
    pub operating_mode: OperatingMode,
    /// Whether the user is helped to focus.
    pub focus_assist_mode: bool,
    /// Whether the user set daylight mode.
    pub daylight_mode: bool,
    /// The quality of compressed images.
    pub jpeg_quality: u8,
    /// What the last calibration found out.
    pub calibration_data: CalibrationData,
    /// What the inertial measurement unit is like, if there is one.
    pub imu_calibration: Option<ImuCalibration>,
    /// The map of hot pixels, if there is one.
    pub hot_pixel_map: Option<HotPixelMap>,
    /// The user's mount.
    pub mount_type: Option<MountType>,
    /// Whether the display is wider than high.
    pub landscape: bool,
    /// How many pixels across the detector bins into one.
    pub detect_binning: u32,
    /// Whether the display image is sampled down once more.
    pub display_sampling: bool,
    /// Where the telescope points in the image, if that is known.
    pub boresight_pixel: Option<ImageCoord>,
    /// The rotator of the frame before.
    pub previous_rotator: ImageRotator,
}

/// Where the boresight is relative to the horizon, in microarcseconds. It is known where the
/// place of the observer and a solution are.
#[derive(Clone, Copy, Debug, PartialEq, Eq, Structural)]
pub struct Horizon {
    /// The position angle of the zenith seen from the boresight.
    pub zenith_position_angle: i64,
    /// Height above the horizon.
    pub altitude: i64,
    /// Direction along the horizon.
    pub azimuth: i64,
    /// Hour angle.
    pub hour_angle: i64,
}

/// What the place of the observer adds to a solution.
#[derive(Clone, Copy, Debug, PartialEq, Eq, Structural)]
pub struct LocationBasedInfo {
    /// The angle between image up and the zenith.
    pub zenith_roll_angle: i64,
    /// Height of the boresight above the horizon.
    pub altitude: i64,
    /// Direction of the boresight along the horizon.
    pub azimuth: i64,
    /// Hour angle of the boresight.
    pub hour_angle: i64,
}

/// How the display image is made from the captured one.
#[derive(Clone, Copy, Debug, PartialEq, Eq, Structural)]
pub struct DisplayPlan {
    /// Start from the binned image that there is already.
    pub use_binned: bool,
    /// How often to bin the captured image two by two.
    pub bins: u32,
    /// Whether to sample the result down once more.
    pub sample: bool,
    /// The pixel value to show as black.
    pub black_level: u8,
    /// The pixel value to show as white.
    pub peak_value: u8,
    /// How many sensor pixels across make a pixel of the display image.
    pub binning_factor: u32,
    /// The exponent of the brightness curve, in thousandths.
    pub gamma: u32,
}

/// A part of the image that is shown enlarged.
#[derive(Clone, Copy, Debug, PartialEq, Eq, Structural)]
pub struct Closeup {
    /// Where it lies, in sensor pixels.
    pub rectangle: Rectangle,
    /// How many sensor pixels across make one of its pixels.
    pub binning_factor: i32,
    /// Whether it is to be binned two by two, to remove the color grid.
    pub bin: bool,
}

/// Everything about a frame but the pixels.
#[derive(Debug)]
pub struct ServeResult {
    /// Identifies the frame.
    pub frame_id: i32,
    /// How long it was exposed, in nanoseconds.
    pub exposure_time: u64,
    /// When it was captured, in nanoseconds since 1970 (UTC).
    pub capture_time: u64,
    /// The mode of operation.
    pub operating_mode: OperatingMode,
    /// Whether the user is helped to focus.
    pub focus_assist_mode: bool,
    /// Whether it was taken in daylight mode.
    pub daylight_mode: bool,
    /// The moving average of the number of stars.
    pub star_count_moving_average: u128,
    /// How many hot pixels were among the candidates.
    pub hot_pixel_count: Option<i32>,
    /// The noise of the image, in thousandths.
    pub noise_estimate: u64,
    /// The quality at which its images are compressed.
    pub jpeg_quality: u8,
    /// The solution, if there is one.
    pub plate_solution: Option<Solution>,
    /// What the last calibration found out.
    pub calibration_data: CalibrationData,
    /// What the gyroscope reports at rest, if that is known.
    pub gyro_zero_bias: Option<ZeroBias>,
    /// How the gyroscope's axes lie, if that is known.
    pub gyro_transform: Option<TransformCalibration>,
    /// How many hot pixels the map holds, once one can go by it.
    pub hot_pixel_map_count: Option<i32>,
    /// What the place of the observer adds.
    pub location_based_info: Option<LocationBasedInfo>,
    /// How the image is rotated.
    pub image_rotator: ImageRotator,
    /// How the display image is made.
    pub display: DisplayPlan,
    /// The brightest point near the center.
    pub center_peak_position: Option<ImageCoord>,
    /// Its pixel value.
    pub center_peak_value: Option<i32>,
    /// The part of the image around it.
    pub center_peak_image: Option<Closeup>,
    /// The part of the image to focus by in daylight.
    pub daylight_focus_zoom_image: Option<Closeup>,
    /// The part of the sensor that the display image shows.
    pub image_rectangle: Rectangle,
    /// The slew in progress.
    pub slew_request: Option<SlewRequest>,
    /// The part of the image around the boresight.
    pub boresight_image: Option<Closeup>,
    /// The catalog objects to label.
    pub labeled_catalog_entries: Vec<FovCatalogEntry>,
    /// The catalog objects to show without a label.
    pub unlabeled_catalog_entries: Vec<FovCatalogEntry>,
    /// Where the telescope points.
    pub boresight_position: ImageCoord,
    /// The stars.
    pub star_candidates: Vec<StarCentroid>,
}

/// What the serving engine goes by, and what it remembers of the frame before.
#[derive(Clone, Copy, Debug)]
pub struct ServeEngine {
    /// The state of the server that a frame depends on, with the rotator of the frame before.
    pub context: ServeContext,
    /// The frame that was served last.
    pub frame_id: Option<i32>,
    /// The brightest point near its center.
    pub center_peak_position: Option<ImageCoord>,
}

impl ServeEngine {
    /// Starts with an image that is not rotated.
    pub fn new(context: ServeContext) -> (engine: Self)
        ensures
            engine == (ServeEngine {
                context: ServeContext { previous_rotator: ImageRotator::upright(), ..context },
                frame_id: None,
                center_peak_position: None,
            }),
    {
        let mut context: ServeContext = context;
        context.previous_rotator = ImageRotator::new(0, 0, TRIG_ONE);
        ServeEngine {
            context,
            frame_id: None,
            center_peak_position: None,
        }
    }

    /// Takes over the state of the server. The rotator of the frame before stays.
    pub fn update_context(&mut self, context: ServeContext)
        ensures
            *final(self) == (ServeEngine {
                context: ServeContext {
                    previous_rotator: old(self).context.previous_rotator,
                    ..context
                },
                ..*old(self)
            }),
    {
        let previous_rotator: ImageRotator = self.context.previous_rotator;
        self.context = context;
        self.context.previous_rotator = previous_rotator;
    }

    /// Takes over what a request asks for.
    pub fn update_render_params(&mut self, landscape: bool, jpeg_quality: u8)
        ensures
            *final(self) == (ServeEngine {
                context: ServeContext { landscape, jpeg_quality, ..old(self).context },
                ..*old(self)
            }),
    {
        self.context.landscape = landscape;
        self.context.jpeg_quality = jpeg_quality;
    }

    /// Takes over the modes of operation.
    pub fn update_operation_settings(
        &mut self,
        operating_mode: OperatingMode,
        focus_assist_mode: bool,
        daylight_mode: bool,
    )
        ensures
            *final(self) == (ServeEngine {
                context: ServeContext {
                    operating_mode,
                    focus_assist_mode,
                    daylight_mode,
                    ..old(self).context
                },
                ..*old(self)
            }),
    {
        self.context.operating_mode = operating_mode;
        self.context.focus_assist_mode = focus_assist_mode;
        self.context.daylight_mode = daylight_mode;
    }

    /// Takes over the user's mount.
    pub fn update_preferences(&mut self, mount_type: Option<MountType>)
        ensures
            *final(self) == (ServeEngine {
                context: ServeContext { mount_type, ..old(self).context },
                ..*old(self)
            }),
    {
        self.context.mount_type = mount_type;
    }

    /// The brightest point near the center of the frame that was served last.
    pub fn center_peak_position(&self) -> (position: Option<ImageCoord>)
        ensures
            position == self.center_peak_position,
    {
        self.center_peak_position
    }

    /// How the frame that was served last was rotated.
    pub fn image_rotator(&self) -> (rotator: ImageRotator)
        ensures
            rotator == self.context.previous_rotator,
    {
        self.context.previous_rotator
    }

    /// Takes note of a frame. The brightest point near the center stays as it was where the
    /// detection helps to focus without naming one, as in daylight.
    pub fn note_result(&mut self, detection: &DetectResult, result: &ServeResult)
        ensures
            *final(self) == (ServeEngine {
                context: ServeContext {
                    previous_rotator: result.image_rotator,
                    ..old(self).context
                },
                frame_id: Some(result.frame_id),
                center_peak_position: if detection.focus_aid is Some
                    && result.center_peak_position is None {
                    old(self).center_peak_position
                } else {
                    result.center_peak_position
                },
                ..*old(self)
            }),
    {
        self.context.previous_rotator = result.image_rotator;
        self.frame_id = Some(result.frame_id);
        if detection.focus_aid.is_none() || result.center_peak_position.is_some() {
            self.center_peak_position = result.center_peak_position;
        }
    }
}

/// Where the boresight of a solution is in the sky: the first of the places asked for, or else
/// the center of the image.
pub open spec fn boresight_of(solution: Solution) -> CelestialCoord {
    if solution.target_sky_coord@.len() > 0 {
        solution.target_sky_coord@[0]
    } else {
        solution.image_sky_coord
    }
}

/// Where the boresight of a solution is in the sky.
pub fn boresight_coords(solution: &Solution) -> (coords: CelestialCoord)
    ensures
        coords == boresight_of(*solution),
{
    if solution.target_sky_coord.len() > 0 {
        solution.target_sky_coord[0]
    } else {
        solution.image_sky_coord
    }
}

/// How the display image of a detection is made, from the binning of the camera and of the
/// detector, and whether it is sampled down once more.
pub open spec fn display_plan(
    detection: DetectResult,
    camera_binning: int,
    detect_binning: int,
    display_sampling: bool,
) -> DisplayPlan {
    let peak = if display_sampling {
        (detection.peak_value / 4) as u8
    } else {
        detection.peak_value
    };
    DisplayPlan {
        use_binned: detection.has_binned_image,
        bins: if detection.has_binned_image || detect_binning <= 1 {
            0
        } else if detect_binning == 4 {
            2
        } else {
            1
        },
        sample: display_sampling,
        black_level: if detection.display_black_level > peak {
            peak
        } else {
            detection.display_black_level
        },
        peak_value: peak,
        binning_factor: (if display_sampling {
            camera_binning * detect_binning * 2
        } else {
            camera_binning * detect_binning
        }) as u32,
        gamma: if detection.daylight_mode {
            1000
        } else {
            700
        },
    }
}

/// Decides how the display image of a detection is made. Sampling down makes points of light
/// dimmer, so the white level goes down with it, and black never lies above white.
pub fn plan_display(
    detection: &DetectResult,
    camera_binning: u32,
    detect_binning: u32,
    display_sampling: bool,
) -> (plan: DisplayPlan)
    requires
        camera_binning * detect_binning * 2 <= u32::MAX,
    ensures
        plan == display_plan(
            *detection,
            camera_binning as int,
            detect_binning as int,
            display_sampling,
        ),
{
    let mut bins: u32 = 0;
    if !detection.has_binned_image && detect_binning > 1 {
        bins = if detect_binning == 4 { 2 } else { 1 };
    }
    let mut peak_value: u8 = detection.peak_value;
    if display_sampling {
        peak_value = peak_value / 4;
    }
    let mut black_level: u8 = detection.display_black_level;
    if black_level > peak_value {
        black_level = peak_value;
    }
    let product: u32 = camera_binning * detect_binning;
    DisplayPlan {
        use_binned: detection.has_binned_image,
        bins,
        sample: display_sampling,
        black_level,
        peak_value,
        binning_factor: if display_sampling { product * 2 } else { product },
        gamma: if detection.daylight_mode { 1000 } else { 700 },
    }
}

/// What the place of the observer adds to a solution.
pub open spec fn location_info(horizon: Horizon, roll: int) -> LocationBasedInfo {
    LocationBasedInfo {
        zenith_roll_angle: ((horizon.zenith_position_angle + roll) % FULL_TURN as int) as i64,
        altitude: horizon.altitude,
        azimuth: horizon.azimuth,
        hour_angle: horizon.hour_angle,
    }
}

/// By how much to rotate an image so that the zenith is up, or to the right on a display that is
/// higher than wide.
pub open spec fn upright_angle(zenith_roll_angle: int, landscape: bool) -> int {
    if landscape {
        -zenith_roll_angle
    } else {
        90 * MICROARCSECONDS_PER_DEGREE - zenith_roll_angle
    }
}

/// Whether a function gives sine and cosine in billionths for every angle, always alike.
pub open spec fn is_trig<T: Fn(i64) -> (i64, i64)>(trig: T) -> bool {
    &&& forall|angle: (i64,)| #[trigger] call_requires(trig, angle)
    &&& forall|angle: (i64,), a: (i64, i64)| #[trigger]
        call_ensures(trig, angle, a) ==> -TRIG_ONE <= a.0 <= TRIG_ONE && -TRIG_ONE <= a.1
            <= TRIG_ONE
    &&& forall|angle: (i64,), a: (i64, i64), b: (i64, i64)|
        #[trigger] call_ensures(trig, angle, a) && #[trigger] call_ensures(trig, angle, b) ==> a
            == b
}

/// The rotator by an angle.
pub open spec fn rotator_by<T: Fn(i64) -> (i64, i64)>(trig: T, angle: i64) -> ImageRotator {
    let terms = choose|r: (i64, i64)| call_ensures(trig, (angle,), r);
    ImageRotator { angle, sin_term: terms.0, cos_term: terms.1 }
}

/// How the image of a detection is rotated: not at all while focusing or in daylight; upright
/// where the zenith is known; and as before otherwise, to cover for a solution that is missing.
pub open spec fn frame_rotator<T: Fn(i64) -> (i64, i64)>(
    detection: DetectResult,
    context: ServeContext,
    info: Option<LocationBasedInfo>,
    trig: T,
) -> ImageRotator {
    if detection.focus_aid is Some || detection.daylight_mode {
        ImageRotator::upright()
    } else {
        match info {
            Some(info) => rotator_by(
                trig,
                upright_angle(info.zenith_roll_angle as int, context.landscape) as i64,
            ),
            None => context.previous_rotator,
        }
    }
}

/// What the place of the observer adds, once the image is rotated.
pub open spec fn rotated_info(
    detection: DetectResult,
    context: ServeContext,
    info: Option<LocationBasedInfo>,
) -> Option<LocationBasedInfo> {
    match info {
        Some(info) => if detection.focus_aid is Some || detection.daylight_mode {
            Some(info)
        } else {
            Some(
                LocationBasedInfo {
                    zenith_roll_angle: (info.zenith_roll_angle + upright_angle(
                        info.zenith_roll_angle as int,
                        context.landscape,
                    )) as i64,
                    ..info
                },
            )
        },
        None => None,
    }
}

/// Decides how the image of a detection is rotated.
fn choose_rotator<T: Fn(i64) -> (i64, i64)>(
    detection: &DetectResult,
    context: &ServeContext,
    info: Option<LocationBasedInfo>,
    trig: &T,
) -> (chosen: (ImageRotator, Option<LocationBasedInfo>))
    requires
        is_trig(*trig),
        context.previous_rotator.wf(),
        crate::cedar::angle_in_reach(context.previous_rotator.angle),
        info matches Some(i) ==> 0 <= i.zenith_roll_angle < FULL_TURN,
    ensures
        chosen.0 == frame_rotator(*detection, *context, info, *trig),
        chosen.1 == rotated_info(*detection, *context, info),
        chosen.0.wf(),
        crate::cedar::angle_in_reach(chosen.0.angle),
{
    if detection.focus_aid.is_some() || detection.daylight_mode {
        return (ImageRotator::new(0, 0, TRIG_ONE), info);
    }
    match info {
        Some(info) => {
            let angle: i64 = if context.landscape {
                -info.zenith_roll_angle
            } else {
                90 * MICROARCSECONDS_PER_DEGREE - info.zenith_roll_angle
            };
            let (sin_term, cos_term) = trig(angle);
            let rotator = ImageRotator::new(angle, sin_term, cos_term);
            let rotated = LocationBasedInfo {
                zenith_roll_angle: info.zenith_roll_angle + angle,
                altitude: info.altitude,
                azimuth: info.azimuth,
                hour_angle: info.hour_angle,
            };
            (rotator, Some(rotated))
        },
        None => (context.previous_rotator, None),
    }
}

/// Whether a rectangle in sensor pixels stays within the range of its numbers.
pub open spec fn scales(region: Rectangle, binning: int) -> bool {
    &&& i32::MIN <= region.origin_x * binning <= i32::MAX
    &&& i32::MIN <= region.origin_y * binning <= i32::MAX
    &&& i32::MIN <= region.width * binning <= i32::MAX
    &&& i32::MIN <= region.height * binning <= i32::MAX
}

/// A part of the image shown enlarged. Without any binning a color sensor's grid would show; it
/// is then binned away.
pub open spec fn closeup_of(
    region: Rectangle,
    detection: DetectResult,
    context: ServeContext,
) -> Closeup {
    let grid = detection.is_color && detection.camera_binning == 1 && context.detect_binning == 1;
    Closeup {
        rectangle: Rectangle {
            origin_x: (region.origin_x * detection.camera_binning) as i32,
            origin_y: (region.origin_y * detection.camera_binning) as i32,
            width: (region.width * detection.camera_binning) as i32,
            height: (region.height * detection.camera_binning) as i32,
        },
        binning_factor: if grid { 2 } else { detection.camera_binning as i32 },
        bin: grid,
    }
}

/// The closeup of a part of the image, where there is one.
pub open spec fn closeup_if(
    region: Option<Rectangle>,
    detection: DetectResult,
    context: ServeContext,
) -> Option<Closeup> {
    match region {
        Some(region) => Some(closeup_of(region, detection, context)),
        None => None,
    }
}

/// Decides how a part of the image is shown enlarged.
fn plan_closeup(region: Option<Rectangle>, detection: &DetectResult, context: &ServeContext) -> (r:
    Option<Closeup>)
    requires
        detection.camera_binning <= i32::MAX,
        region matches Some(region) ==> scales(region, detection.camera_binning as int),
    ensures
        r == closeup_if(region, *detection, *context),
{
    let factor: i32 = detection.camera_binning as i32;
    let grid: bool = detection.is_color && detection.camera_binning == 1 && context.detect_binning
        == 1;
    match region {
        Some(region) => Some(
            Closeup {
                rectangle: Rectangle {
                    origin_x: region.origin_x * factor,
                    origin_y: region.origin_y * factor,
                    width: region.width * factor,
                    height: region.height * factor,
                },
                binning_factor: if grid { 2 } else { factor },
                bin: grid,
            },
        ),
        None => None,
    }
}

/// A place of the captured image, in the rotated image and in sensor pixels.
pub open spec fn shown_place(
    place: ImageCoord,
    rotator: ImageRotator,
    width: int,
    height: int,
    binning: int,
) -> ImageCoord {
    let moved = rotator.to_rotated(place, width, height);
    ImageCoord { x: (moved.0 * binning) as i64, y: (moved.1 * binning) as i64 }
}

/// Carries a place of the captured image to the rotated image, in sensor pixels.
pub(crate) fn show_place(place: ImageCoord, rotator: &ImageRotator, width: u32, height: u32, binning: u32)
    -> (shown: ImageCoord)
    requires
        rotator.wf(),
        crate::image_utils::in_reach(place),
        binning <= 1000,
    ensures
        shown == shown_place(place, *rotator, width as int, height as int, binning as int),
{
    let moved: ImageCoord = rotator.transform_to_rotated(place, width, height);
    let factor: i64 = binning as i64;
    proof {
        lemma_scaled_coord(moved.x as int, factor as int);
        lemma_scaled_coord(moved.y as int, factor as int);
    }
    ImageCoord { x: moved.x * factor, y: moved.y * factor }
}

/// A rotated coordinate in sensor pixels stays within the range of its number.
proof fn lemma_scaled_coord(coord: int, factor: int)
    requires
        -9 * MAX_COORD <= coord <= 9 * MAX_COORD,
        0 <= factor <= 1000,
    ensures
        i64::MIN <= coord * factor <= i64::MAX,
{
    assert(-9_000_000_000_000_000_000 <= coord * factor <= 9_000_000_000_000_000_000)
        by (nonlinear_arith)
        requires
            -9_000_000_000_000_000 <= coord <= 9_000_000_000_000_000,
            0 <= factor <= 1000,
    ;
}

/// Whether a place of the rotated image lies within the central square.
pub open spec fn in_square(moved: (int, int), height: int) -> bool {
    &&& 0 <= moved.0 < height * 1_000_000
    &&& 0 <= moved.1 < height * 1_000_000
}

/// A slew as it is shown: its target where it lies in the rotated square, if it does, and its
/// direction turned with the image.
pub open spec fn turned_slew(
    slew: SlewRequest,
    rotator: ImageRotator,
    width: int,
    height: int,
    binning: int,
) -> SlewRequest {
    SlewRequest {
        image_pos: match slew.image_pos {
            Some(place) => if in_square(rotator.to_rotated(place, width, height), height) {
                Some(shown_place(place, rotator, width, height, binning))
            } else {
                None
            },
            None => None,
        },
        target_angle: crate::cedar::signed_remainder(slew.target_angle + rotator.angle) as i64,
        ..slew
    }
}

/// A slew with the turns of the mount that it asks for. An equatorial mount turns in right
/// ascension and declination, an alt-az mount in azimuth and altitude, where these are known.
pub open spec fn slew_with_offsets(
    slew: SlewRequest,
    boresight: CelestialCoord,
    mount_type: Option<MountType>,
    boresight_horizon: Option<Horizon>,
    target_horizon: Option<(i64, i64)>,
) -> SlewRequest {
    if mount_type == Some(MountType::Equatorial) {
        SlewRequest {
            offset_rotation_axis: Some(
                crate::cedar::shorter_way(slew.target.ra - boresight.ra) as i64,
            ),
            offset_tilt_axis: Some((slew.target.dec - boresight.dec) as i64),
            ..slew
        }
    } else {
        match (mount_type, boresight_horizon, target_horizon) {
            (Some(MountType::AltAz), Some(from), Some(to)) => SlewRequest {
                offset_rotation_axis: Some(crate::cedar::shorter_way(to.1 - from.azimuth) as i64),
                offset_tilt_axis: Some((to.0 - from.altitude) as i64),
                ..slew
            },
            _ => slew,
        }
    }
}

/// Whether a slew's numbers lie within the range that is dealt with.
pub open spec fn slew_in_reach(slew: SlewRequest) -> bool {
    &&& crate::cedar::angle_in_reach(slew.target.ra)
    &&& crate::cedar::angle_in_reach(slew.target.dec)
    &&& crate::cedar::angle_in_reach(slew.target_angle)
    &&& slew.image_pos matches Some(place) ==> crate::image_utils::in_reach(place)
}

/// Turns a slew with the image.
fn turn_slew(slew: SlewRequest, rotator: &ImageRotator, width: u32, height: u32, binning: u32)
    -> (shown: SlewRequest)
    requires
        rotator.wf(),
        crate::cedar::angle_in_reach(rotator.angle),
        slew_in_reach(slew),
        binning <= 1000,
    ensures
        shown == turned_slew(slew, *rotator, width as int, height as int, binning as int),
        crate::cedar::angle_in_reach(shown.target.ra),
        crate::cedar::angle_in_reach(shown.target.dec),
{
    let mut shown: SlewRequest = slew;
    if let Some(place) = slew.image_pos {
        let moved: ImageCoord = rotator.transform_to_rotated(place, width, height);
        let square_size: i64 = height as i64 * 1_000_000;
        if moved.x >= 0 && moved.x < square_size && moved.y >= 0 && moved.y < square_size {
            shown.image_pos = Some(show_place(place, rotator, width, height, binning));
        } else {
            shown.image_pos = None;
        }
    }
    shown.target_angle = remainder_angle(slew.target_angle + rotator.angle);
    shown
}

/// Adds the turns of the mount to a slew.
pub fn add_offsets(
    slew: SlewRequest,
    boresight: CelestialCoord,
    mount_type: Option<MountType>,
    boresight_horizon: Option<Horizon>,
    target_horizon: Option<(i64, i64)>,
) -> (shown: SlewRequest)
    requires
        crate::cedar::angle_in_reach(slew.target.ra),
        crate::cedar::angle_in_reach(slew.target.dec),
        crate::cedar::angle_in_reach(boresight.ra),
        crate::cedar::angle_in_reach(boresight.dec),
        boresight_horizon matches Some(from) ==> crate::cedar::angle_in_reach(from.azimuth)
            && crate::cedar::angle_in_reach(from.altitude),
        target_horizon matches Some(to) ==> crate::cedar::angle_in_reach(to.0)
            && crate::cedar::angle_in_reach(to.1),
    ensures
        shown == slew_with_offsets(
            slew,
            boresight,
            mount_type,
            boresight_horizon,
            target_horizon,
        ),
{
    let mut shown: SlewRequest = slew;
    match mount_type {
        Some(MountType::Equatorial) => {
            shown.offset_rotation_axis = Some(relative_angle(slew.target.ra, boresight.ra));
            shown.offset_tilt_axis = Some(slew.target.dec - boresight.dec);
        },
        Some(MountType::AltAz) => {
            if let (Some(from), Some(to)) = (boresight_horizon, target_horizon) {
                shown.offset_rotation_axis = Some(relative_angle(to.1, from.azimuth));
                shown.offset_tilt_axis = Some(to.0 - from.altitude);
            }
        },
        None => {},
    }
    shown
}

/// Catalog objects as they are shown.
pub open spec fn shown_entries(
    entries: Seq<FovCatalogEntry>,
    rotator: ImageRotator,
    width: int,
    height: int,
    binning: int,
) -> Seq<FovCatalogEntry> {
    Seq::new(
        entries.len(),
        |i: int|
            FovCatalogEntry {
                magnitude: entries[i].magnitude,
                image_pos: shown_place(entries[i].image_pos, rotator, width, height, binning),
            },
    )
}

/// Carries catalog objects to the rotated image.
pub(crate) fn show_entries(
    entries: &Option<Vec<FovCatalogEntry>>,
    rotator: &ImageRotator,
    width: u32,
    height: u32,
    binning: u32,
) -> (shown: Vec<FovCatalogEntry>)
    requires
        rotator.wf(),
        binning <= 1000,
        entries matches Some(entries) ==> entries_in_reach(entries@),
    ensures
        shown@ == (match *entries {
            Some(entries) => shown_entries(
                entries@,
                *rotator,
                width as int,
                height as int,
                binning as int,
            ),
            None => Seq::empty(),
        }),
{
    let mut shown: Vec<FovCatalogEntry> = Vec::new();
    if let Some(entries) = entries {
        let mut i: usize = 0;
        while i < entries.len()
            invariant
                i <= entries@.len(),
                rotator.wf(),
                binning <= 1000,
                entries_in_reach(entries@),
                shown@ == shown_entries(
                    entries@,
                    *rotator,
                    width as int,
                    height as int,
                    binning as int,
                ).take(i as int),
            decreases entries@.len() - i,
        {
            let entry: FovCatalogEntry = entries[i];
            let image_pos: ImageCoord = show_place(
                entry.image_pos,
                rotator,
                width,
                height,
                binning,
            );
            shown.push(FovCatalogEntry { magnitude: entry.magnitude, image_pos });
            i = i + 1;
            assert(shown@ =~= shown_entries(
                entries@,
                *rotator,
                width as int,
                height as int,
                binning as int,
            ).take(i as int));
        }
        assert(shown@ =~= shown_entries(
            entries@,
            *rotator,
            width as int,
            height as int,
            binning as int,
        ));
    }
    shown
}

/// Whether catalog objects lie within the range that is dealt with.
pub open spec fn entries_in_reach(entries: Seq<FovCatalogEntry>) -> bool {
    forall|i: int|
        0 <= i < entries.len() ==> crate::image_utils::in_reach(#[trigger] entries[i].image_pos)
}

/// Whether stars lie within the range that is dealt with.
pub open spec fn stars_in_reach(stars: Seq<StarCentroid>) -> bool {
    forall|i: int|
        0 <= i < stars.len() ==> crate::image_utils::in_reach(
            #[trigger] stars[i].centroid_position,
        )
}

/// Whether catalog stars lie within the range that is dealt with.
pub open spec fn catalog_in_reach(stars: Seq<CatalogStar>) -> bool {
    forall|i: int| 0 <= i < stars.len() ==> crate::image_utils::in_reach(#[trigger] stars[i].pixel)
}

/// Stars as they are shown.
pub open spec fn shown_stars(
    stars: Seq<StarCentroid>,
    rotator: ImageRotator,
    width: int,
    height: int,
    binning: int,
) -> Seq<StarCentroid> {
    Seq::new(
        stars.len(),
        |i: int|
            StarCentroid {
                centroid_position: shown_place(
                    stars[i].centroid_position,
                    rotator,
                    width,
                    height,
                    binning,
                ),
                ..stars[i]
            },
    )
}

/// Carries stars to the rotated image.
pub(crate) fn show_stars(
    stars: &Vec<StarCentroid>,
    rotator: &ImageRotator,
    width: u32,
    height: u32,
    binning: u32,
) -> (shown: Vec<StarCentroid>)
    requires
        rotator.wf(),
        binning <= 1000,
        stars_in_reach(stars@),
    ensures
        shown@ == shown_stars(stars@, *rotator, width as int, height as int, binning as int),
{
    let mut shown: Vec<StarCentroid> = Vec::new();
    let mut i: usize = 0;
    while i < stars.len()
        invariant
            i <= stars@.len(),
            rotator.wf(),
            binning <= 1000,
            stars_in_reach(stars@),
            shown@ == shown_stars(
                stars@,
                *rotator,
                width as int,
                height as int,
                binning as int,
            ).take(i as int),
        decreases stars@.len() - i,
    {
        let star: StarCentroid = stars[i];
        let centroid_position: ImageCoord = show_place(
            star.centroid_position,
            rotator,
            width,
            height,
            binning,
        );
        shown.push(
            StarCentroid {
                centroid_position,
                brightness: star.brightness,
                num_saturated: star.num_saturated,
            },
        );
        i = i + 1;
        assert(shown@ =~= shown_stars(
            stars@,
            *rotator,
            width as int,
            height as int,
            binning as int,
        ).take(i as int));
    }
    assert(shown@ =~= shown_stars(
        stars@,
        *rotator,
        width as int,
        height as int,
        binning as int,
    ));
    shown
}

/// Whether a place is no farther from the center of the image than half its height.
pub open spec fn near_center(place: ImageCoord, width: int, height: int) -> bool {
    let dx = width * 500_000 - place.x;
    let dy = height * 500_000 - place.y;
    dx * dx + dy * dy <= (height * 500_000) * (height * 500_000)
}

/// The brightness of a star of the catalog, where magnitude 6 counts as one.
pub open spec fn catalog_brightness<F: Fn(u64, i32, i32) -> u64>(scale: F, magnitude: i32) -> u64 {
    crate::astro_util::scaled(scale, 1000, 6000, magnitude)
}

/// The stars of the solver's catalog near the center of the image.
pub open spec fn catalog_centroids<F: Fn(u64, i32, i32) -> u64>(
    stars: Seq<CatalogStar>,
    width: int,
    height: int,
    scale: F,
) -> Seq<StarCentroid>
    decreases stars.len(),
{
    if stars.len() == 0 {
        Seq::empty()
    } else {
        let front = catalog_centroids(stars.drop_last(), width, height, scale);
        if near_center(stars.last().pixel, width, height) {
            front.push(
                StarCentroid {
                    centroid_position: stars.last().pixel,
                    brightness: catalog_brightness(scale, stars.last().magnitude),
                    num_saturated: 0,
                },
            )
        } else {
            front
        }
    }
}

/// Selects the stars of the solver's catalog near the center of the image.
fn select_catalog_stars<F: Fn(u64, i32, i32) -> u64>(
    stars: &Vec<CatalogStar>,
    width: u32,
    height: u32,
    scale: &F,
) -> (selected: Vec<StarCentroid>)
    requires
        crate::astro_util::is_scaling(*scale),
        catalog_in_reach(stars@),
    ensures
        selected@ == catalog_centroids(stars@, width as int, height as int, *scale),
        stars_in_reach(selected@),
{
    let mut selected: Vec<StarCentroid> = Vec::new();
    let mut i: usize = 0;
    while i < stars.len()
        invariant
            i <= stars@.len(),
            crate::astro_util::is_scaling(*scale),
            catalog_in_reach(stars@),
            selected@ == catalog_centroids(
                stars@.take(i as int),
                width as int,
                height as int,
                *scale,
            ),
            stars_in_reach(selected@),
        decreases stars@.len() - i,
    {
        let star: CatalogStar = stars[i];
        assert(stars@.take(i + 1).drop_last() =~= stars@.take(i as int));
        if is_near_center(star.pixel, width, height) {
            let brightness: u64 = scale(1000, 6000, star.magnitude);
            selected.push(
                StarCentroid { centroid_position: star.pixel, brightness, num_saturated: 0 },
            );
        }
        i = i + 1;
    }
    assert(stars@.take(stars@.len() as int) =~= stars@);
    selected
}

/// Whether a place is no farther from the center of the image than half its height.
fn is_near_center(place: ImageCoord, width: u32, height: u32) -> (near: bool)
    requires
        crate::image_utils::in_reach(place),
    ensures
        near == near_center(place, width as int, height as int),
{
    let dx: i128 = width as i128 * 500_000 - place.x as i128;
    let dy: i128 = height as i128 * 500_000 - place.y as i128;
    let half: i128 = height as i128 * 500_000;
    proof {
        lemma_square_bound(dx as int);
        lemma_square_bound(dy as int);
        lemma_square_bound(half as int);
    }
    dx * dx + dy * dy <= half * half
}

/// The square of a coordinate stays in bounds.
proof fn lemma_square_bound(a: int)
    requires
        -4 * MAX_COORD <= a <= 4 * MAX_COORD,
    ensures
        0 <= a * a <= 16_000_000_000_000_000_000_000_000_000_000,
{
    assert(0 <= a * a <= 16_000_000_000_000_000_000_000_000_000_000) by (nonlinear_arith)
        requires
            -4_000_000_000_000_000 <= a <= 4_000_000_000_000_000,
    ;
}

/// What the place of the observer adds to the solution of a frame, before it is rotated.
pub open spec fn plain_info(
    outcome: Option<PlateSolution>,
    boresight_horizon: Option<Horizon>,
) -> Option<LocationBasedInfo> {
    match (outcome, boresight_horizon) {
        (Some(outcome), Some(horizon)) => match outcome.solution {
            Some(solution) => Some(location_info(horizon, solution.roll as int)),
            None => None,
        },
        _ => None,
    }
}

/// Whether stars are chosen to align by: in setup mode, unless focusing.
pub open spec fn aligning(detection: DetectResult, context: ServeContext) -> bool {
    context.operating_mode == OperatingMode::Setup && detection.focus_aid is None
}

/// The stars to show, before they are carried to the rotated image: the detected ones, or those
/// of the solver's catalog to align by.
pub open spec fn stars_to_show<F: Fn(u64, i32, i32) -> u64>(
    detection: DetectResult,
    outcome: Option<PlateSolution>,
    align: bool,
    scale: F,
) -> Seq<StarCentroid> {
    let solution = match outcome {
        Some(outcome) => outcome.solution,
        None => None,
    };
    match solution {
        Some(solution) => if align {
            catalog_centroids(
                solution.catalog_stars@,
                detection.width as int,
                detection.height as int,
                scale,
            )
        } else {
            detection.star_candidates@
        },
        None => detection.star_candidates@,
    }
}

/// Where the telescope points in the captured image: at its center where nothing else is known.
pub open spec fn boresight_place(detection: DetectResult, context: ServeContext) -> ImageCoord {
    match context.boresight_pixel {
        Some(place) => place,
        None => ImageCoord {
            x: (detection.width * 500_000) as i64,
            y: (detection.height * 500_000) as i64,
        },
    }
}

/// The slew of a frame.
pub open spec fn frame_slew(
    detection: DetectResult,
    outcome: Option<PlateSolution>,
    context: ServeContext,
    boresight_horizon: Option<Horizon>,
    target_horizon: Option<(i64, i64)>,
    rotator: ImageRotator,
) -> Option<SlewRequest> {
    match outcome {
        Some(outcome) => match outcome.slew_request {
            Some(slew) => {
                let turned = turned_slew(
                    slew,
                    rotator,
                    detection.width as int,
                    detection.height as int,
                    detection.camera_binning as int,
                );
                match outcome.solution {
                    Some(solution) => Some(
                        slew_with_offsets(
                            turned,
                            boresight_of(solution),
                            context.mount_type,
                            boresight_horizon,
                            target_horizon,
                        ),
                    ),
                    None => Some(turned),
                }
            },
            None => None,
        },
        None => None,
    }
}

/// The catalog objects of a frame, from a list that may be missing.
pub open spec fn frame_entries(
    detection: DetectResult,
    entries: Option<Vec<FovCatalogEntry>>,
    rotator: ImageRotator,
) -> Seq<FovCatalogEntry> {
    match entries {
        Some(entries) => shown_entries(
            entries@,
            rotator,
            detection.width as int,
            detection.height as int,
            detection.camera_binning as int,
        ),
        None => Seq::empty(),
    }
}

/// The stars of a frame: carried to the rotated image, and joined by the labeled catalog objects
/// where they are chosen to align by.
pub open spec fn frame_stars<F: Fn(u64, i32, i32) -> u64>(
    detection: DetectResult,
    outcome: Option<PlateSolution>,
    context: ServeContext,
    rotator: ImageRotator,
    scale: F,
) -> Seq<StarCentroid> {
    let shown = shown_stars(
        stars_to_show(detection, outcome, aligning(detection, context), scale),
        rotator,
        detection.width as int,
        detection.height as int,
        detection.camera_binning as int,
    );
    if aligning(detection, context) {
        crate::astro_util::filled_in(
            shown,
            frame_entries(
                detection,
                match outcome {
                    Some(outcome) => outcome.fov_catalog_entries,
                    None => None,
                },
                rotator,
            ),
            scale,
        )
    } else {
        shown
    }
}

/// Whether a detection's numbers lie within the range that is dealt with.
pub open spec fn detection_in_reach(detection: DetectResult) -> bool {
    &&& 1 <= detection.camera_binning <= 1000
    &&& detection.width <= 2_000_000_000
    &&& detection.height <= 2_000_000_000
    &&& detection.height * detection.camera_binning <= i32::MAX
    &&& detection.width * detection.camera_binning <= u32::MAX
    &&& stars_in_reach(detection.star_candidates@)
    &&& detection.focus_aid matches Some(aid) ==> {
        &&& aid.center_peak_position matches Some(place) ==> crate::image_utils::in_reach(place)
        &&& aid.peak_image_region matches Some(region) ==> scales(
            region,
            detection.camera_binning as int,
        )
        &&& aid.daylight_focus_zoom_region matches Some(region) ==> scales(
            region,
            detection.camera_binning as int,
        )
    }
}

/// Whether a solver's numbers lie within the range that is dealt with.
pub open spec fn outcome_in_reach(outcome: PlateSolution, camera_binning: int) -> bool {
    &&& outcome.solution matches Some(solution) ==> {
        &&& crate::cedar::angle_in_reach(solution.roll)
        &&& crate::cedar::angle_in_reach(boresight_of(solution).ra)
        &&& crate::cedar::angle_in_reach(boresight_of(solution).dec)
        &&& catalog_in_reach(solution.catalog_stars@)
    }
    &&& outcome.slew_request matches Some(slew) ==> slew_in_reach(slew)
    &&& outcome.boresight_image_region matches Some(region) ==> scales(region, camera_binning)
    &&& outcome.fov_catalog_entries matches Some(entries) ==> entries_in_reach(entries@)
    &&& outcome.decrowded_fov_catalog_entries matches Some(entries) ==> entries_in_reach(entries@)
}

/// Whether the server's numbers lie within the range that is dealt with.
pub open spec fn context_in_reach(context: ServeContext, camera_binning: int) -> bool {
    &&& camera_binning * context.detect_binning * 2 <= u32::MAX
    &&& context.previous_rotator.wf()
    &&& crate::cedar::angle_in_reach(context.previous_rotator.angle)
    &&& context.boresight_pixel matches Some(place) ==> crate::image_utils::in_reach(place)
}

/// Whether the horizon's numbers lie within the range that is dealt with.
pub open spec fn horizon_in_reach(horizon: Option<Horizon>, target: Option<(i64, i64)>) -> bool {
    &&& horizon matches Some(from) ==> {
        &&& crate::cedar::angle_in_reach(from.zenith_position_angle)
        &&& crate::cedar::angle_in_reach(from.azimuth)
        &&& crate::cedar::angle_in_reach(from.altitude)
    }
    &&& target matches Some(to) ==> crate::cedar::angle_in_reach(to.0)
        && crate::cedar::angle_in_reach(to.1)
}

/// Whether two solutions say the same.
pub open spec fn is_same_solution(a: Solution, b: Solution) -> bool {
    &&& a.image_sky_coord == b.image_sky_coord
    &&& a.target_sky_coord@ == b.target_sky_coord@
    &&& a.roll == b.roll
    &&& a.catalog_stars@ == b.catalog_stars@
}

/// Whether a frame carries the solution of an outcome: the same one, and one exactly where there
/// is one.
pub open spec fn carries_solution(
    carried: Option<Solution>,
    outcome: Option<PlateSolution>,
) -> bool {
    match outcome {
        Some(outcome) => match outcome.solution {
            Some(solution) => carried is Some && is_same_solution(carried->0, solution),
            None => carried is None,
        },
        None => carried is None,
    }
}

/// Copies a solution.
pub(crate) fn copy_solution(solution: &Solution) -> (copied: Solution)
    ensures
        is_same_solution(copied, *solution),
{
    let mut target_sky_coord: Vec<CelestialCoord> = Vec::new();
    let mut i: usize = 0;
    while i < solution.target_sky_coord.len()
        invariant
            i <= solution.target_sky_coord@.len(),
            target_sky_coord@ == solution.target_sky_coord@.take(i as int),
        decreases solution.target_sky_coord@.len() - i,
    {
        target_sky_coord.push(solution.target_sky_coord[i]);
        i = i + 1;
        assert(target_sky_coord@ =~= solution.target_sky_coord@.take(i as int));
    }
    assert(target_sky_coord@ =~= solution.target_sky_coord@);
    let mut catalog_stars: Vec<CatalogStar> = Vec::new();
    let mut j: usize = 0;
    while j < solution.catalog_stars.len()
        invariant
            j <= solution.catalog_stars@.len(),
            catalog_stars@ == solution.catalog_stars@.take(j as int),
        decreases solution.catalog_stars@.len() - j,
    {
        catalog_stars.push(solution.catalog_stars[j]);
        j = j + 1;
        assert(catalog_stars@ =~= solution.catalog_stars@.take(j as int));
    }
    assert(catalog_stars@ =~= solution.catalog_stars@);
    Solution {
        image_sky_coord: solution.image_sky_coord,
        target_sky_coord,
        roll: solution.roll,
        catalog_stars,
    }
}

/// Whether a frame hands on what was measured and what the server is set to, as it is.
pub open spec fn hands_on(
    frame: ServeResult,
    detection: DetectResult,
    outcome: Option<PlateSolution>,
    context: ServeContext,
) -> bool {
    &&& frame.frame_id == detection.frame_id
    &&& frame.exposure_time == detection.exposure
    &&& frame.capture_time == detection.readout_time
    &&& frame.operating_mode == context.operating_mode
    &&& frame.focus_assist_mode == context.focus_assist_mode
    &&& frame.daylight_mode == detection.daylight_mode
    &&& frame.star_count_moving_average == detection.star_count_moving_average
    &&& frame.hot_pixel_count == Some(detection.hot_pixel_count)
    &&& frame.noise_estimate == detection.noise_estimate
    &&& frame.jpeg_quality == context.jpeg_quality
    &&& carries_solution(frame.plate_solution, outcome)
    &&& frame.calibration_data == context.calibration_data
    &&& frame.gyro_zero_bias == (match context.imu_calibration {
        Some(imu) => imu.zero_bias,
        None => None,
    })
    &&& frame.gyro_transform == (match context.imu_calibration {
        Some(imu) => imu.transform_calibration,
        None => None,
    })
    &&& frame.hot_pixel_map_count == (match context.hot_pixel_map {
        Some(map) => if map.is_ready {
            Some(map.count)
        } else {
            None
        },
        None => None,
    })
}

/// Whether a frame is the one that a detection and what the solver made of it ask for.
pub open spec fn is_frame<T: Fn(i64) -> (i64, i64), F: Fn(u64, i32, i32) -> u64>(
    frame: ServeResult,
    detection: DetectResult,
    outcome: Option<PlateSolution>,
    context: ServeContext,
    boresight_horizon: Option<Horizon>,
    target_horizon: Option<(i64, i64)>,
    trig: T,
    scale: F,
) -> bool {
    let info = plain_info(outcome, boresight_horizon);
    let rotator = frame_rotator(detection, context, info, trig);
    let aid = detection.focus_aid;
    &&& hands_on(frame, detection, outcome, context)
    &&& frame.location_based_info == rotated_info(detection, context, info)
    &&& frame.image_rotator == rotator
    &&& frame.display == display_plan(
        detection,
        detection.camera_binning as int,
        context.detect_binning as int,
        context.display_sampling,
    )
    &&& frame.center_peak_position == (match aid {
        Some(aid) => match aid.center_peak_position {
            Some(place) => Some(
                shown_place(
                    place,
                    rotator,
                    detection.width as int,
                    detection.height as int,
                    detection.camera_binning as int,
                ),
            ),
            None => None,
        },
        None => None,
    })
    &&& frame.center_peak_value == (match aid {
        Some(aid) => match aid.center_peak_value {
            Some(value) => Some(value as i32),
            None => None,
        },
        None => None,
    })
    &&& frame.center_peak_image == (match aid {
        Some(aid) => closeup_if(aid.peak_image_region, detection, context),
        None => None,
    })
    &&& frame.daylight_focus_zoom_image == (match aid {
        Some(aid) => closeup_if(aid.daylight_focus_zoom_region, detection, context),
        None => None,
    })
    &&& frame.image_rectangle == (Rectangle {
        origin_x: ((detection.width * detection.camera_binning) as u32 / 2 - (detection.height
            * detection.camera_binning) as u32 / 2) as i32,
        origin_y: 0,
        width: (detection.height * detection.camera_binning) as i32,
        height: (detection.height * detection.camera_binning) as i32,
    })
    &&& frame.slew_request == frame_slew(
        detection,
        outcome,
        context,
        boresight_horizon,
        target_horizon,
        rotator,
    )
    &&& frame.boresight_image == (match outcome {
        Some(outcome) => closeup_if(outcome.boresight_image_region, detection, context),
        None => None,
    })
    &&& frame.labeled_catalog_entries@ == frame_entries(
        detection,
        match outcome {
            Some(outcome) => outcome.fov_catalog_entries,
            None => None,
        },
        rotator,
    )
    &&& frame.unlabeled_catalog_entries@ == frame_entries(
        detection,
        match outcome {
            Some(outcome) => outcome.decrowded_fov_catalog_entries,
            None => None,
        },
        rotator,
    )
    &&& frame.boresight_position == shown_place(
        boresight_place(detection, context),
        rotator,
        detection.width as int,
        detection.height as int,
        detection.camera_binning as int,
    )
    &&& frame.star_candidates@ == frame_stars(detection, outcome, context, rotator, scale)
}

/// Collects the stars to show and carries them to the rotated image.
fn collect_stars<F: Fn(u64, i32, i32) -> u64>(
    detection: &DetectResult,
    outcome: &Option<PlateSolution>,
    align: bool,
    rotator: &ImageRotator,
    scale: &F,
) -> (shown: Vec<StarCentroid>)
    requires
        crate::astro_util::is_scaling(*scale),
        detection_in_reach(*detection),
        outcome matches Some(outcome) ==> outcome_in_reach(
            *outcome,
            detection.camera_binning as int,
        ),
        rotator.wf(),
    ensures
        shown@ == shown_stars(
            stars_to_show(*detection, *outcome, align, *scale),
            *rotator,
            detection.width as int,
            detection.height as int,
            detection.camera_binning as int,
        ),
{
    let width: u32 = detection.width;
    let height: u32 = detection.height;
    if let Some(outcome) = outcome {
        if let Some(solution) = &outcome.solution {
            if align {
                let stars: Vec<StarCentroid> = select_catalog_stars(
                    &solution.catalog_stars,
                    width,
                    height,
                    scale,
                );
                return show_stars(&stars, rotator, width, height, detection.camera_binning);
            }
        }
    }
    show_stars(&detection.star_candidates, rotator, width, height, detection.camera_binning)
}

/// Makes a frame of a detection and what the solver made of it. Places are carried to the rotated
/// image and to sensor pixels, which is what clients expect.
///
/// `trig` gives sine and cosine of an angle in billionths. `scale` gives the brightness of an
/// object of one magnitude, from that of another.
pub fn produce_serve_result<T: Fn(i64) -> (i64, i64), F: Fn(u64, i32, i32) -> u64>(
    detection: &DetectResult,
    outcome: &Option<PlateSolution>,
    context: &ServeContext,
    boresight_horizon: Option<Horizon>,
    target_horizon: Option<(i64, i64)>,
    trig: &T,
    scale: &F,
) -> (frame: ServeResult)
    requires
        is_trig(*trig),
        crate::astro_util::is_scaling(*scale),
        detection_in_reach(*detection),
        context_in_reach(*context, detection.camera_binning as int),
        outcome matches Some(outcome) ==> outcome_in_reach(
            *outcome,
            detection.camera_binning as int,
        ),
        horizon_in_reach(boresight_horizon, target_horizon),
    ensures
        is_frame(
            frame,
            *detection,
            *outcome,
            *context,
            boresight_horizon,
            target_horizon,
            *trig,
            *scale,
        ),
{
    let width: u32 = detection.width;
    let height: u32 = detection.height;
    let binning: u32 = detection.camera_binning;
    let display: DisplayPlan = plan_display(
        detection,
        binning,
        context.detect_binning,
        context.display_sampling,
    );
    let plate_solution: Option<Solution> = match outcome {
        Some(outcome) => match &outcome.solution {
            Some(solution) => Some(copy_solution(solution)),
            None => None,
        },
        None => None,
    };

    let mut info: Option<LocationBasedInfo> = None;
    if let Some(outcome) = outcome {
        if let (Some(solution), Some(horizon)) = (&outcome.solution, boresight_horizon) {
            info = Some(
                LocationBasedInfo {
                    zenith_roll_angle: normalize_angle(
                        horizon.zenith_position_angle + solution.roll,
                    ),
                    altitude: horizon.altitude,
                    azimuth: horizon.azimuth,
                    hour_angle: horizon.hour_angle,
                },
            );
        }
    }
    assert(info == plain_info(*outcome, boresight_horizon));
    let (rotator, location_based_info) = choose_rotator(detection, context, info, trig);

    let mut center_peak_position: Option<ImageCoord> = None;
    let mut center_peak_value: Option<i32> = None;
    let mut center_peak_image: Option<Closeup> = None;
    let mut daylight_focus_zoom_image: Option<Closeup> = None;
    if let Some(aid) = detection.focus_aid {
        if let Some(place) = aid.center_peak_position {
            center_peak_position = Some(show_place(place, &rotator, width, height, binning));
        }
        if let Some(value) = aid.center_peak_value {
            center_peak_value = Some(value as i32);
        }
        center_peak_image = plan_closeup(aid.peak_image_region, detection, context);
        daylight_focus_zoom_image = plan_closeup(
            aid.daylight_focus_zoom_region,
            detection,
            context,
        );
    }
    let image_rectangle: Rectangle = rotator.get_cropped_region(width * binning, height * binning);

    let mut slew_request: Option<SlewRequest> = None;
    let mut boresight_image: Option<Closeup> = None;
    let mut labeled_catalog_entries: Vec<FovCatalogEntry> = Vec::new();
    let mut unlabeled_catalog_entries: Vec<FovCatalogEntry> = Vec::new();
    if let Some(outcome) = outcome {
        if let Some(slew) = outcome.slew_request {
            let mut shown: SlewRequest = turn_slew(slew, &rotator, width, height, binning);
            if let Some(solution) = &outcome.solution {
                shown = add_offsets(
                    shown,
                    boresight_coords(solution),
                    context.mount_type,
                    boresight_horizon,
                    target_horizon,
                );
            }
            slew_request = Some(shown);
        }
        boresight_image = plan_closeup(outcome.boresight_image_region, detection, context);
        labeled_catalog_entries = show_entries(
            &outcome.fov_catalog_entries,
            &rotator,
            width,
            height,
            binning,
        );
        unlabeled_catalog_entries = show_entries(
            &outcome.decrowded_fov_catalog_entries,
            &rotator,
            width,
            height,
            binning,
        );
    }
    assert(slew_request == frame_slew(
        *detection,
        *outcome,
        *context,
        boresight_horizon,
        target_horizon,
        rotator,
    ));

    let boresight_position: ImageCoord = match context.boresight_pixel {
        Some(place) => place,
        None => ImageCoord { x: width as i64 * 500_000, y: height as i64 * 500_000 },
    };
    let boresight_position: ImageCoord = show_place(
        boresight_position,
        &rotator,
        width,
        height,
        binning,
    );

    let align: bool = context.operating_mode == OperatingMode::Setup
        && detection.focus_aid.is_none();
    let star_candidates: Vec<StarCentroid> = collect_stars(
        detection,
        outcome,
        align,
        &rotator,
        scale,
    );
    let star_candidates: Vec<StarCentroid> = if align {
        fill_in_detections(&star_candidates, &labeled_catalog_entries, scale)
    } else {
        star_candidates
    };

    ServeResult {
        frame_id: detection.frame_id,
        exposure_time: detection.exposure,
        capture_time: detection.readout_time,
        operating_mode: context.operating_mode,
        focus_assist_mode: context.focus_assist_mode,
        daylight_mode: detection.daylight_mode,
        star_count_moving_average: detection.star_count_moving_average,
        hot_pixel_count: Some(detection.hot_pixel_count),
        noise_estimate: detection.noise_estimate,
        jpeg_quality: context.jpeg_quality,
        plate_solution,
        calibration_data: context.calibration_data,
        gyro_zero_bias: match context.imu_calibration {
            Some(imu) => imu.zero_bias,
            None => None,
        },
        gyro_transform: match context.imu_calibration {
            Some(imu) => imu.transform_calibration,
            None => None,
        },
        hot_pixel_map_count: match context.hot_pixel_map {
            Some(map) => if map.is_ready {
                Some(map.count)
            } else {
                None
            },
            None => None,
        },
        location_based_info,
        image_rotator: rotator,
        display,
        center_peak_position,
        center_peak_value,
        center_peak_image,
        daylight_focus_zoom_image,
        image_rectangle,
        slew_request,
        boresight_image,
        labeled_catalog_entries,
        unlabeled_catalog_entries,
        boresight_position,
        star_candidates,
    }
}

/// A coordinate in micropixels as the nearest whole pixel; a half goes away from zero.
pub open spec fn nearest_pixel(coord: int) -> int {
    if coord >= 0 {
        (coord + 500_000) / 1_000_000
    } else {
        -((-coord + 500_000) / 1_000_000)
    }
}

/// The nearest whole pixel of a coordinate.
fn round_to_pixel(coord: i64) -> (pixel: i64)
    requires
        -9 * MAX_COORD <= coord <= 9 * MAX_COORD,
    ensures
        pixel == nearest_pixel(coord as int),
{
    if coord >= 0 {
        (coord + 500_000) / 1_000_000
    } else {
        -((-coord + 500_000) / 1_000_000)
    }
}

/// Where a hot pixel of the captured image appears in the rotated display image, which is
/// smaller by a factor.
pub open spec fn hot_pixel_place(
    hot_pixel: ImageCoord,
    rotator: ImageRotator,
    factor: int,
    width: int,
    height: int,
) -> (int, int) {
    let smaller = ImageCoord {
        x: (hot_pixel.x as int / factor) as i64,
        y: (hot_pixel.y as int / factor) as i64,
    };
    let moved = rotator.to_rotated(smaller, width / factor, height / factor);
    (nearest_pixel(moved.0), nearest_pixel(moved.1))
}

/// Whether an image is another with the hot pixel at a place repaired, if there is one: a place
/// outside the image or at its edge changes nothing.
pub open spec fn is_repaired_at(after: GrayImage, before: GrayImage, place: (int, int)) -> bool {
    if 0 < place.0 < before.width - 1 && 0 < place.1 < before.height - 1 {
        exists|a: int, b: int, c: int| #[trigger]
            is_repaired(after, before, place.0, place.1, a, b, c)
    } else {
        &&& after.width == before.width
        &&& after.height == before.height
        &&& after.pixels@ == before.pixels@
    }
}

/// Whether an image is another with hot pixels repaired one after the other.
pub open spec fn is_repaired_by_all(
    after: GrayImage,
    before: GrayImage,
    places: Seq<(int, int)>,
) -> bool
    decreases places.len(),
{
    if places.len() == 0 {
        after == before
    } else {
        exists|between: GrayImage|
            is_repaired_by_all(between, before, places.drop_last()) && #[trigger] is_repaired_at(
                after,
                between,
                places.last(),
            )
    }
}

/// One more repair after others.
proof fn lemma_one_more_repair(
    after: GrayImage,
    between: GrayImage,
    before: GrayImage,
    places: Seq<(int, int)>,
)
    requires
        places.len() > 0,
        is_repaired_by_all(between, before, places.drop_last()),
        is_repaired_at(after, between, places.last()),
    ensures
        is_repaired_by_all(after, before, places),
{
}

/// Where hot pixels of the captured image appear in the rotated display image.
pub open spec fn hot_pixel_places(
    hot_pixels: Seq<ImageCoord>,
    rotator: ImageRotator,
    factor: int,
    width: int,
    height: int,
) -> Seq<(int, int)> {
    Seq::new(
        hot_pixels.len(),
        |i: int| hot_pixel_place(hot_pixels[i], rotator, factor, width, height),
    )
}

/// Repairs in the rotated display image the hot pixels that are known of the captured one.
pub fn repair_hot_pixels(
    rotated: &mut GrayImage,
    hot_pixels: &Vec<ImageCoord>,
    rotator: &ImageRotator,
    factor: u32,
    width: u32,
    height: u32,
)
    requires
        old(rotated).wf(),
        rotator.wf(),
        factor > 0,
        forall|i: int|
            0 <= i < hot_pixels@.len() ==> crate::image_utils::in_reach(#[trigger] hot_pixels@[i]),
    ensures
        final(rotated).wf(),
        is_repaired_by_all(
            *final(rotated),
            *old(rotated),
            hot_pixel_places(
                hot_pixels@,
                *rotator,
                factor as int,
                width as int,
                height as int,
            ),
        ),
{
    let ghost places = hot_pixel_places(
        hot_pixels@,
        *rotator,
        factor as int,
        width as int,
        height as int,
    );
    let mut i: usize = 0;
    while i < hot_pixels.len()
        invariant
            i <= hot_pixels@.len(),
            rotated.wf(),
            rotator.wf(),
            factor > 0,
            forall|i: int|
                0 <= i < hot_pixels@.len() ==> crate::image_utils::in_reach(
                    #[trigger] hot_pixels@[i],
                ),
            places == hot_pixel_places(
                hot_pixels@,
                *rotator,
                factor as int,
                width as int,
                height as int,
            ),
            is_repaired_by_all(*rotated, *old(rotated), places.take(i as int)),
        decreases hot_pixels@.len() - i,
    {
        let ghost before = *rotated;
        let hot_pixel: ImageCoord = hot_pixels[i];
        let smaller: ImageCoord = ImageCoord {
            x: divide_coord(hot_pixel.x, factor),
            y: divide_coord(hot_pixel.y, factor),
        };
        let moved: ImageCoord = rotator.transform_to_rotated(
            smaller,
            width / factor,
            height / factor,
        );
        let rx: i64 = round_to_pixel(moved.x);
        let ry: i64 = round_to_pixel(moved.y);
        assert((rx as int, ry as int) == places[i as int]);
        if rx >= 0 && ry >= 0 && rx < rotated.width as i64 && ry < rotated.height as i64 {
            fix_hot_pixel(rotated, rx as u32, ry as u32);
        }
        proof {
            let longer = places.take(i + 1);
            assert(longer.drop_last() =~= places.take(i as int));
            assert(longer.last() == places[i as int]);
            assert(is_repaired_at(*rotated, before, places[i as int]));
            lemma_one_more_repair(*rotated, before, *old(rotated), longer);
        }
        i = i + 1;
    }
    assert(places.take(hot_pixels@.len() as int) =~= places);
}

/// Divides a coordinate by a factor, rounding down.
fn divide_coord(coord: i64, factor: u32) -> (divided: i64)
    requires
        factor > 0,
        -MAX_COORD <= coord <= MAX_COORD,
    ensures
        divided == coord as int / factor as int,
        -MAX_COORD <= divided <= MAX_COORD,
{
    let by: i64 = factor as i64;
    proof {
        vstd::arithmetic::div_mod::lemma_fundamental_div_mod(coord as int, by as int);
        vstd::arithmetic::div_mod::lemma_mod_bound(coord as int, by as int);
        let q = coord as int / by as int;
        assert(-MAX_COORD <= q <= MAX_COORD) by (nonlinear_arith)
            requires
                coord == by * q + coord as int % by as int,
                0 <= coord as int % (by as int) < by,
                -MAX_COORD <= coord <= MAX_COORD,
                by >= 1,
        ;
    }
    match coord.checked_div_euclid(by) {
        Some(divided) => divided,
        None => 0,
    }
}

/// Whether frames come straight from the detector: in setup mode while focusing or in daylight.
/// Otherwise they come from the solver.
pub fn polls_detector(operating_mode: OperatingMode, focus_assist_mode: bool, daylight_mode: bool)
    -> (detector: bool)
    ensures
        detector == (operating_mode == OperatingMode::Setup && (focus_assist_mode
            || daylight_mode)),
{
    operating_mode == OperatingMode::Setup && (focus_assist_mode || daylight_mode)
}

/// A display image is binned as often as the detector bins, unless there is a binned image already,
/// and sampled once more where that is wanted; a pixel of it then stands for as many of the sensor
/// as all of that makes. White goes down to a quarter with the sampling, and black is never above
/// it.
pub proof fn law_display_is_binned(
    detection: DetectResult,
    camera_binning: u32,
    detect_binning: u32,
    display_sampling: bool,
    plan: DisplayPlan,
)
    requires
        camera_binning * detect_binning * 2 <= u32::MAX,
        call_ensures(
            plan_display,
            (&detection, camera_binning, detect_binning, display_sampling),
            plan,
        ),
    ensures
        plan.sample == display_sampling && plan.use_binned == detection.has_binned_image,
        detection.has_binned_image || detect_binning <= 1 ==> plan.bins == 0,
        !detection.has_binned_image && detect_binning == 2 ==> plan.bins == 1,
        !detection.has_binned_image && detect_binning == 4 ==> plan.bins == 2,
        !display_sampling ==> plan.binning_factor == camera_binning * detect_binning
            && plan.peak_value == detection.peak_value,
        display_sampling ==> plan.binning_factor == 2 * (camera_binning * detect_binning) && 4
            * plan.peak_value <= detection.peak_value < 4 * plan.peak_value + 4,
        plan.black_level <= plan.peak_value,
        plan.black_level == detection.display_black_level || (plan.black_level == plan.peak_value
            && detection.display_black_level > plan.peak_value),
        detection.daylight_mode ==> plan.gamma == 1000,
        !detection.daylight_mode ==> plan.gamma == 700,
{
}

/// An equatorial mount turns in right ascension, the shorter way round, and in declination, by the
/// difference of the target and the boresight; an alt-azimuth mount does so in azimuth and
/// altitude, where these are known. Nothing else of the slew changes.
pub proof fn law_mount_turns_to_the_target(
    slew: SlewRequest,
    boresight: CelestialCoord,
    mount_type: Option<MountType>,
    from: Horizon,
    to: (i64, i64),
    shown: SlewRequest,
    unknown: SlewRequest,
)
    requires
        call_ensures(add_offsets, (slew, boresight, mount_type, Some(from), Some(to)), shown),
        call_ensures(
            add_offsets,
            (slew, boresight, mount_type, None::<Horizon>, None::<(i64, i64)>),
            unknown,
        ),
        0 <= slew.target.ra < 1_296_000_000_000,
        0 <= boresight.ra < 1_296_000_000_000,
        0 <= from.azimuth < 1_296_000_000_000,
        0 <= to.1 < 1_296_000_000_000,
        crate::cedar::angle_in_reach(slew.target.dec) && crate::cedar::angle_in_reach(
            boresight.dec,
        ) && crate::cedar::angle_in_reach(from.altitude) && crate::cedar::angle_in_reach(to.0),
    ensures
        shown.target == slew.target && shown.target_distance == slew.target_distance
            && shown.target_angle == slew.target_angle && shown.image_pos == slew.image_pos,
        mount_type == Some(MountType::Equatorial) ==> {
            &&& shown == unknown
            &&& shown.offset_tilt_axis == Some((slew.target.dec - boresight.dec) as i64)
            &&& shown.offset_rotation_axis matches Some(turn) && -648_000_000_000 <= turn
                <= 648_000_000_000 && (boresight.ra + turn - slew.target.ra) % 1_296_000_000_000
                == 0
        },
        mount_type == Some(MountType::AltAz) ==> {
            &&& unknown == slew
            &&& shown.offset_tilt_axis == Some((to.0 - from.altitude) as i64)
            &&& shown.offset_rotation_axis matches Some(turn) && -648_000_000_000 <= turn
                <= 648_000_000_000 && (from.azimuth + turn - to.1) % 1_296_000_000_000 == 0
        },
        mount_type is None ==> shown == slew && unknown == slew,
{
}

/// Where the zenith is known, the image is rotated so that it is up, or to the side on a display
/// that is higher than wide; what the place of the observer adds says so.
pub proof fn law_zenith_is_up_in_the_frame<
    T: Fn(i64) -> (i64, i64),
    F: Fn(u64, i32, i32) -> u64,
>(
    detection: DetectResult,
    outcome: Option<PlateSolution>,
    context: ServeContext,
    horizon: Horizon,
    target_horizon: Option<(i64, i64)>,
    trig: T,
    scale: F,
    frame: ServeResult,
    terms: (i64, i64),
)
    requires
        is_trig(trig),
        horizon_in_reach(Some(horizon), target_horizon),
        outcome matches Some(outcome) && outcome.solution is Some
            && crate::cedar::angle_in_reach(outcome.solution->0.roll),
        detection.focus_aid is None && !detection.daylight_mode,
        call_ensures(
            produce_serve_result::<T, F>,
            (&detection, &outcome, &context, Some(horizon), target_horizon, &trig, &scale),
            frame,
        ),
    ensures
        ({
            let roll = outcome->0.solution->0.roll;
            let angle = frame.image_rotator.angle;
            let up = horizon.zenith_position_angle + roll + angle;
            &&& context.landscape ==> up % 1_296_000_000_000 == 0
            &&& !context.landscape ==> up % 1_296_000_000_000 == 324_000_000_000
            &&& call_ensures(trig, (angle,), terms) ==> frame.image_rotator.sin_term == terms.0
                && frame.image_rotator.cos_term == terms.1
        }),
        frame.location_based_info matches Some(info) && {
            &&& info.zenith_roll_angle == (if context.landscape { 0int } else { 324_000_000_000 })
            &&& info.altitude == horizon.altitude && info.azimuth == horizon.azimuth
            &&& info.hour_angle == horizon.hour_angle
        },
{
    let n = horizon.zenith_position_angle + outcome->0.solution->0.roll;
    let turn = 1_296_000_000_000int;
    assert((n - n % turn) % turn == 0);
    assert((n + (324_000_000_000 - n % turn)) % turn == 324_000_000_000);
}

/// While focusing or in daylight the image stays as it is, and without a solution it is rotated as
/// the one before.
pub proof fn law_frames_without_zenith<
    T: Fn(i64) -> (i64, i64),
    F: Fn(u64, i32, i32) -> u64,
>(
    detection: DetectResult,
    outcome: Option<PlateSolution>,
    context: ServeContext,
    horizon: Option<Horizon>,
    target_horizon: Option<(i64, i64)>,
    trig: T,
    scale: F,
    frame: ServeResult,
)
    requires
        call_ensures(
            produce_serve_result::<T, F>,
            (&detection, &outcome, &context, horizon, target_horizon, &trig, &scale),
            frame,
        ),
    ensures
        detection.focus_aid is Some || detection.daylight_mode ==> frame.image_rotator == (
        ImageRotator { angle: 0, sin_term: 0, cos_term: 1_000_000_000 }),
        detection.focus_aid is None && !detection.daylight_mode && (horizon is None || outcome
            is None || outcome->0.solution is None) ==> frame.image_rotator
            == context.previous_rotator,
        horizon is None || outcome is None || outcome->0.solution is None
            ==> frame.location_based_info is None,
{
}

/// Places of a frame are those of the image, turned with it and counted in pixels of the sensor:
/// where the telescope points, which is the center where nothing else is known, the detected stars,
/// with their brightness, and the objects of the catalog, with their magnitude.
pub proof fn law_frame_turns_all_places<
    T: Fn(i64) -> (i64, i64),
    F: Fn(u64, i32, i32) -> u64,
>(
    detection: DetectResult,
    outcome: Option<PlateSolution>,
    context: ServeContext,
    horizon: Option<Horizon>,
    target_horizon: Option<(i64, i64)>,
    trig: T,
    scale: F,
    frame: ServeResult,
    place: ImageCoord,
    moved: ImageCoord,
    i: int,
)
    requires
        call_ensures(
            produce_serve_result::<T, F>,
            (&detection, &outcome, &context, horizon, target_horizon, &trig, &scale),
            frame,
        ),
        call_ensures(
            ImageRotator::transform_to_rotated,
            (&frame.image_rotator, place, detection.width, detection.height),
            moved,
        ),
    ensures
        ({
            let x = (moved.x * detection.camera_binning) as i64;
            let y = (moved.y * detection.camera_binning) as i64;
            let there = ImageCoord { x, y };
            &&& context.boresight_pixel == Some(place) ==> frame.boresight_position == there
            &&& context.boresight_pixel is None && place.x == 500_000 * detection.width && place.y
                == 500_000 * detection.height ==> frame.boresight_position == there
            &&& context.operating_mode is Operate ==> frame.star_candidates@.len()
                == detection.star_candidates@.len()
            &&& context.operating_mode is Operate && 0 <= i < detection.star_candidates@.len()
                && detection.star_candidates@[i].centroid_position == place
                ==> frame.star_candidates@[i].centroid_position == there
                && frame.star_candidates@[i].brightness == detection.star_candidates@[i].brightness
            &&& outcome matches Some(outcome) ==> (
            outcome.fov_catalog_entries matches Some(entries) ==> {
                &&& frame.labeled_catalog_entries@.len() == entries@.len()
                &&& 0 <= i < entries@.len() && entries@[i].image_pos == place
                    ==> frame.labeled_catalog_entries@[i].image_pos == there
                    && frame.labeled_catalog_entries@[i].magnitude == entries@[i].magnitude
            })
            &&& outcome matches Some(outcome) ==> (
            outcome.decrowded_fov_catalog_entries matches Some(entries) ==> {
                &&& frame.unlabeled_catalog_entries@.len() == entries@.len()
                &&& 0 <= i < entries@.len() && entries@[i].image_pos == place
                    ==> frame.unlabeled_catalog_entries@[i].image_pos == there
                    && frame.unlabeled_catalog_entries@[i].magnitude == entries@[i].magnitude
            })
            &&& detection.focus_aid matches Some(aid) ==> (aid.center_peak_position == Some(place)
                ==> frame.center_peak_position == Some(there))
        }),
{
}

/// The slew of a frame is turned with the image: its direction by the angle of the rotation, and
/// its target to where that is in the rotated square, if it is.
pub proof fn law_frame_turns_the_slew<
    T: Fn(i64) -> (i64, i64),
    F: Fn(u64, i32, i32) -> u64,
>(
    detection: DetectResult,
    outcome: PlateSolution,
    context: ServeContext,
    horizon: Option<Horizon>,
    target_horizon: Option<(i64, i64)>,
    trig: T,
    scale: F,
    frame: ServeResult,
    slew: SlewRequest,
    moved: ImageCoord,
)
    requires
        detection_in_reach(detection),
        slew_in_reach(slew),
        frame.image_rotator.wf(),
        crate::cedar::angle_in_reach(frame.image_rotator.angle),
        outcome.slew_request == Some(slew),
        slew.image_pos is Some,
        call_ensures(
            produce_serve_result::<T, F>,
            (&detection, &Some(outcome), &context, horizon, target_horizon, &trig, &scale),
            frame,
        ),
        call_ensures(
            ImageRotator::transform_to_rotated,
            (&frame.image_rotator, slew.image_pos->0, detection.width, detection.height),
            moved,
        ),
    ensures
        frame.slew_request matches Some(shown) && {
            let side = 1_000_000 * detection.height;
            let inside = 0 <= moved.x < side && 0 <= moved.y < side;
            &&& shown.target == slew.target && shown.target_distance == slew.target_distance
                && shown.target_catalog_entry == slew.target_catalog_entry
            &&& (shown.target_angle - slew.target_angle - frame.image_rotator.angle)
                % 1_296_000_000_000 == 0
            &&& -1_296_000_000_000 < shown.target_angle < 1_296_000_000_000
            &&& inside <==> shown.image_pos is Some
            &&& shown.image_pos matches Some(place) ==> place.x == (moved.x
                * detection.camera_binning) as i64 && place.y == (moved.y
                * detection.camera_binning) as i64
            &&& outcome.solution is None || context.mount_type is None ==> shown.offset_tilt_axis
                == slew.offset_tilt_axis
            &&& outcome.solution matches Some(solution) ==> (context.mount_type == Some(
                MountType::Equatorial,
            ) && solution.target_sky_coord@.len() > 0 ==> shown.offset_tilt_axis == Some(
                (slew.target.dec - solution.target_sky_coord@[0].dec) as i64,
            ))
        },
{
}

/// What is shown enlarged lies where it lies in the image, counted in pixels of the sensor. The
/// grid of a color sensor is binned away where nothing else bins. The frame itself is the square in
/// the middle of the sensor.
pub proof fn law_frame_shows_parts_of_the_sensor<
    T: Fn(i64) -> (i64, i64),
    F: Fn(u64, i32, i32) -> u64,
>(
    detection: DetectResult,
    outcome: PlateSolution,
    context: ServeContext,
    horizon: Option<Horizon>,
    target_horizon: Option<(i64, i64)>,
    trig: T,
    scale: F,
    frame: ServeResult,
    region: Rectangle,
)
    requires
        detection_in_reach(detection),
        scales(region, detection.camera_binning as int),
        call_ensures(
            produce_serve_result::<T, F>,
            (&detection, &Some(outcome), &context, horizon, target_horizon, &trig, &scale),
            frame,
        ),
    ensures
        ({
            let n = detection.camera_binning as int;
            let grid = detection.is_color && n == 1 && context.detect_binning == 1;
            let shown = Closeup {
                rectangle: Rectangle {
                    origin_x: (n * region.origin_x) as i32,
                    origin_y: (n * region.origin_y) as i32,
                    width: (n * region.width) as i32,
                    height: (n * region.height) as i32,
                },
                binning_factor: (if grid { 2 } else { n }) as i32,
                bin: grid,
            };
            &&& outcome.boresight_image_region == Some(region) ==> frame.boresight_image == Some(
                shown,
            )
            &&& outcome.boresight_image_region is None ==> frame.boresight_image is None
            &&& detection.focus_aid matches Some(aid) ==> {
                &&& aid.peak_image_region == Some(region) ==> frame.center_peak_image == Some(shown)
                &&& aid.daylight_focus_zoom_region == Some(region)
                    ==> frame.daylight_focus_zoom_image == Some(shown)
            }
            &&& detection.focus_aid is None ==> frame.center_peak_image is None
                && frame.daylight_focus_zoom_image is None && frame.center_peak_position is None
            &&& frame.image_rectangle.width == n * detection.height
                && frame.image_rectangle.height == n * detection.height
                && frame.image_rectangle.origin_y == 0
            &&& detection.height <= detection.width && n * detection.width <= i32::MAX ==> -1 <= 2
                * frame.image_rectangle.origin_x + n * detection.height - n * detection.width <= 1
        }),
{
    let n = detection.camera_binning as int;
    assert(n * region.origin_x == region.origin_x * n && n * region.origin_y == region.origin_y * n
        && n * region.width == region.width * n && n * region.height == region.height * n)
        by (nonlinear_arith);
    assert(n * detection.height == detection.height * n && n * detection.width == detection.width
        * n) by (nonlinear_arith);
    assert(detection.height <= detection.width ==> detection.height * n <= detection.width * n)
        by (nonlinear_arith)
        requires
            n >= 0,
    ;
    assert(detection.height * n >= 0 && detection.width * n >= 0) by (nonlinear_arith)
        requires
            n >= 0,
    ;
}

/// In setup mode, unless focusing, the stars of the solver's catalog are shown to align by: those
/// no farther from the center than half the height of the image, where the catalog is right and not
/// what was detected, as bright as their magnitude says. Here no objects join them.
pub proof fn law_align_by_the_catalog<
    T: Fn(i64) -> (i64, i64),
    F: Fn(u64, i32, i32) -> u64,
>(
    detection: DetectResult,
    outcome: PlateSolution,
    context: ServeContext,
    horizon: Option<Horizon>,
    target_horizon: Option<(i64, i64)>,
    trig: T,
    scale: F,
    frame: ServeResult,
    i: int,
    moved: ImageCoord,
    brightness: u64,
)
    requires
        crate::astro_util::is_scaling(scale),
        context.operating_mode is Setup,
        detection.focus_aid is None,
        outcome.fov_catalog_entries is None,
        outcome.solution is Some,
        0 <= i < outcome.solution->0.catalog_stars@.len(),
        call_ensures(
            produce_serve_result::<T, F>,
            (&detection, &Some(outcome), &context, horizon, target_horizon, &trig, &scale),
            frame,
        ),
        call_ensures(
            ImageRotator::transform_to_rotated,
            (
                &frame.image_rotator,
                outcome.solution->0.catalog_stars@[i].pixel,
                detection.width,
                detection.height,
            ),
            moved,
        ),
        call_ensures(
            scale,
            (1000u64, 6000i32, outcome.solution->0.catalog_stars@[i].magnitude),
            brightness,
        ),
    ensures
        ({
            let star = outcome.solution->0.catalog_stars@[i];
            let dx = star.pixel.x - 500_000 * detection.width;
            let dy = star.pixel.y - 500_000 * detection.height;
            let reach = 500_000 * detection.height;
            dx * dx + dy * dy <= reach * reach ==> frame.star_candidates@.contains(
                StarCentroid {
                    centroid_position: ImageCoord {
                        x: (moved.x * detection.camera_binning) as i64,
                        y: (moved.y * detection.camera_binning) as i64,
                    },
                    brightness,
                    num_saturated: 0,
                },
            )
        }),
        frame.star_candidates@.len() <= outcome.solution->0.catalog_stars@.len(),
{
    let stars = outcome.solution->0.catalog_stars@;
    let star = stars[i];
    let w = detection.width as int;
    let h = detection.height as int;
    let chosen = catalog_centroids(stars, w, h, scale);
    lemma_centroids_len(stars, w, h, scale);
    let shown = frame.star_candidates@;
    let before = shown_stars(
        chosen,
        frame.image_rotator,
        w,
        h,
        detection.camera_binning as int,
    );
    let none = Seq::<FovCatalogEntry>::empty();
    assert(crate::astro_util::reference(before, none) is None);
    assert(shown == before);
    let dx = star.pixel.x - 500_000 * w;
    let dy = star.pixel.y - 500_000 * h;
    let reach = 500_000 * h;
    if dx * dx + dy * dy <= reach * reach {
        assert((-dx) * (-dx) == dx * dx && (-dy) * (-dy) == dy * dy) by (nonlinear_arith);
        assert(near_center(star.pixel, w, h));
        lemma_centroid_is_chosen(stars, w, h, scale, i);
        let made = StarCentroid { centroid_position: star.pixel, brightness, num_saturated: 0 };
        let k = choose|k: int| 0 <= k < chosen.len() && chosen[k] == made;
        assert(shown[k].centroid_position == shown_place(
            star.pixel,
            frame.image_rotator,
            w,
            h,
            detection.camera_binning as int,
        ));
    }
}

/// No more stars of the catalog are shown than there are.
proof fn lemma_centroids_len<F: Fn(u64, i32, i32) -> u64>(
    stars: Seq<CatalogStar>,
    width: int,
    height: int,
    scale: F,
)
    ensures
        catalog_centroids(stars, width, height, scale).len() <= stars.len(),
    decreases stars.len(),
{
    if stars.len() > 0 {
        lemma_centroids_len(stars.drop_last(), width, height, scale);
    }
}

/// A star of the catalog near the center is among those to align by.
proof fn lemma_centroid_is_chosen<F: Fn(u64, i32, i32) -> u64>(
    stars: Seq<CatalogStar>,
    width: int,
    height: int,
    scale: F,
    i: int,
)
    requires
        0 <= i < stars.len(),
        near_center(stars[i].pixel, width, height),
    ensures
        catalog_centroids(stars, width, height, scale).contains(
            StarCentroid {
                centroid_position: stars[i].pixel,
                brightness: catalog_brightness(scale, stars[i].magnitude),
                num_saturated: 0,
            },
        ),
    decreases stars.len(),
{
    let front = stars.drop_last();
    let shorter = catalog_centroids(front, width, height, scale);
    let longer = catalog_centroids(stars, width, height, scale);
    let made = StarCentroid {
        centroid_position: stars[i].pixel,
        brightness: catalog_brightness(scale, stars[i].magnitude),
        num_saturated: 0,
    };
    if i < front.len() {
        assert(front[i] == stars[i]);
        lemma_centroid_is_chosen(front, width, height, scale, i);
        let k = choose|k: int| 0 <= k < shorter.len() && shorter[k] == made;
        assert(longer[k] == made);
    } else {
        assert(longer[longer.len() - 1] == made);
    }
}

/// A frame tells what was measured and what the server is set to; of a map of hot pixels only once
/// one can go by it.
pub proof fn law_frame_tells_what_was_measured<
    T: Fn(i64) -> (i64, i64),
    F: Fn(u64, i32, i32) -> u64,
>(
    detection: DetectResult,
    outcome: Option<PlateSolution>,
    context: ServeContext,
    horizon: Option<Horizon>,
    target_horizon: Option<(i64, i64)>,
    trig: T,
    scale: F,
    frame: ServeResult,
)
    requires
        call_ensures(
            produce_serve_result::<T, F>,
            (&detection, &outcome, &context, horizon, target_horizon, &trig, &scale),
            frame,
        ),
    ensures
        frame.frame_id == detection.frame_id && frame.exposure_time == detection.exposure
            && frame.capture_time == detection.readout_time && frame.noise_estimate
            == detection.noise_estimate && frame.hot_pixel_count == Some(detection.hot_pixel_count)
            && frame.daylight_mode == detection.daylight_mode,
        frame.operating_mode == context.operating_mode && frame.focus_assist_mode
            == context.focus_assist_mode && frame.jpeg_quality == context.jpeg_quality
            && frame.calibration_data == context.calibration_data,
        frame.plate_solution is Some <==> (outcome matches Some(outcome) && outcome.solution
            is Some),
        frame.plate_solution matches Some(solution) ==> solution.roll
            == outcome->0.solution->0.roll && solution.image_sky_coord
            == outcome->0.solution->0.image_sky_coord && solution.target_sky_coord@
            == outcome->0.solution->0.target_sky_coord@,
        frame.hot_pixel_map_count is Some <==> (context.hot_pixel_map matches Some(map)
            && map.is_ready),
        frame.hot_pixel_map_count matches Some(count) ==> count == context.hot_pixel_map->0.count,
        frame.gyro_zero_bias is Some ==> context.imu_calibration is Some && frame.gyro_zero_bias
            == context.imu_calibration->0.zero_bias,
{
}

/// The engine starts upright, keeps the rotation of the frame before whatever else is taken over,
/// and takes note of the one that it served.
pub proof fn law_engine_remembers_the_rotation(
    context: ServeContext,
    started: ServeEngine,
    updated: &mut ServeEngine,
    noted: &mut ServeEngine,
    detection: DetectResult,
    result: ServeResult,
    rotator: ImageRotator,
)
    requires
        call_ensures(ServeEngine::new, (context,), started),
        call_ensures(ServeEngine::update_context, (updated, context), ()),
        *old(noted) == *final(updated),
        call_ensures(ServeEngine::note_result, (noted, &detection, &result), ()),
        call_ensures(ServeEngine::image_rotator, (&*final(noted),), rotator),
    ensures
        started.context.previous_rotator == (ImageRotator {
            angle: 0,
            sin_term: 0,
            cos_term: 1_000_000_000,
        }) && started.frame_id is None && started.context.jpeg_quality == context.jpeg_quality,
        final(updated).context.previous_rotator == old(updated).context.previous_rotator,
        final(updated).context.jpeg_quality == context.jpeg_quality
            && final(updated).context.operating_mode == context.operating_mode
            && final(updated).context.landscape == context.landscape,
        final(updated).frame_id == old(updated).frame_id,
        rotator == result.image_rotator,
        final(noted).frame_id == Some(result.frame_id),
        result.center_peak_position is Some ==> final(noted).center_peak_position
            == result.center_peak_position,
        detection.focus_aid is None ==> final(noted).center_peak_position
            == result.center_peak_position,
        detection.focus_aid is Some && result.center_peak_position is None
            ==> final(noted).center_peak_position == old(noted).center_peak_position,
{
}

/// Frames come straight from the detector while the user focuses or in daylight, in setup mode, and
/// from the solver otherwise; the boresight of a solution is the first place that was asked for, or
/// else the center.
pub proof fn law_frames_come_from(
    operating_mode: OperatingMode,
    focus_assist_mode: bool,
    daylight_mode: bool,
    detector: bool,
    solution: Solution,
    coords: CelestialCoord,
)
    requires
        call_ensures(polls_detector, (operating_mode, focus_assist_mode, daylight_mode), detector),
        call_ensures(boresight_coords, (&solution,), coords),
    ensures
        operating_mode is Operate ==> !detector,
        operating_mode is Setup ==> (detector <==> focus_assist_mode || daylight_mode),
        solution.target_sky_coord@.len() == 0 ==> coords == solution.image_sky_coord,
        solution.target_sky_coord@.len() > 0 ==> coords == solution.target_sky_coord@[0],
{
}

/// Repairing a hot pixel changes nothing farther than a pixel away from it, and makes no pixel
/// brighter. At the edge of the image it changes nothing at all.
pub proof fn law_repair_stays_close(image: &mut GrayImage, rx: u32, ry: u32, x: int, y: int)
    requires
        old(image).wf(),
        rx < old(image).width,
        ry < old(image).height,
        0 <= x < old(image).width,
        0 <= y < old(image).height,
        call_ensures(fix_hot_pixel, (image, rx, ry), ()),
    ensures
        final(image).width == old(image).width && final(image).height == old(image).height,
        final(image).at(x, y) <= old(image).at(x, y),
        x > rx + 1 || x < rx - 1 || y > ry + 1 || y < ry - 1 ==> final(image).at(x, y)
            == old(image).at(x, y),
        rx == 0 || ry == 0 || rx + 1 == old(image).width || ry + 1 == old(image).height
            ==> final(image).at(x, y) == old(image).at(x, y),
{
    if rx > 0 && ry > 0 && rx + 1 < old(image).width && ry + 1 < old(image).height {
        let (a, b, c) = choose|a: int, b: int, c: int| #[trigger]
            is_repaired(*final(image), *old(image), rx as int, ry as int, a, b, c);
        law_repair_never_brightens(
            *final(image),
            *old(image),
            rx as int,
            ry as int,
            a,
            b,
            c,
            x,
            y,
        );
        assert(final(image).at(x, y) == repaired_pixel(
            *old(image),
            rx as int,
            ry as int,
            a,
            b,
            c,
            x,
            y,
        ));
    }
}

/// Where five of the eight pixels around a hot pixel are alike and the other three brighter, the
/// hot pixel took these three with it: all eight are alike afterwards, and the hot pixel is no
/// brighter than they are.
pub proof fn law_repair_takes_the_bright_ones(
    image: &mut GrayImage,
    rx: u32,
    ry: u32,
    v: u8,
    first: (int, int),
    second: (int, int),
    third: (int, int),
    x: int,
    y: int,
)
    requires
        old(image).wf(),
        0 < rx < old(image).width - 1,
        0 < ry < old(image).height - 1,
        first != second && first != third && second != third,
        is_next_to(first.0, first.1, rx as int, ry as int),
        is_next_to(second.0, second.1, rx as int, ry as int),
        is_next_to(third.0, third.1, rx as int, ry as int),
        old(image).at(first.0, first.1) > v,
        old(image).at(second.0, second.1) > v,
        old(image).at(third.0, third.1) > v,
        forall|i: int, j: int|
            is_next_to(i, j, rx as int, ry as int) && (i, j) != first && (i, j) != second && (i, j)
                != third ==> #[trigger] old(image).at(i, j) == v,
        is_next_to(x, y, rx as int, ry as int),
        call_ensures(fix_hot_pixel, (image, rx, ry), ()),
    ensures
        final(image).at(x, y) == v,
        old(image).at(rx as int, ry as int) > v ==> final(image).at(rx as int, ry as int) == v,
        old(image).at(rx as int, ry as int) <= v ==> final(image).at(rx as int, ry as int)
            == old(image).at(rx as int, ry as int),
{
    let cx = rx as int;
    let cy = ry as int;
    let before = *old(image);
    let (a, b, c) = choose|a: int, b: int, c: int| #[trigger]
        is_repaired(*final(image), before, cx, cy, a, b, c);
    let i = neighbor_index(first.0 - cx, first.1 - cy);
    let j = neighbor_index(second.0 - cx, second.1 - cy);
    let k = neighbor_index(third.0 - cx, third.1 - cy);
    assert forall|n: int| 0 <= n < 8 && n != i && n != j && n != k implies #[trigger] neighbor(
        before,
        cx,
        cy,
        n,
    ) == v by {
        assert(is_next_to(neighbor_x(cx, n), neighbor_y(cy, n), cx, cy));
        assert(neighbor(before, cx, cy, n) == before.at(neighbor_x(cx, n), neighbor_y(cy, n)));
    }
    lemma_bright_ones(before, cx, cy, v, i, j, k, a, b, c);
    let n = neighbor_index(x - cx, y - cy);
    assert(neighbor_x(cx, n) == x && neighbor_y(cy, n) == y);
    assert(neighbor(before, cx, cy, n) == before.at(x, y));
    assert(final(image).at(x, y) == repaired_pixel(before, cx, cy, a, b, c, x, y));
    assert(final(image).at(cx, cy) == repaired_pixel(before, cx, cy, a, b, c, cx, cy));
}

/// Whether a pixel is one of the eight around another.
pub open spec fn is_next_to(x: int, y: int, rx: int, ry: int) -> bool {
    &&& rx - 1 <= x <= rx + 1
    &&& ry - 1 <= y <= ry + 1
    &&& x != rx || y != ry
}

/// The three brightest of eight pixels are the three that are brighter than the other five, and the
/// mean without them is what those five are.
proof fn lemma_bright_ones(
    image: GrayImage,
    rx: int,
    ry: int,
    v: u8,
    i: int,
    j: int,
    k: int,
    a: int,
    b: int,
    c: int,
)
    requires
        0 <= i < 8 && 0 <= j < 8 && 0 <= k < 8,
        i != j && i != k && j != k,
        neighbor(image, rx, ry, i) > v,
        neighbor(image, rx, ry, j) > v,
        neighbor(image, rx, ry, k) > v,
        forall|n: int|
            0 <= n < 8 && n != i && n != j && n != k ==> #[trigger] neighbor(image, rx, ry, n) == v,
        are_brightest(image, rx, ry, a, b, c),
    ensures
        i == a || i == b || i == c,
        j == a || j == b || j == c,
        k == a || k == b || k == c,
        dim_mean(image, rx, ry, a, b, c) == v,
{
    assert(neighbor(image, rx, ry, a) >= v && neighbor(image, rx, ry, b) >= v && neighbor(
        image,
        rx,
        ry,
        c,
    ) >= v);
    if !(i == a || i == b || i == c) {
        assert(neighbor(image, rx, ry, a) > v && neighbor(image, rx, ry, b) > v && neighbor(
            image,
            rx,
            ry,
            c,
        ) > v);
    }
    if !(j == a || j == b || j == c) {
        assert(neighbor(image, rx, ry, a) > v && neighbor(image, rx, ry, b) > v && neighbor(
            image,
            rx,
            ry,
            c,
        ) > v);
    }
    if !(k == a || k == b || k == c) {
        assert(neighbor(image, rx, ry, a) > v && neighbor(image, rx, ry, b) > v && neighbor(
            image,
            rx,
            ry,
            c,
        ) > v);
    }
    let w = v as int;
    let e = Seq::new(8, |n: int| neighbor(image, rx, ry, n) - w);
    assert forall|n: int| 0 <= n < 8 && n != a && n != b && n != c implies #[trigger] e[n] == 0 by {
        assert(neighbor(image, rx, ry, n) == v);
    }
    lemma_only_three_count(e, a, b, c);
    let total = neighbor(image, rx, ry, 0) + neighbor(image, rx, ry, 1) + neighbor(image, rx, ry, 2)
        + neighbor(image, rx, ry, 3) + neighbor(image, rx, ry, 4) + neighbor(image, rx, ry, 5)
        + neighbor(image, rx, ry, 6) + neighbor(image, rx, ry, 7);
    assert(total == 8 * w + e[0] + e[1] + e[2] + e[3] + e[4] + e[5] + e[6] + e[7]);
}

/// The sum of eight numbers of which only three can differ from zero.
proof fn lemma_only_three_count(e: Seq<int>, a: int, b: int, c: int)
    requires
        e.len() == 8,
        0 <= a < 8 && 0 <= b < 8 && 0 <= c < 8,
        a != b && a != c && b != c,
        forall|n: int| 0 <= n < 8 && n != a && n != b && n != c ==> #[trigger] e[n] == 0,
    ensures
        e[0] + e[1] + e[2] + e[3] + e[4] + e[5] + e[6] + e[7] == e[a] + e[b] + e[c],
{
    let part = |k: int, n: int| if n == k { e[k] } else { 0int };
    assert(part(a, 0) + part(a, 1) + part(a, 2) + part(a, 3) + part(a, 4) + part(a, 5) + part(a, 6)
        + part(a, 7) == e[a]);
    assert(part(b, 0) + part(b, 1) + part(b, 2) + part(b, 3) + part(b, 4) + part(b, 5) + part(b, 6)
        + part(b, 7) == e[b]);
    assert(part(c, 0) + part(c, 1) + part(c, 2) + part(c, 3) + part(c, 4) + part(c, 5) + part(c, 6)
        + part(c, 7) == e[c]);
    assert(e[0] == part(a, 0) + part(b, 0) + part(c, 0));
    assert(e[1] == part(a, 1) + part(b, 1) + part(c, 1));
    assert(e[2] == part(a, 2) + part(b, 2) + part(c, 2));
    assert(e[3] == part(a, 3) + part(b, 3) + part(c, 3));
    assert(e[4] == part(a, 4) + part(b, 4) + part(c, 4));
    assert(e[5] == part(a, 5) + part(b, 5) + part(c, 5));
    assert(e[6] == part(a, 6) + part(b, 6) + part(c, 6));
    assert(e[7] == part(a, 7) + part(b, 7) + part(c, 7));
}

/// Which of the eight pixels around another lies in a direction, counted row by row.
spec fn neighbor_index(dx: int, dy: int) -> int {
    if dy == -1 {
        dx + 1
    } else if dy == 0 {
        if dx == -1 {
            3
        } else {
            4
        }
    } else {
        dx + 6
    }
}

/// Each setting of the engine changes what it says and nothing else.
pub proof fn law_settings_of_the_engine(
    rendered: &mut ServeEngine,
    landscape: bool,
    quality: u8,
    operated: &mut ServeEngine,
    mode: OperatingMode,
    focus: bool,
    daylight: bool,
    mounted: &mut ServeEngine,
    mount: Option<MountType>,
    engine: ServeEngine,
    peak: Option<ImageCoord>,
)
    requires
        call_ensures(ServeEngine::update_render_params, (rendered, landscape, quality), ()),
        call_ensures(
            ServeEngine::update_operation_settings,
            (operated, mode, focus, daylight),
            (),
        ),
        call_ensures(ServeEngine::update_preferences, (mounted, mount), ()),
        call_ensures(ServeEngine::center_peak_position, (&engine,), peak),
    ensures
        final(rendered).context.landscape == landscape && final(rendered).context.jpeg_quality
            == quality && final(rendered).context.operating_mode
                == old(rendered).context.operating_mode && final(rendered).context.mount_type
                == old(rendered).context.mount_type
            && final(rendered).context.previous_rotator == old(rendered).context.previous_rotator,
        final(operated).context.operating_mode == mode && final(operated).context.focus_assist_mode
            == focus && final(operated).context.daylight_mode == daylight
            && final(operated).context.landscape == old(operated).context.landscape
            && final(operated).context.mount_type == old(operated).context.mount_type,
        final(mounted).context.mount_type == mount && final(mounted).context.operating_mode
            == old(mounted).context.operating_mode && final(mounted).context.landscape
                == old(mounted).context.landscape,
        final(rendered).frame_id == old(rendered).frame_id && final(operated).frame_id
            == old(operated).frame_id && final(mounted).frame_id == old(mounted).frame_id,
        peak == engine.center_peak_position,
{
}

/// Repairing hot pixels one after the other makes no pixel brighter, and the image keeps its size.
proof fn lemma_repairs_never_brighten(
    after: GrayImage,
    before: GrayImage,
    places: Seq<(int, int)>,
    x: int,
    y: int,
)
    requires
        before.wf(),
        is_repaired_by_all(after, before, places),
        0 <= x < before.width,
        0 <= y < before.height,
    ensures
        after.wf(),
        after.width == before.width && after.height == before.height,
        after.at(x, y) <= before.at(x, y),
        (forall|i: int|
            0 <= i < places.len() ==> (#[trigger] places[i]).0 > x + 1 || places[i].0 < x - 1
                || places[i].1 > y + 1 || places[i].1 < y - 1) ==> after.at(x, y) == before.at(
            x,
            y,
        ),
    decreases places.len(),
{
    if places.len() > 0 {
        let between = choose|between: GrayImage|
            is_repaired_by_all(between, before, places.drop_last()) && #[trigger] is_repaired_at(
                after,
                between,
                places.last(),
            );
        let place = places.last();
        lemma_repairs_never_brighten(between, before, places.drop_last(), x, y);
        if 0 < place.0 < between.width - 1 && 0 < place.1 < between.height - 1 {
            let (a, b, c) = choose|a: int, b: int, c: int| #[trigger]
                is_repaired(after, between, place.0, place.1, a, b, c);
            law_repair_never_brightens(after, between, place.0, place.1, a, b, c, x, y);
            assert(after.at(x, y) == repaired_pixel(
                between,
                place.0,
                place.1,
                a,
                b,
                c,
                x,
                y,
            ));
        }
        if forall|i: int|
            0 <= i < places.len() ==> (#[trigger] places[i]).0 > x + 1 || places[i].0 < x - 1
                || places[i].1 > y + 1 || places[i].1 < y - 1 {
            assert(places[places.len() - 1] == place);
            assert forall|i: int| 0 <= i < places.drop_last().len() implies (
            #[trigger] places.drop_last()[i]).0 > x + 1 || places.drop_last()[i].0 < x - 1
                || places.drop_last()[i].1 > y + 1 || places.drop_last()[i].1 < y - 1 by {
                assert(places.drop_last()[i] == places[i]);
            }
        }
    }
}

/// Hot pixels are repaired where they are shown: rotated with the image, in its smaller pixels. No
/// pixel becomes brighter, and without hot pixels none changes.
pub proof fn law_hot_pixels_are_repaired_where_shown(
    rotated: &mut GrayImage,
    hot_pixels: Vec<ImageCoord>,
    rotator: ImageRotator,
    factor: u32,
    width: u32,
    height: u32,
    smaller: ImageCoord,
    moved: ImageCoord,
    x: int,
    y: int,
)
    requires
        old(rotated).wf(),
        factor > 0,
        hot_pixels@.len() <= 1,
        0 <= x < old(rotated).width,
        0 <= y < old(rotated).height,
        call_ensures(repair_hot_pixels, (rotated, &hot_pixels, &rotator, factor, width, height), ()),
        hot_pixels@.len() == 1 ==> smaller.x * factor <= hot_pixels@[0].x < (smaller.x + 1) * factor
            && smaller.y * factor <= hot_pixels@[0].y < (smaller.y + 1) * factor,
        call_ensures(
            ImageRotator::transform_to_rotated,
            (&rotator, smaller, width / factor, height / factor),
            moved,
        ),
    ensures
        final(rotated).width == old(rotated).width && final(rotated).height == old(rotated).height,
        final(rotated).at(x, y) <= old(rotated).at(x, y),
        hot_pixels@.len() == 0 ==> final(rotated).at(x, y) == old(rotated).at(x, y),
        moved.x >= 1_000_000 * x + 1_500_000 || moved.x < 1_000_000 * x - 1_500_000 || moved.y
            >= 1_000_000 * y + 1_500_000 || moved.y < 1_000_000 * y - 1_500_000
                ==> final(rotated).at(x, y) == old(rotated).at(x, y),
{
    let f = factor as int;
    let places = hot_pixel_places(hot_pixels@, rotator, f, width as int, height as int);
    if hot_pixels@.len() == 1 {
        let hot = hot_pixels@[0];
        let hx = hot.x as int;
        let hy = hot.y as int;
        let sx = smaller.x as int;
        let sy = smaller.y as int;
        assert(hx / f == sx) by (nonlinear_arith)
            requires
                f > 0,
                sx * f <= hx < (sx + 1) * f,
        ;
        assert(hy / f == sy) by (nonlinear_arith)
            requires
                f > 0,
                sy * f <= hy < (sy + 1) * f,
        ;
        assert(places[0] == hot_pixel_place(hot, rotator, f, width as int, height as int));
    }
    lemma_repairs_never_brighten(*final(rotated), *old(rotated), places, x, y);
}

} // verus!
