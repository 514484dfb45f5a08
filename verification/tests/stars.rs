//! Stars, images and rotation.

use cedar_server::astro_util::{
    fill_in_detections, FovCatalogEntry, ImageCoord, StarCentroid,
};
use cedar_server::image_utils::{
    compute_lut, jpeg_encode, normalize_rows_mut, scale_image, scale_image_mut, GrayImage,
    ImageRotator, TRIG_ONE,
};

fn is_close(a: f64, b: f64, epsilon: f64) -> bool {
    (a - b).abs() <= epsilon
}

fn at(x: f64, y: f64) -> ImageCoord {
    ImageCoord { x: (x * 1e6).round() as i64, y: (y * 1e6).round() as i64 }
}

fn star(x: f64, y: f64, brightness: u64) -> StarCentroid {
    StarCentroid { centroid_position: at(x, y), brightness: brightness * 1000, num_saturated: 0 }
}

/// The brightness of an object of one magnitude, from that of another.
fn scale(brightness: u64, from: i32, to: i32) -> u64 {
    (brightness as f64 * 2.512f64.powf((from - to) as f64 / 1000.0)).round() as u64
}

#[test]
fn test_fill_in_detections() {
    let detections = vec![
        // d1.
        star(12.0, 15.0, 1200),
        // d2.
        star(22.0, 35.0, 900),
        // d3.
        star(42.0, 350.0, 700),
    ];
    let catalog_entries = vec![
        FovCatalogEntry { magnitude: -1500, image_pos: at(50.0, 60.0) },
        // Match d2.
        FovCatalogEntry { magnitude: 2500, image_pos: at(21.5, 35.2) },
    ];

    let filled_in = fill_in_detections(&detections, &catalog_entries, &scale);
    assert_eq!(filled_in.len(), 4);

    let jupiter = &filled_in[0];
    assert_eq!(jupiter.centroid_position, at(50.0, 60.0));
    assert!(is_close(jupiter.brightness as f64 / 1000.0, 35836.0, 1.0));
    let d1 = &filled_in[1];
    assert_eq!(d1.centroid_position, at(12.0, 15.0));
    assert_eq!(d1.brightness, 1_200_000);
    let d2 = &filled_in[2];
    assert_eq!(d2.centroid_position, at(22.0, 35.0));
    assert_eq!(d2.brightness, 900_000);
    let d3 = &filled_in[3];
    assert_eq!(d3.centroid_position, at(42.0, 350.0));
    assert_eq!(d3.brightness, 700_000);
}

#[test]
fn without_reference_nothing_is_filled_in() {
    let detections = vec![star(1.0, 1.0, 5)];
    let entries = vec![FovCatalogEntry { magnitude: 1000, image_pos: at(500.0, 600.0) }];
    let filled = fill_in_detections(&detections, &entries, &scale);
    assert!(filled.contains(&detections[0]));
}

#[test]
fn stars_are_filled_in_once() {
    let detections = vec![star(1.0, 1.0, 5), star(70.0, 80.0, 9)];
    let entries = vec![
        FovCatalogEntry { magnitude: 1000, image_pos: at(70.0, 80.0) },
        FovCatalogEntry { magnitude: 3000, image_pos: at(500.0, 600.0) },
    ];
    let once = fill_in_detections(&detections, &entries, &scale);
    assert_eq!(once.len(), 3);
    assert_eq!(fill_in_detections(&once, &entries, &scale), once);
}

fn curve(above: u8, range: u8) -> u8 {
    (255 * above as u32 / range as u32) as u8
}

#[test]
fn pixels_are_scaled() {
    let lut = compute_lut(10, 110, &curve);
    assert_eq!((lut[9], lut[10], lut[60], lut[110], lut[255]), (0, 0, 127, 255, 255));
    let mut image = GrayImage { width: 3, height: 1, pixels: vec![5, 60, 200] };
    assert_eq!(scale_image(&image, 10, 110, &curve).pixels, vec![0, 127, 255]);
    scale_image_mut(&mut image, 10, 110, &curve);
    assert_eq!(image.pixels, vec![0, 127, 255]);
    // With white below black everything from black on is white.
    assert_eq!(compute_lut(10, 5, &curve)[10], 255);
}

#[test]
fn rows_touch_black() {
    let mut image = GrayImage { width: 2, height: 2, pixels: vec![5, 7, 9, 8] };
    normalize_rows_mut(&mut image);
    assert_eq!(image.pixels, vec![0, 2, 1, 0]);
}

#[test]
fn crops_the_central_square() {
    let image = GrayImage { width: 4, height: 2, pixels: vec![1, 2, 3, 4, 5, 6, 7, 8] };
    let rotator = ImageRotator::new(0, 0, TRIG_ONE);
    let cropped = rotator.crop(&image);
    assert_eq!((cropped.width, cropped.height), (2, 2));
    assert_eq!(cropped.pixels, vec![2, 3, 6, 7]);
    let region = rotator.get_cropped_region(4, 2);
    assert_eq!((region.origin_x, region.origin_y, region.width, region.height), (1, 0, 2, 2));
}

#[test]
fn rotation_is_undone() {
    let angle: f64 = 30.0;
    let (s, c) = angle.to_radians().sin_cos();
    let rotator = ImageRotator::new(
        (angle * 3.6e9) as i64,
        (s * 1e9).round() as i64,
        (c * 1e9).round() as i64,
    );
    let place = at(123.25, 45.5);
    let there = rotator.transform_to_rotated(place, 640, 480);
    let back = rotator.transform_from_rotated(there, 640, 480);
    assert!((back.x - place.x).abs() < 10 && (back.y - place.y).abs() < 10);
    // Two billionths of a thousand pixels, and one for the rounding.
    for degrees in 0..360 {
        let (s, c) = (degrees as f64).to_radians().sin_cos();
        let (s, c) = ((s * 1e9).round() as i64, (c * 1e9).round() as i64);
        let rotator = ImageRotator::new(degrees * 3_600_000_000, s, c);
        for place in [at(1.0, 2.0), at(1999.5, 3.25), at(1500.0, 1999.75)] {
            let there = rotator.transform_to_rotated(place, 2000, 2000);
            let back = rotator.transform_from_rotated(there, 2000, 2000);
            assert!((back.x - place.x).abs() <= 3 && (back.y - place.y).abs() <= 3);
        }
    }
    let upright = ImageRotator::new(0, 0, TRIG_ONE);
    let moved = upright.transform_to_rotated(place, 640, 480);
    assert_eq!((moved.x, moved.y), (place.x - 80_000_000, place.y));
}

#[test]
fn images_are_encoded_for_display() {
    let mut image = GrayImage { width: 32, height: 16, pixels: vec![20; 512] };
    for row in 0..16 {
        image.pixels[row * 32 + 16..row * 32 + 32].fill(60);
    }
    let curve = |above: u8, range: u8| (255 * above as u32 / range as u32) as u8;
    let jpeg = jpeg_encode(&image, 20, 60, &curve, 95).unwrap();
    assert_ne!(jpeg, image.pixels);
    let decoded = image::load_from_memory_with_format(&jpeg, image::ImageFormat::Jpeg);
    let decoded = decoded.unwrap().to_luma8();
    assert_eq!(decoded.dimensions(), (32, 16));
    // The range is stretched before the image is encoded.
    assert!(decoded.get_pixel(4, 8).0[0] <= 4 && decoded.get_pixel(28, 8).0[0] >= 251);
    assert_eq!(jpeg_encode(&image, 20, 60, &curve, 95), Some(jpeg.clone()));
    assert_ne!(jpeg_encode(&image, 20, 60, &curve, 5), Some(jpeg));
    let empty = GrayImage { width: 0, height: 16, pixels: vec![] };
    assert_eq!(jpeg_encode(&empty, 20, 60, &curve, 95), None);
    let long = GrayImage { width: 65_536, height: 1, pixels: vec![0; 65_536] };
    assert_eq!(jpeg_encode(&long, 20, 60, &curve, 95), None);
}
