use tapi::imaging::{
    preprocess_image, save_image_with_limit, RgbPicture, COMPRESSION_TARGET_BYTES, JPEG_QUALITY,
    MAX_HEIGHT, MAX_ROUNDS, MIN_DIMENSION,
};

fn noise(width: u32, height: u32) -> RgbPicture {
    let mut state: u32 = 12345;
    let mut data = Vec::with_capacity((width * height * 3) as usize);
    for _ in 0..width * height * 3 {
        state = state.wrapping_mul(1664525).wrapping_add(1013904223);
        data.push((state >> 24) as u8);
    }
    RgbPicture::new(width, height, data).unwrap()
}

#[test]
fn constants() {
    assert_eq!(COMPRESSION_TARGET_BYTES, 15518924);
    assert_eq!(COMPRESSION_TARGET_BYTES, (14.8f64 * 1024.0 * 1024.0) as u64);
    assert_eq!((JPEG_QUALITY, MIN_DIMENSION, MAX_HEIGHT), (85, 100, 2500));
    let mut side: u32 = 65535;
    let mut rounds = 0;
    while side * 9 / 10 >= MIN_DIMENSION {
        side = side * 9 / 10;
        rounds += 1;
    }
    assert_eq!(rounds, MAX_ROUNDS);
}

#[test]
fn a_picture_needs_three_bytes_for_every_pixel() {
    assert!(RgbPicture::new(2, 2, vec![0; 12]).is_some());
    assert!(RgbPicture::new(2, 2, vec![0; 11]).is_none());
    assert!(RgbPicture::new(2, 2, vec![0; 13]).is_none());
    assert!(RgbPicture::new(0, 7, Vec::new()).is_some());
    let p = RgbPicture::new(3, 1, vec![1, 2, 3, 4, 5, 6, 7, 8, 9]).unwrap();
    assert_eq!((p.width(), p.height()), (3, 1));
    assert_eq!(p.into_raw(), vec![1, 2, 3, 4, 5, 6, 7, 8, 9]);
}

#[test]
fn a_file_within_the_limit_is_written_at_once() {
    let out = save_image_with_limit(noise(200, 150), COMPRESSION_TARGET_BYTES).unwrap();
    assert_eq!(out.rounds, 0);
    assert_eq!((out.width, out.height), (200, 150));
    assert_eq!(&out.bytes[..2], &[0xff, 0xd8]);
    let decoded = image::load_from_memory(&out.bytes).unwrap();
    assert_eq!((decoded.width(), decoded.height()), (200, 150));
}

#[test]
fn a_file_over_the_limit_is_shrunk_by_tenths() {
    let whole = save_image_with_limit(noise(400, 300), u64::MAX).unwrap();
    let limit = (whole.bytes.len() as u64) * 2 / 3;
    let out = save_image_with_limit(noise(400, 300), limit).unwrap();
    assert!(out.rounds >= 1);
    assert!(out.bytes.len() as u64 <= limit);
    let decoded = image::load_from_memory(&out.bytes).unwrap();
    assert!(decoded.width() < 400 && decoded.height() < 300);
    assert!(decoded.width() >= 100 && decoded.height() >= 100);
    assert_eq!((out.width, out.height), (decoded.width(), decoded.height()));
}

#[test]
fn shrinking_stops_before_a_side_falls_under_a_hundred() {
    let out = save_image_with_limit(noise(400, 300), 10).unwrap();
    assert!(!out.bytes.is_empty());
    assert!(out.bytes.len() > 10);
    let decoded = image::load_from_memory(&out.bytes).unwrap();
    assert!(decoded.height() >= 100 && decoded.height() * 9 / 10 < 100);
    assert_eq!(out.rounds, 10);
    assert_eq!((out.width, out.height), (decoded.width(), decoded.height()));
    assert!(out.width <= 400 && out.height <= 300);
}

#[test]
fn a_small_picture_is_never_resized() {
    let out = save_image_with_limit(noise(110, 500), 10).unwrap();
    assert_eq!(out.rounds, 0);
    let decoded = image::load_from_memory(&out.bytes).unwrap();
    assert_eq!((decoded.width(), decoded.height()), (110, 500));
}

#[test]
fn the_encoder_refuses_an_empty_picture() {
    let empty = RgbPicture::new(0, 0, Vec::new()).unwrap();
    assert!(save_image_with_limit(empty, 1000).is_err());
}

fn fitted_width(width: u32, height: u32) -> u32 {
    if height > MAX_HEIGHT {
        (width as f32 * (MAX_HEIGHT as f32 / height as f32)) as u32
    } else {
        width
    }
}

fn fit(width: u32, height: u32) -> (u32, u32) {
    let fitted = preprocess_image(noise(width, height), fitted_width(width, height));
    (fitted.width(), fitted.height())
}

#[test]
fn a_tall_picture_is_fitted_to_the_height_limit() {
    assert_eq!(fit(100, 5000), (50, 2500));
    assert_eq!(fit(300, 2500), (300, 2500));
    assert_eq!(fit(10, 20), (10, 20));
    assert_eq!(fit(1, 5000), (1, 1));
    let nothing = preprocess_image(RgbPicture::new(0, 3000, Vec::new()).unwrap(), 0);
    assert_eq!((nothing.width(), nothing.height()), (1, 2500));
}

#[test]
fn the_fitted_width_is_the_bound_that_is_handed_in() {
    assert_eq!(fitted_width(69, 2875), 59);
    assert_eq!(fit(69, 2875), (59, 2458));
    assert_eq!(fitted_width(303, 3030), 249);
    assert_eq!(fit(303, 3030).0, 249);
    let other = preprocess_image(noise(69, 2875), 60);
    assert_eq!((other.width(), other.height()), (60, 2500));
    let wide = preprocess_image(noise(69, 2875), 5000);
    assert_eq!((wide.width(), wide.height()), (60, 2500));
}

#[test]
fn a_fitted_picture_is_within_its_bounds() {
    for (width, height) in [(7, 2501), (640, 4000), (2000, 2600), (33, 9000)] {
        let bound = fitted_width(width, height);
        let (w, h) = fit(width, height);
        assert!(1 <= w && 1 <= h && h <= MAX_HEIGHT && w <= width);
        if bound >= 1 {
            assert!(w <= bound);
        }
    }
}
