use blackout::raster::{bytes_from_pixels, pixels_from_bytes, threshold, Pixel, Raster};

fn px(r: u8, g: u8, b: u8) -> Pixel {
    Pixel { r, g, b }
}

#[test]
fn white_pixels_are_kept_and_everything_else_goes_black() {
    let pixels = vec![
        px(255, 255, 255),
        px(0, 0, 0),
        px(254, 255, 255),
        px(255, 254, 255),
        px(255, 255, 254),
        px(128, 64, 32),
        px(1, 1, 1),
    ];
    let img = Raster::new(7, 1, pixels).unwrap();
    let out = threshold(&img);
    assert_eq!(out.width, 7);
    assert_eq!(out.height, 1);
    assert_eq!(out.pixels[0], px(255, 255, 255));
    for i in 1..7 {
        assert_eq!(out.pixels[i], px(0, 0, 0));
    }
}

#[test]
fn thresholding_twice_equals_thresholding_once() {
    let pixels = vec![
        px(255, 255, 255),
        px(200, 200, 200),
        px(0, 255, 255),
        px(255, 255, 255),
        px(3, 7, 9),
        px(255, 0, 255),
    ];
    let img = Raster::new(2, 3, pixels).unwrap();
    let once = threshold(&img);
    let twice = threshold(&once);
    assert_eq!(once.width, twice.width);
    assert_eq!(once.height, twice.height);
    assert_eq!(once.pixels, twice.pixels);
}

#[test]
fn thresholding_is_deterministic() {
    let pixels = vec![px(17, 250, 255), px(255, 255, 255), px(0, 0, 1)];
    let a = threshold(&Raster::new(3, 1, pixels.clone()).unwrap());
    let b = threshold(&Raster::new(3, 1, pixels).unwrap());
    assert_eq!(a.pixels, b.pixels);
}

#[test]
fn raster_new_rejects_mismatched_dimensions() {
    let pixels = vec![px(0, 0, 0); 5];
    assert!(Raster::new(2, 3, pixels.clone()).is_none());
    assert!(Raster::new(5, 1, pixels).is_some());
}

#[test]
fn pixels_from_bytes_groups_channels() {
    let bytes = vec![1u8, 2, 3, 255, 255, 255, 9, 8, 7];
    let ps = pixels_from_bytes(&bytes).unwrap();
    assert_eq!(ps, vec![px(1, 2, 3), px(255, 255, 255), px(9, 8, 7)]);
}

#[test]
fn pixels_from_bytes_rejects_partial_pixels() {
    let bytes = vec![1u8, 2, 3, 4];
    assert!(pixels_from_bytes(&bytes).is_none());
}

#[test]
fn bytes_round_trip_through_pixels() {
    let bytes = vec![10u8, 20, 30, 255, 255, 255, 0, 0, 0, 40, 50, 60];
    let ps = pixels_from_bytes(&bytes).unwrap();
    let back = bytes_from_pixels(&ps);
    assert_eq!(back, bytes);
}
