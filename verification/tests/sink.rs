use uefi_display::{Color, PixelFormat, Point, UefiDisplay, Unsupported};

/// A region filled with a sentinel byte, so untouched bytes are detectable.
fn sentinel_region(len: usize) -> Vec<u8> {
    vec![0xAA; len]
}

fn assert_untouched_except(d: &UefiDisplay, len: usize, written: &[usize]) {
    for i in 0..len {
        if !written.contains(&i) {
            assert_eq!(d.byte_at(i), 0xAA, "byte {} moved", i);
        }
    }
}

#[test]
fn write_then_read_back_rgb() {
    let mut d = UefiDisplay::new(sentinel_region(64), 0, 4, (4, 4));
    let r = d.draw_pixel(Point::new(1, 2), Color::new(1, 2, 3));
    assert_eq!(r, Ok(()));
    // offset (2*4+1)*4 = 36, bytes in R, G, B order
    assert_eq!(d.byte_at(36), 1);
    assert_eq!(d.byte_at(37), 2);
    assert_eq!(d.byte_at(38), 3);
    assert_untouched_except(&d, 64, &[36, 37, 38]);
}

#[test]
fn write_then_read_back_bgr() {
    let mut d = UefiDisplay::new(sentinel_region(64), 1, 4, (4, 4));
    let r = d.draw_pixel(Point::new(1, 2), Color::new(1, 2, 3));
    assert_eq!(r, Ok(()));
    // offset (2*4+1)*4 = 36, bytes in B, G, R order
    assert_eq!(d.byte_at(36), 3);
    assert_eq!(d.byte_at(37), 2);
    assert_eq!(d.byte_at(38), 1);
    assert_untouched_except(&d, 64, &[36, 37, 38]);
}

#[test]
fn end_to_end_red_pixel_bgr() {
    // 4x4 canvas, stride 4, BGR; red at (2,2) lands at (2*4+2)*4 = 40..43
    // as [0, 0, 255]; the other bytes of the 64-byte region stay put.
    let mut d = UefiDisplay::new(sentinel_region(64), 1, 4, (4, 4));
    let r = d.draw_pixel(Point::new(2, 2), Color::new(255, 0, 0));
    assert_eq!(r, Ok(()));
    assert_eq!(d.byte_at(40), 0);
    assert_eq!(d.byte_at(41), 0);
    assert_eq!(d.byte_at(42), 255);
    assert_untouched_except(&d, 64, &[40, 41, 42]);
}

#[test]
fn out_of_bounds_is_a_silent_no_op() {
    let mut d = UefiDisplay::new(sentinel_region(64), 0, 4, (4, 4));
    let c = Color::new(9, 9, 9);
    assert_eq!(d.draw_pixel(Point::new(-1, 0), c), Ok(()));
    assert_eq!(d.draw_pixel(Point::new(0, -1), c), Ok(()));
    assert_eq!(d.draw_pixel(Point::new(4, 0), c), Ok(()));
    assert_eq!(d.draw_pixel(Point::new(0, 4), c), Ok(()));
    assert_eq!(d.draw_pixel(Point::new(i32::MIN, i32::MAX), c), Ok(()));
    assert_untouched_except(&d, 64, &[]);
}

#[test]
fn stride_wider_than_width() {
    // width 2, stride 4: rows are padded; (1, 1) lands at (1*4+1)*4 = 20.
    let mut d = UefiDisplay::new(sentinel_region(64), 0, 4, (2, 4));
    assert_eq!(d.size(), (2, 4));
    let r = d.draw_pixel(Point::new(1, 1), Color::new(5, 6, 7));
    assert_eq!(r, Ok(()));
    assert_eq!(d.byte_at(20), 5);
    assert_eq!(d.byte_at(21), 6);
    assert_eq!(d.byte_at(22), 7);
    // (2, 1) is off screen even though its cell exists in the padding
    assert_eq!(d.draw_pixel(Point::new(2, 1), Color::new(9, 9, 9)), Ok(()));
    assert_untouched_except(&d, 64, &[20, 21, 22]);
}

#[test]
fn unrecognized_format_fails_every_draw() {
    let mut d = UefiDisplay::new(sentinel_region(64), 2, 4, (4, 4));
    let c = Color::new(1, 2, 3);
    assert_eq!(d.draw_pixel(Point::new(0, 0), c), Err(Unsupported));
    // even an off-screen point reports the format error
    assert_eq!(d.draw_pixel(Point::new(-5, 99), c), Err(Unsupported));
    let batch = vec![(Point::new(1, 1), c)];
    assert_eq!(d.draw(&batch), Err(Unsupported));
    assert_untouched_except(&d, 64, &[]);
}

#[test]
fn region_too_small_reports_unsupported() {
    // 4x4 geometry over a 10-byte region: (0, 0) fits, (3, 3) does not.
    let mut d = UefiDisplay::new(sentinel_region(10), 0, 4, (4, 4));
    assert_eq!(d.fb_len(), 10);
    assert_eq!(d.draw_pixel(Point::new(0, 0), Color::new(1, 2, 3)), Ok(()));
    assert_eq!(d.byte_at(0), 1);
    assert_eq!(d.draw_pixel(Point::new(3, 3), Color::new(1, 2, 3)), Err(Unsupported));
    assert_untouched_except(&d, 10, &[0, 1, 2]);
}

#[test]
fn batch_applies_around_an_out_of_bounds_pixel() {
    // pixel 1 of 3 is off screen: pixels 0 and 2 must still land.
    let mut d = UefiDisplay::new(sentinel_region(64), 0, 4, (4, 4));
    let batch = vec![
        (Point::new(0, 0), Color::new(10, 11, 12)),
        (Point::new(7, 7), Color::new(99, 99, 99)),
        (Point::new(3, 0), Color::new(20, 21, 22)),
    ];
    assert_eq!(d.draw(&batch), Ok(()));
    assert_eq!(d.byte_at(0), 10);
    assert_eq!(d.byte_at(1), 11);
    assert_eq!(d.byte_at(2), 12);
    assert_eq!(d.byte_at(12), 20);
    assert_eq!(d.byte_at(13), 21);
    assert_eq!(d.byte_at(14), 22);
    assert_untouched_except(&d, 64, &[0, 1, 2, 12, 13, 14]);
}

#[test]
fn batch_aborts_at_an_unsupported_pixel() {
    // 10-byte region: pixel 0 lands, pixel 1 is on screen but not
    // addressable, pixel 2 is never attempted.
    let mut d = UefiDisplay::new(sentinel_region(10), 0, 4, (4, 4));
    let batch = vec![
        (Point::new(0, 0), Color::new(1, 2, 3)),
        (Point::new(3, 3), Color::new(4, 5, 6)),
        (Point::new(1, 0), Color::new(7, 8, 9)),
    ];
    assert_eq!(d.draw(&batch), Err(Unsupported));
    assert_eq!(d.byte_at(0), 1);
    assert_eq!(d.byte_at(1), 2);
    assert_eq!(d.byte_at(2), 3);
    assert_untouched_except(&d, 10, &[0, 1, 2]);
}

#[test]
fn empty_batch_succeeds() {
    let mut d = UefiDisplay::new(sentinel_region(64), 0, 4, (4, 4));
    assert_eq!(d.draw(&Vec::new()), Ok(()));
    assert_untouched_except(&d, 64, &[]);
}

#[test]
fn size_reports_the_firmware_resolution() {
    let d = UefiDisplay::new(Vec::new(), 0, 1024, (800, 600));
    assert_eq!(d.size(), (800, 600));
    // an unrecognized tag does not disturb the geometry query
    let d2 = UefiDisplay::new(Vec::new(), 3, 1024, (800, 600));
    assert_eq!(d2.size(), (800, 600));
}

#[test]
fn overwriting_a_pixel_keeps_the_last_color() {
    let mut d = UefiDisplay::new(sentinel_region(64), 0, 4, (4, 4));
    assert_eq!(d.draw_pixel(Point::new(0, 0), Color::new(1, 1, 1)), Ok(()));
    assert_eq!(d.draw_pixel(Point::new(0, 0), Color::new(2, 3, 4)), Ok(()));
    assert_eq!(d.byte_at(0), 2);
    assert_eq!(d.byte_at(1), 3);
    assert_eq!(d.byte_at(2), 4);
    assert_untouched_except(&d, 64, &[0, 1, 2]);
}
