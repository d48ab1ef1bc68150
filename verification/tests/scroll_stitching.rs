use settings_app::scroll::{
    append_scroll_frame, compute_row_diff, find_scroll_offset, wheel_message_params, RgbaFrame,
    MIN_SCROLL_OFFSET, SCROLL_DELTA,
};

/// A frame whose row `y` has every channel of every pixel set to
/// `shade(y)`.
fn frame(width: u32, height: u32, shade: impl Fn(u32) -> u8) -> RgbaFrame {
    let mut data = Vec::new();
    for y in 0..height {
        for _ in 0..width {
            let v = shade(y);
            data.extend_from_slice(&[v, v, v, 255]);
        }
    }
    RgbaFrame::from_raw(width, height, data).unwrap()
}

/// A slow vertical gradient, as on a scrolling page.
fn stripes(y: u32) -> u8 {
    (y / 2) as u8
}

#[test]
fn raw_round_trip() {
    let data: Vec<u8> = (0..24).collect();
    let f = RgbaFrame::from_raw(3, 2, data.clone()).unwrap();
    assert_eq!(f.rows[1][0], 12);
    assert_eq!(f.into_raw(), data);
    assert!(RgbaFrame::from_raw(3, 2, vec![0; 23]).is_none());
}

#[test]
fn row_diff_samples_every_fourth_pixel() {
    let a = frame(8, 2, |_| 0);
    let mut b = frame(8, 2, |_| 0);
    // Pixel 1 is not sampled, pixel 4 is.
    b.rows[0][4] = 50;
    b.rows[0][16] = 10;
    b.rows[0][19] = 99;
    assert_eq!(compute_row_diff(&a, &b, 0, 0, 1, 8), 10);
    assert_eq!(compute_row_diff(&a, &b, 1, 1, 1, 8), 0);
    // Rows past the end of a frame are not counted.
    assert_eq!(compute_row_diff(&a, &b, 0, 0, 5, 8), 10);
}

#[test]
fn identical_frames_do_not_scroll() {
    let a = frame(16, 400, stripes);
    assert_eq!(find_scroll_offset(&a, &a, 400), 0);
    let mut long = frame(16, 400, stripes);
    assert_eq!(append_scroll_frame(&mut long, &a, &a), None);
    assert_eq!(long.height, 400);
}

#[test]
fn finds_the_scroll_offset() {
    let prev = frame(16, 400, stripes);
    let new = frame(16, 400, |y| stripes(y + 37));
    assert_eq!(find_scroll_offset(&prev, &new, 400), 37);
}

#[test]
fn appends_the_rows_scrolled_into_view() {
    let prev = frame(16, 400, stripes);
    let new = frame(16, 400, |y| stripes(y + 37));
    let mut long = frame(16, 400, stripes);
    assert_eq!(append_scroll_frame(&mut long, &prev, &new), Some(37));
    assert!(37 >= MIN_SCROLL_OFFSET);
    assert_eq!(long.height, 437);
    assert_eq!(long.width, 16);
    for y in 0..437u32 {
        assert_eq!(long.rows[y as usize][0], stripes(y), "row {}", y);
    }
}

#[test]
fn unrelated_frames_do_not_scroll() {
    let prev = frame(16, 400, |_| 0);
    let new = frame(16, 400, |_| 200);
    assert_eq!(find_scroll_offset(&prev, &new, 400), 0);
}

#[test]
fn small_frames_cannot_be_compared() {
    let a = frame(16, 3, stripes);
    assert_eq!(find_scroll_offset(&a, &a, 3), 0);
    let empty = frame(0, 400, stripes);
    assert_eq!(find_scroll_offset(&empty, &empty, 400), 0);
}

#[test]
fn wider_long_image_is_left_alone() {
    let prev = frame(16, 400, stripes);
    let new = frame(16, 400, |y| stripes(y + 37));
    let mut long = frame(20, 10, |_| 1);
    assert_eq!(append_scroll_frame(&mut long, &prev, &new), None);
    assert_eq!((long.width, long.height), (20, 10));
}

#[test]
fn narrower_long_image_is_widened_with_zeros() {
    let prev = frame(16, 400, stripes);
    let new = frame(16, 400, |y| stripes(y + 37));
    let mut long = frame(8, 2, |_| 9);
    assert_eq!(append_scroll_frame(&mut long, &prev, &new), Some(37));
    assert_eq!((long.width, long.height), (16, 39));
    assert_eq!(long.rows[0][0], 9);
    assert_eq!(long.rows[0][4 * 8], 0);
    assert_eq!(long.rows[2][0], stripes(400));
}

#[test]
fn frame_operations() {
    let mut big = RgbaFrame::new(4, 3);
    assert!(big.rows.iter().all(|r| r.len() == 16 && r.iter().all(|b| *b == 0)));
    let small = frame(2, 2, |y| 10 + y as u8);
    assert!(big.copy_from(&small, 2, 1));
    assert_eq!(big.rows[1][8], 10);
    assert_eq!(big.rows[2][12], 11);
    assert_eq!(big.rows[0][8], 0);
    assert!(!big.copy_from(&small, 3, 0));
    let part = big.crop(2, 1, 2, 2);
    assert_eq!(part.rows[0][0], 10);
    assert_eq!(part.rows[1][4], 11);
}

#[test]
fn wheel_parameters_pack_delta_and_position() {
    let (w, l) = wheel_message_params(SCROLL_DELTA, 100, 200);
    assert_eq!(w, 0xFE20_0000usize);
    assert_eq!(l, ((200isize) << 16) | 100);
    let (w, l) = wheel_message_params(1, -1, 3);
    assert_eq!(w, 120usize << 16);
    assert_eq!(l, (3isize << 16) | 0xFFFF);
}
