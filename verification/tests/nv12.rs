use nearscreen_receiver::decode::nv12::{to_rgb, Nv12Frame};

/// A frame of one colour, with padding after each row like a real decoder.
fn solid(width: u32, height: u32, y: u8, cb: u8, cr: u8) -> Nv12Frame {
    let stride = width as usize + 16;
    let mut data = vec![0u8; Nv12Frame::buffer_len(stride, height)];
    let split = stride * height as usize;
    data[..split].fill(y);
    for pair in data[split..].chunks_exact_mut(2) {
        pair[0] = cb;
        pair[1] = cr;
    }
    Nv12Frame {
        width,
        height,
        stride,
        data,
        pts_us: 0,
    }
}

#[test]
fn grey_stays_grey_and_white_stays_white() {
    assert_eq!(to_rgb(16, 128, 128), 0x000000);
    assert_eq!(to_rgb(235, 128, 128), 0xFFFFFF);
}

#[test]
fn colours_land_where_they_should() {
    // Limited-range BT.709 red, green and blue.
    let (r, g, b) = (
        to_rgb(63, 102, 240),
        to_rgb(173, 42, 26),
        to_rgb(32, 240, 118),
    );
    assert!(r >> 16 > 0xC0, "red channel dominates: {r:06X}");
    assert!((g >> 8) & 0xFF > 0xC0, "green channel dominates: {g:06X}");
    assert!(b & 0xFF > 0xC0, "blue channel dominates: {b:06X}");
}

#[test]
fn a_tall_picture_is_letterboxed_left_and_right() {
    // A phone screen (tall) in a wide window: bars on the sides.
    let frame = solid(100, 200, 235, 128, 128);
    let (dw, dh) = (400u32, 200u32);
    let mut dst = vec![0u32; (dw * dh) as usize];
    frame.blit_fit(&mut dst, dw, dh, 0x101010);

    let row = &dst[(dh as usize / 2) * dw as usize..][..dw as usize];
    assert_eq!(row[0], 0x101010, "left bar");
    assert_eq!(row[dw as usize - 1], 0x101010, "right bar");
    assert_eq!(row[dw as usize / 2], 0xFFFFFF, "picture in the middle");
    // 100x200 into 400x200 keeps its shape: a 100-wide picture centred.
    assert_eq!(row.iter().filter(|p| **p == 0xFFFFFF).count(), 100);
}

#[test]
fn a_wide_window_of_the_same_shape_has_no_bars() {
    let frame = solid(50, 100, 235, 128, 128);
    let (dw, dh) = (100u32, 200u32);
    let mut dst = vec![0u32; (dw * dh) as usize];
    frame.blit_fit(&mut dst, dw, dh, 0x101010);
    assert!(
        dst.iter().all(|p| *p == 0xFFFFFF),
        "the picture should fill a window of its own shape"
    );
}

#[test]
fn a_window_of_nothing_is_not_a_crash() {
    let frame = solid(8, 8, 128, 128, 128);
    let mut dst = vec![0u32; 0];
    frame.blit_fit(&mut dst, 0, 0, 0);
}

#[test]
fn colours_are_exact() {
    // 298 * (81 - 16) = 19370; the other terms by hand.
    assert_eq!(to_rgb(81, 90, 240), 0xFF1800);
    assert_eq!(to_rgb(0, 0, 0), 0x004D00);
    assert_eq!(to_rgb(255, 255, 255), 0xFFB7FF);
    assert_eq!(to_rgb(126, 128, 128), 0x808080);
}

#[test]
fn grey_has_three_equal_channels() {
    for y in 0..=255u8 {
        let pixel = to_rgb(y, 128, 128);
        assert_eq!(pixel >> 16, (pixel >> 8) & 0xFF);
        assert_eq!(pixel & 0xFF, (pixel >> 8) & 0xFF);
    }
}

#[test]
fn each_pixel_shows_its_own_sample() {
    // Four pixels in two rows, a padded row of three bytes, one pair of colours.
    let frame = Nv12Frame {
        width: 2,
        height: 2,
        stride: 3,
        data: vec![16, 235, 9, 126, 81, 9, 128, 128, 9],
        pts_us: 0,
    };
    let mut dst = vec![7u32; 5];
    frame.blit_fit(&mut dst, 2, 2, 0x123456);
    assert_eq!(dst, vec![0x000000, 0xFFFFFF, 0x808080, 0x4C4C4C, 7]);
    // Twice as wide a window: bars of one pixel left and right.
    let mut dst = vec![7u32; 8];
    frame.blit_fit(&mut dst, 4, 2, 0x123456);
    assert_eq!(
        dst,
        vec![
            0x123456, 0x000000, 0xFFFFFF, 0x123456, 0x123456, 0x808080, 0x4C4C4C, 0x123456
        ]
    );
}

#[test]
fn a_buffer_too_small_is_left_alone() {
    let frame = solid(8, 8, 128, 128, 128);
    let mut dst = vec![7u32; 15];
    frame.blit_fit(&mut dst, 4, 4, 0x101010);
    assert!(dst.iter().all(|p| *p == 7));
}

#[test]
fn a_picture_of_nothing_is_background() {
    let mut frame = solid(8, 8, 128, 128, 128);
    frame.width = 0;
    let mut dst = vec![7u32; 17];
    frame.blit_fit(&mut dst, 4, 4, 0x101010);
    assert!(dst[..16].iter().all(|p| *p == 0x101010));
    assert_eq!(dst[16], 7);
}

#[test]
fn a_picture_that_is_cut_short_is_black_at_its_end() {
    let frame = Nv12Frame {
        width: 2,
        height: 2,
        stride: 2,
        data: vec![235, 235],
        pts_us: 0,
    };
    let mut dst = vec![7u32; 4];
    frame.blit_fit(&mut dst, 2, 2, 0);
    assert_eq!(dst, vec![0xFFFFFF, 0xFFFFFF, 0, 0]);
}

#[test]
fn buffers_hold_both_planes() {
    assert_eq!(Nv12Frame::buffer_len(832, 1792), 832 * 1792 + 832 * 896);
    assert_eq!(Nv12Frame::buffer_len(3, 3), 13);
}
