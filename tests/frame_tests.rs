use mandelbrot::config::{HEIGHT, MAX_ITERATIONS, WIDTH};
use mandelbrot::frame::{intensity, FrameBuffer};

#[test]
fn intensity_half_is_truncated() {
    assert_eq!(intensity(10, MAX_ITERATIONS), 127);
}

#[test]
fn intensity_zero_is_black() {
    assert_eq!(intensity(0, MAX_ITERATIONS), 0);
}

#[test]
fn intensity_cap_is_white() {
    assert_eq!(intensity(20, MAX_ITERATIONS), 255);
}

#[test]
fn intensity_large_cap_does_not_overflow() {
    assert_eq!(intensity(u32::MAX, u32::MAX), 255);
    assert_eq!(intensity(u32::MAX / 2, u32::MAX), 127);
}

#[test]
fn new_frame_is_black() {
    let f = FrameBuffer::new(WIDTH, HEIGHT);
    assert_eq!(f.width(), 400);
    assert_eq!(f.height(), 300);
    assert_eq!(f.bytes().len(), 400 * 300 * 3);
    assert!(f.bytes().iter().all(|b| *b == 0));
}

#[test]
fn empty_frame_has_no_bytes() {
    let f = FrameBuffer::new(0, 7);
    assert_eq!(f.bytes().len(), 0);
}

#[test]
fn offset_is_row_major() {
    let f = FrameBuffer::new(WIDTH, HEIGHT);
    assert_eq!(f.offset(0, 0), 0);
    assert_eq!(f.offset(1, 0), 3);
    assert_eq!(f.offset(0, 1), 1200);
    assert_eq!(f.offset(399, 299), 359_997);
}

#[test]
fn apply_result_writes_all_channels_of_one_pixel() {
    let mut f = FrameBuffer::new(4, 3);
    f.apply_result(2, 1, 10, 20);
    let b = f.bytes();
    let o = (1 * 4 + 2) * 3;
    assert_eq!(&b[o..o + 3], &[127, 127, 127]);
    for (i, v) in b.iter().enumerate() {
        if i < o || i >= o + 3 {
            assert_eq!(*v, 0);
        }
    }
}

#[test]
fn distinct_writes_leave_third_pixel_alone() {
    let mut f = FrameBuffer::new(4, 3);
    f.apply_result(3, 2, 7, 20);
    let third = f.bytes()[f.offset(3, 2)..f.offset(3, 2) + 3].to_vec();
    f.apply_result(0, 0, 20, 20);
    f.apply_result(1, 0, 5, 20);
    assert_eq!(&f.bytes()[f.offset(3, 2)..f.offset(3, 2) + 3], third.as_slice());
    assert_eq!(&f.bytes()[0..3], &[255, 255, 255]);
    assert_eq!(&f.bytes()[3..6], &[63, 63, 63]);
}

#[test]
fn distinct_writes_commute() {
    let mut a = FrameBuffer::new(5, 5);
    let mut b = FrameBuffer::new(5, 5);
    a.apply_result(1, 2, 3, 20);
    a.apply_result(4, 4, 17, 20);
    b.apply_result(4, 4, 17, 20);
    b.apply_result(1, 2, 3, 20);
    assert_eq!(a.bytes(), b.bytes());
}

#[test]
fn later_write_to_same_pixel_wins() {
    let mut f = FrameBuffer::new(2, 2);
    f.apply_result(1, 1, 20, 20);
    f.apply_result(1, 1, 0, 20);
    assert_eq!(&f.bytes()[9..12], &[0, 0, 0]);
}
