use capture_pipeline::frame::{
    half_up, layout_fits_width, payload_len_of, Frame, Payload, PixelLayout,
};
use capture_pipeline::time::MonotonicInstant;

fn t0() -> MonotonicInstant {
    MonotonicInstant::from_nanos(7)
}

#[test]
fn packed_frame_needs_four_bytes_a_pixel() {
    let ok = Frame::new(3, 2, PixelLayout::PackedBGRA8, t0(), Payload::Bytes(vec![0; 24]));
    let f = ok.expect("24 bytes fit 3 by 2");
    assert_eq!(f.width(), 3);
    assert_eq!(f.height(), 2);
    assert_eq!(f.layout(), PixelLayout::PackedBGRA8);
    assert_eq!(f.capture_time(), t0());
    assert_eq!(f.payload(), &Payload::Bytes(vec![0; 24]));
    assert!(Frame::new(3, 2, PixelLayout::PackedBGRA8, t0(), Payload::Bytes(vec![0; 23])).is_none());
    assert!(Frame::new(3, 2, PixelLayout::PackedBGRA8, t0(), Payload::Bytes(vec![0; 25])).is_none());
    assert!(Frame::new(3, 2, PixelLayout::PackedBGRA8, t0(), Payload::Surface(1)).is_none());
}

#[test]
fn planar_frame_counts_both_planes() {
    // 5 by 3: luma stride 8, three rows; chroma stride 6, two rows
    let layout = PixelLayout::PlanarYCbCr { luma: 8, chroma: 6 };
    assert!(Frame::new(5, 3, layout, t0(), Payload::Bytes(vec![0; 36])).is_some());
    assert!(Frame::new(5, 3, layout, t0(), Payload::Bytes(vec![0; 35])).is_none());
    // luma stride below the width
    let narrow = PixelLayout::PlanarYCbCr { luma: 4, chroma: 6 };
    assert!(Frame::new(5, 3, narrow, t0(), Payload::Bytes(vec![0; 24])).is_none());
    // chroma stride below three pairs
    let thin = PixelLayout::PlanarYCbCr { luma: 8, chroma: 5 };
    assert!(Frame::new(5, 3, thin, t0(), Payload::Bytes(vec![0; 34])).is_none());
}

#[test]
fn surface_frame_carries_a_handle() {
    let f = Frame::new(1920, 1080, PixelLayout::OpaqueSurfaceHandle, t0(), Payload::Surface(42))
        .expect("a surface fits an opaque layout");
    assert_eq!(f.payload(), &Payload::Surface(42));
    assert!(Frame::new(1, 1, PixelLayout::OpaqueSurfaceHandle, t0(), Payload::Bytes(vec![]))
        .is_none());
}

#[test]
fn empty_pictures_are_frames() {
    assert!(Frame::new(0, 0, PixelLayout::PackedBGRA8, t0(), Payload::Bytes(vec![])).is_some());
    assert!(Frame::new(0, 9, PixelLayout::PackedBGRA8, t0(), Payload::Bytes(vec![])).is_some());
}

#[test]
fn payload_lengths() {
    assert_eq!(payload_len_of(PixelLayout::PackedBGRA8, 1440, 900), 5_184_000);
    assert_eq!(
        payload_len_of(PixelLayout::PlanarYCbCr { luma: 1440, chroma: 1440 }, 1440, 900),
        1_944_000
    );
    assert_eq!(payload_len_of(PixelLayout::PlanarYCbCr { luma: 8, chroma: 6 }, 5, 3), 36);
    assert_eq!(payload_len_of(PixelLayout::OpaqueSurfaceHandle, 5, 3), 0);
    assert_eq!(
        payload_len_of(PixelLayout::PackedBGRA8, u32::MAX, u32::MAX),
        4 * (u32::MAX as u128) * (u32::MAX as u128)
    );
}

#[test]
fn halves_round_up() {
    assert_eq!(half_up(0), 0);
    assert_eq!(half_up(1), 1);
    assert_eq!(half_up(2), 1);
    assert_eq!(half_up(5), 3);
    assert_eq!(half_up(u32::MAX), 2_147_483_648);
}

#[test]
fn strides_must_hold_a_row() {
    assert!(layout_fits_width(PixelLayout::PackedBGRA8, u32::MAX));
    assert!(layout_fits_width(PixelLayout::OpaqueSurfaceHandle, 77));
    assert!(layout_fits_width(PixelLayout::PlanarYCbCr { luma: 5, chroma: 6 }, 5));
    assert!(!layout_fits_width(PixelLayout::PlanarYCbCr { luma: 4, chroma: 6 }, 5));
    assert!(!layout_fits_width(PixelLayout::PlanarYCbCr { luma: 5, chroma: 5 }, 5));
    assert!(layout_fits_width(PixelLayout::PlanarYCbCr { luma: 4, chroma: 4 }, 4));
}
