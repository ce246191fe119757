use pixel_canvas::canvas::{Canvas, Error};
use pixel_canvas::channel::{channel_to_flag, A, A_IDX, B, B_IDX, G, G_IDX, R, R_IDX};

#[test]
fn flags_match_indices() {
    assert_eq!(channel_to_flag(R_IDX), R);
    assert_eq!(channel_to_flag(G_IDX), G);
    assert_eq!(channel_to_flag(B_IDX), B);
    assert_eq!(channel_to_flag(A_IDX), A);
    assert_eq!(R, 1);
    assert_eq!(G, 2);
    assert_eq!(B, 4);
    assert_eq!(A, 8);
}

#[test]
fn new_is_zero_filled() {
    let c = Canvas::new(3, 2);
    assert_eq!(c.width(), 3);
    assert_eq!(c.height(), 2);
    let bytes = c.raw_bytes();
    assert_eq!(bytes.len(), 3 * 2 * 4);
    assert!(bytes.iter().all(|&b| b == 0));
}

#[test]
fn new_accepts_zero_dimensions() {
    let c = Canvas::new(0, 7);
    assert_eq!(c.width(), 0);
    assert_eq!(c.height(), 7);
    assert_eq!(c.raw_bytes().len(), 0);
}

#[test]
fn set_changes_exactly_masked_channels() {
    let mut c = Canvas::new(2, 2);
    // Pixel (1, 0) starts at byte 4; mask R | B selects bytes 4 and 6.
    assert_eq!(c.set(1, 0, R | B, 7), Ok(()));
    let bytes = c.raw_bytes();
    for (i, &b) in bytes.iter().enumerate() {
        if i == 4 || i == 6 {
            assert_eq!(b, 7);
        } else {
            assert_eq!(b, 0);
        }
    }
}

#[test]
fn set_with_empty_mask_changes_nothing() {
    let mut c = Canvas::new(2, 2);
    assert_eq!(c.set(0, 1, 0, 200), Ok(()));
    assert!(c.raw_bytes().iter().all(|&b| b == 0));
}

#[test]
fn set_same_value_to_all_channels() {
    let mut c = Canvas::new(1, 1);
    assert_eq!(c.set(0, 0, R | G | B | A, 42), Ok(()));
    assert_eq!(c.raw_bytes(), &[42, 42, 42, 42]);
}

#[test]
fn set_out_of_bounds_reports_violated_axes() {
    let mut c = Canvas::new(4, 3);
    assert_eq!(
        c.set(4, 0, R, 1),
        Err(Error::OutOfBounds { width: true, height: false })
    );
    assert_eq!(
        c.set(0, 3, R, 1),
        Err(Error::OutOfBounds { width: false, height: true })
    );
    assert_eq!(
        c.set(9, 9, R, 1),
        Err(Error::OutOfBounds { width: true, height: true })
    );
    assert!(c.raw_bytes().iter().all(|&b| b == 0));
}

#[test]
fn set_is_idempotent() {
    let mut once = Canvas::new(3, 3);
    let mut twice = Canvas::new(3, 3);
    assert_eq!(once.set(2, 1, R | A, 99), Ok(()));
    assert_eq!(twice.set(2, 1, R | A, 99), Ok(()));
    assert_eq!(twice.set(2, 1, R | A, 99), Ok(()));
    assert_eq!(once.raw_bytes(), twice.raw_bytes());
}

#[test]
fn set_rgb_writes_opaque_pixel() {
    let mut c = Canvas::new(2, 1);
    assert_eq!(c.set_rgb(1, 0, [10, 20, 30]), Ok(()));
    assert_eq!(c.raw_bytes(), &[0, 0, 0, 0, 10, 20, 30, 255]);
}

#[test]
fn set_rgb_forces_alpha_opaque() {
    let mut c = Canvas::new(1, 1);
    // Give the pixel a nonzero, non-opaque alpha first.
    assert_eq!(c.set(0, 0, A, 17), Ok(()));
    assert_eq!(c.set_rgb(0, 0, [1, 2, 3]), Ok(()));
    assert_eq!(c.raw_bytes(), &[1, 2, 3, 255]);
}

#[test]
fn set_rgb_out_of_bounds_reports_violated_axes() {
    let mut c = Canvas::new(2, 2);
    assert_eq!(
        c.set_rgb(2, 5, [1, 2, 3]),
        Err(Error::OutOfBounds { width: true, height: true })
    );
    assert!(c.raw_bytes().iter().all(|&b| b == 0));
}

#[test]
fn merge_copies_single_opaque_pixel() {
    let mut d = Canvas::new(4, 4);
    let mut s = Canvas::new(4, 4);
    assert_eq!(s.set_rgb(2, 1, [10, 20, 30]), Ok(()));
    assert_eq!(d.merge(&s), Ok(()));
    let bytes = d.raw_bytes();
    let base: usize = (1 * 4 + 2) * 4;
    for (i, &b) in bytes.iter().enumerate() {
        if i >= base && i < base + 4 {
            assert_eq!(b, [10, 20, 30, 255][i - base]);
        } else {
            assert_eq!(b, 0);
        }
    }
}

#[test]
fn merge_copies_alpha_verbatim() {
    let mut d = Canvas::new(1, 1);
    assert_eq!(d.set_rgb(0, 0, [9, 9, 9]), Ok(()));
    let mut s = Canvas::new(1, 1);
    // A translucent source pixel still replaces the destination, all four
    // bytes copied verbatim, alpha included.
    assert_eq!(s.set(0, 0, R | G | B | A, 5), Ok(()));
    assert_eq!(d.merge(&s), Ok(()));
    assert_eq!(d.raw_bytes(), &[5, 5, 5, 5]);
}

#[test]
fn merge_transparent_source_is_noop() {
    let mut d = Canvas::new(3, 2);
    assert_eq!(d.set_rgb(0, 0, [7, 8, 9]), Ok(()));
    assert_eq!(d.set(2, 1, G, 50), Ok(()));
    let before: Vec<u8> = d.raw_bytes().to_vec();
    let mut s = Canvas::new(3, 2);
    // Color without alpha: every source pixel keeps alpha zero.
    assert_eq!(s.set(1, 1, R | G | B, 123), Ok(()));
    assert_eq!(d.merge(&s), Ok(()));
    assert_eq!(d.raw_bytes(), &before[..]);
}

#[test]
fn merge_rejects_dimension_mismatch() {
    let mut d = Canvas::new(2, 2);
    assert_eq!(d.set_rgb(0, 0, [1, 2, 3]), Ok(()));
    let before: Vec<u8> = d.raw_bytes().to_vec();
    let narrow = Canvas::new(1, 2);
    let short = Canvas::new(2, 1);
    assert_eq!(d.merge(&narrow), Err(Error::DimensionMismatch));
    assert_eq!(d.merge(&short), Err(Error::DimensionMismatch));
    assert_eq!(d.raw_bytes(), &before[..]);
}

#[test]
fn merge_two_painted_canvases() {
    let mut a = Canvas::new(1024, 1024);
    assert_eq!(a.set_rgb(0, 0, [255, 255, 255]), Ok(()));
    let mut b = Canvas::new(1024, 1024);
    assert_eq!(b.set_rgb(0, 1, [255, 255, 255]), Ok(()));
    assert_eq!(b.merge(&a), Ok(()));
    let bytes = b.raw_bytes();
    let first: usize = 0;
    let second: usize = 1024 * 4;
    for (i, &v) in bytes.iter().enumerate() {
        if (i >= first && i < first + 4) || (i >= second && i < second + 4) {
            assert_eq!(v, 255);
        } else {
            assert_eq!(v, 0);
        }
    }
}

#[test]
fn clone_is_independent() {
    let mut original = Canvas::new(2, 2);
    assert_eq!(original.set_rgb(1, 1, [4, 5, 6]), Ok(()));
    let copy = original.clone();
    assert_eq!(copy.width(), 2);
    assert_eq!(copy.height(), 2);
    assert_eq!(copy.raw_bytes(), original.raw_bytes());
    assert_eq!(original.set(0, 0, R, 77), Ok(()));
    assert_eq!(copy.raw_bytes()[0], 0);
    assert_eq!(original.raw_bytes()[0], 77);
}

#[test]
fn image_view_matches_canvas() {
    let mut c = Canvas::new(3, 2);
    assert_eq!(c.set_rgb(2, 0, [11, 22, 33]), Ok(()));
    let view = c.as_image();
    assert_eq!(view.width(), 3);
    assert_eq!(view.height(), 2);
    assert_eq!(view.data(), c.raw_bytes());
}

#[test]
fn image_view_feeds_image_encoder() {
    let mut c = Canvas::new(2, 2);
    assert_eq!(c.set_rgb(1, 0, [10, 20, 30]), Ok(()));
    let view = c.as_image();
    let img: image::ImageBuffer<image::Rgba<u8>, &[u8]> =
        image::ImageBuffer::from_raw(view.width(), view.height(), view.data())
            .expect("the view holds exactly width * height * 4 bytes");
    assert_eq!(img.width(), 2);
    assert_eq!(img.height(), 2);
    assert_eq!(*img.get_pixel(1, 0), image::Rgba([10, 20, 30, 255]));
    assert_eq!(*img.get_pixel(0, 1), image::Rgba([0, 0, 0, 0]));
}
