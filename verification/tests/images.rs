use condor_eye::capture::{full_screen_png, region_png, CaptureError, Region};

/// A `w` x `h` RGBA image whose pixel (x, y) is (x, y, 7, 255).
fn shot(w: u32, h: u32) -> Vec<u8> {
    let mut v = Vec::new();
    for y in 0..h {
        for x in 0..w {
            v.extend_from_slice(&[x as u8, y as u8, 7, 255]);
        }
    }
    v
}

fn decode(png: &[u8]) -> (u32, u32, Vec<u8>) {
    let img = image::load_from_memory_with_format(png, image::ImageFormat::Png)
        .expect("a PNG file")
        .to_rgba8();
    (img.width(), img.height(), img.into_raw())
}

#[test]
fn full_screen_encodes_the_pixels() {
    let png = full_screen_png(shot(3, 2), 3, 2).expect("encoded");
    assert_eq!(&png[1..4], b"PNG");
    assert_eq!(decode(&png), (3, 2, shot(3, 2)));
}

#[test]
fn full_screen_refuses_a_short_buffer() {
    match full_screen_png(vec![0; 7], 1, 2) {
        Err(CaptureError::EncodeFailed(m)) => assert_eq!(m, "Failed to create RGBA image"),
        other => panic!("unexpected {:?}", other),
    }
}

#[test]
fn region_is_cut_from_the_corner_and_clipped() {
    // A 4 x 3 screen placed at (100, 50); the region starts at (101, 51)
    // and reaches past the right and bottom edges.
    let screen = Region { x: 100, y: 50, width: 4, height: 3 };
    let png = region_png(shot(4, 3), 4, 3, screen, 101, 51, 10, 1).expect("encoded");
    let (w, h, px) = decode(&png);
    assert_eq!((w, h), (3, 1));
    assert_eq!(px, vec![1, 1, 7, 255, 2, 1, 7, 255, 3, 1, 7, 255]);
    let png = region_png(shot(4, 3), 4, 3, screen, 102, 50, 1, 3).expect("encoded");
    assert_eq!(decode(&png), (1, 3, vec![2, 0, 7, 255, 2, 1, 7, 255, 2, 2, 7, 255]));
}

#[test]
fn region_refuses_a_short_buffer() {
    let screen = Region { x: 0, y: 0, width: 4, height: 3 };
    match region_png(vec![0; 10], 4, 3, screen, 0, 0, 1, 1) {
        Err(CaptureError::EncodeFailed(m)) => {
            assert_eq!(m, "Failed to create RGBA image from buffer")
        }
        other => panic!("unexpected {:?}", other),
    }
}
