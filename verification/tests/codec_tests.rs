//! The pixel codec: exact packed values and the quantization round trip.

use st7789volumio::codec::{pack_pixel, unpack_pixel, RgbaPixels, St7789Img};

#[test]
fn pack_known_values() {
    assert_eq!(pack_pixel(255, 255, 255), (0xff, 0xff));
    assert_eq!(pack_pixel(0, 0, 0), (0x00, 0x00));
    assert_eq!(pack_pixel(255, 0, 0), (0xf8, 0x00));
    assert_eq!(pack_pixel(0, 255, 0), (0x07, 0xe0));
    assert_eq!(pack_pixel(0, 0, 255), (0x00, 0x1f));
    // 176, 224, 255: r keeps its top five bits, g its top six, b its top
    // five.
    assert_eq!(pack_pixel(176, 224, 255), (0xb7, 0x1f));
}

#[test]
fn roundtrip_stays_within_quantization_step() {
    let samples: [u8; 8] = [0, 1, 4, 127, 128, 200, 254, 255];
    for &r in &samples {
        for &g in &samples {
            for &b in &samples {
                let (hi, lo) = pack_pixel(r, g, b);
                let (r2, g2, b2) = unpack_pixel(hi, lo);
                assert!((r2 as i32 - r as i32).abs() <= 4, "red off for {r}");
                assert!((g2 as i32 - g as i32).abs() <= 2, "green off for {g}");
                assert!((b2 as i32 - b as i32).abs() <= 4, "blue off for {b}");
            }
        }
    }
}

#[test]
fn rgba_pixels_rejects_wrong_length() {
    assert!(RgbaPixels::new(2, 2, vec![0; 15]).is_none());
    assert!(RgbaPixels::new(2, 2, vec![0; 17]).is_none());
    assert!(RgbaPixels::new(2, 2, vec![0; 16]).is_some());
}

#[test]
fn set_image_packs_every_pixel() {
    // A 2 x 2 image: red, green, blue, white, with alpha bytes that must
    // be ignored.
    let rgba: Vec<u8> = vec![
        255, 0, 0, 255, // red
        0, 255, 0, 0, // green, transparent
        0, 0, 255, 9, // blue
        255, 255, 255, 255, // white
    ];
    let img = RgbaPixels::new(2, 2, rgba).unwrap();
    let mut fb = St7789Img::new(2, 2);
    fb.set_image(&img);
    let b = fb.bytes();
    assert_eq!(b.as_slice(), &[0xf8, 0x00, 0x07, 0xe0, 0x00, 0x1f, 0xff, 0xff]);
}

#[test]
fn new_frame_buffer_is_zeroed() {
    let fb = St7789Img::new(3, 5);
    assert_eq!(fb.byte_len(), 30);
    assert!(fb.bytes().iter().all(|&x| x == 0));
}
