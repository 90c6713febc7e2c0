use image::{ImageFormat, RgbaImage};
use render_core::texture::{drop_alpha, flip_cols, flip_rows, Texture2D, TextureError};
use std::io::Cursor;

/// A 2x2 RGBA test image: distinct bytes everywhere, row-major from the
/// top-left pixel.
fn raw_2x2() -> Vec<u8> {
    vec![
        10, 11, 12, 255, 20, 21, 22, 254, // top row: two pixels
        30, 31, 32, 253, 40, 41, 42, 252, // bottom row: two pixels
    ]
}

fn png_bytes(w: u32, h: u32, raw: Vec<u8>) -> Vec<u8> {
    let img = RgbaImage::from_raw(w, h, raw).expect("raw buffer fits the dimensions");
    let mut out = Cursor::new(Vec::new());
    img.write_to(&mut out, ImageFormat::Png).expect("png encoding succeeds");
    out.into_inner()
}

#[test]
fn decoding_recovers_the_pixel_rows() {
    let bytes = png_bytes(2, 2, raw_2x2());
    // The input is a PNG stream, not raw pixels: equality below fails if
    // decoding handed its input back instead of decoding it.
    assert_ne!(bytes, raw_2x2());
    let t = Texture2D::from_encoded(&bytes, 0, true, false, false).unwrap();
    assert_eq!((t.width, t.height), (2, 2));
    assert_eq!(t.unit, 0);
    assert_eq!(t.pixels, raw_2x2());
}

#[test]
fn vertical_flips_are_row_reversed_copies_of_one_another() {
    let bytes = png_bytes(2, 2, raw_2x2());
    let plain = Texture2D::from_encoded(&bytes, 0, true, false, false).unwrap();
    let flipped = Texture2D::from_encoded(&bytes, 0, true, false, true).unwrap();
    let row_bytes = 2 * 4;
    let top = &plain.pixels[..row_bytes];
    let bottom = &plain.pixels[row_bytes..];
    let mut reversed = bottom.to_vec();
    reversed.extend_from_slice(top);
    assert_eq!(flipped.pixels, reversed);
}

#[test]
fn horizontal_flip_mirrors_each_row() {
    let bytes = png_bytes(2, 2, raw_2x2());
    let t = Texture2D::from_encoded(&bytes, 0, true, true, false).unwrap();
    assert_eq!(
        t.pixels,
        vec![
            20, 21, 22, 254, 10, 11, 12, 255, //
            40, 41, 42, 252, 30, 31, 32, 253,
        ]
    );
}

#[test]
fn opaque_textures_drop_the_alpha_channel() {
    let bytes = png_bytes(2, 2, raw_2x2());
    let t = Texture2D::from_encoded(&bytes, 1, false, false, false).unwrap();
    assert_eq!((t.width, t.height), (2, 2));
    assert_eq!(
        t.pixels,
        vec![10, 11, 12, 20, 21, 22, 30, 31, 32, 40, 41, 42]
    );
}

#[test]
fn undecodable_bytes_are_rejected() {
    let garbage = vec![0u8, 1, 2, 3, 4, 5, 6, 7];
    let r = Texture2D::from_encoded(&garbage, 0, true, false, false);
    assert_eq!(r.unwrap_err(), TextureError::DecodeFailed);
}

#[test]
fn sampler_policy_is_fixed() {
    let s = Texture2D::sampler_policy();
    assert!(s.generate_mipmaps);
    assert_eq!(s.wrap_s, s.wrap_t);
}

#[test]
fn row_flip_reverses_rows_in_place() {
    let p = vec![1u8, 2, 3, 4, 5, 6];
    assert_eq!(flip_rows(&p, 2, 3), vec![5, 6, 3, 4, 1, 2]);
}

#[test]
fn column_flip_reverses_pixels_within_rows() {
    // Two rows of three single-channel pixels.
    let p = vec![1u8, 2, 3, 4, 5, 6];
    assert_eq!(flip_cols(&p, 3, 1), vec![3, 2, 1, 6, 5, 4]);
    // One row of two two-channel pixels.
    let p = vec![1u8, 2, 3, 4];
    assert_eq!(flip_cols(&p, 2, 2), vec![3, 4, 1, 2]);
}

#[test]
fn alpha_drop_keeps_three_of_every_four_bytes() {
    let p = vec![1u8, 2, 3, 9, 4, 5, 6, 9];
    assert_eq!(drop_alpha(&p), vec![1, 2, 3, 4, 5, 6]);
}
