use open_jsw::colours::{transparent, Rgba};
use open_jsw::image::{create_image_from_sprite_data, create_spritesheet, RgbaImage};
use open_jsw::Error;

const RED: Rgba = Rgba { r: 0xcd, g: 0, b: 0, a: 0xff };
const BLUE: Rgba = Rgba { r: 0, g: 0, b: 0xcd, a: 0xff };

fn solid(v: u8) -> RgbaImage {
    RgbaImage { width: 8, height: 8, pixels: vec![Rgba { r: v, g: v, b: v, a: 0xff }; 64] }
}

#[test]
fn sprite_bits_pick_foreground_msb_first() {
    let img = create_image_from_sprite_data(&[0b1000_0001, 0, 0, 0, 0, 0, 0, 0xff], RED, BLUE).unwrap();
    assert_eq!(img.width, 8);
    assert_eq!(img.height, 8);
    assert_eq!(img.pixels.len(), 64);
    assert_eq!(img.pixels[0], RED);
    assert_eq!(img.pixels[1], BLUE);
    assert_eq!(img.pixels[7], RED);
    assert_eq!(img.pixels[8], BLUE);
    assert!(img.pixels[56..64].iter().all(|p| *p == RED));
}

#[test]
fn short_bitmap_leaves_rows_transparent() {
    let img = create_image_from_sprite_data(&[0xff], RED, BLUE).unwrap();
    assert!(img.pixels[0..8].iter().all(|p| *p == RED));
    assert!(img.pixels[8..].iter().all(|p| *p == transparent()));
}

#[test]
fn long_bitmap_is_out_of_bounds() {
    let r = create_image_from_sprite_data(&[0u8; 9], RED, BLUE);
    assert!(matches!(r, Err(Error::IndexOutOfBounds { index: 64, length: 64 })));
}

#[test]
fn image_bytes_are_rgba_in_order() {
    let img = RgbaImage { width: 2, height: 1, pixels: vec![RED, BLUE] };
    assert_eq!(img.bytes(), vec![0xcd, 0, 0, 0xff, 0, 0, 0xcd, 0xff]);
}

#[test]
fn five_sprites_pack_into_a_32_pixel_sheet() {
    let images: Vec<RgbaImage> = (1..=5).map(|v| solid(v * 10)).collect();
    let sheet = create_spritesheet(&images);
    assert_eq!(sheet.width, 32);
    assert_eq!(sheet.height, 32);
    assert_eq!(sheet.pixels.len(), 32 * 32);
    assert_eq!(sheet.bytes().len(), 32 * 32 * 4);
    // sprite 0 at (0, 0), sprite 3 at (24, 0), sprite 4 at (0, 8)
    assert_eq!(sheet.pixels[0], images[0].pixels[0]);
    assert_eq!(sheet.pixels[24], images[3].pixels[0]);
    assert_eq!(sheet.pixels[8 * 32], images[4].pixels[0]);
    assert_eq!(sheet.pixels[15 * 32 + 7], images[4].pixels[63]);
    // the rest is transparent
    assert_eq!(sheet.pixels[8 * 32 + 8], transparent());
    assert_eq!(sheet.pixels[31 * 32 + 31], transparent());
}

#[test]
fn sheet_sizes_are_powers_of_two() {
    let one = create_spritesheet(&vec![solid(1)]);
    assert_eq!(one.width, 8);
    let four: Vec<RgbaImage> = (0..4).map(solid).collect();
    assert_eq!(create_spritesheet(&four).width, 16);
    let seventeen: Vec<RgbaImage> = (0..17).map(solid).collect();
    assert_eq!(create_spritesheet(&seventeen).width, 64);
    let none = create_spritesheet(&Vec::new());
    assert_eq!(none.width, 1);
    assert_eq!(none.pixels, vec![transparent()]);
}
