use eadkp::image::encode_eif1;
use eadkp::{Image, EIF1_MAGIC_NUMBER};

#[test]
fn encode_produces_exact_layout() {
    let pixels = [(255u8, 0u8, 0u8, 255u8), (0, 0, 0, 0)];
    let bytes = encode_eif1(2, 1, &pixels);
    let expected = [
        0x45, 0x49, 0x46, 0x31, // "EIF1"
        2, 0, // width
        1, 0, // height
        0x00, 0xF8, // opaque red: RGB565 0xF800
        0xFF, 0xFF, // fully transparent becomes white
    ];
    assert_eq!(bytes.as_slice(), &expected);
}

#[test]
fn encode_then_decode_round_trip() {
    let pixels = [
        (255u8, 0u8, 0u8, 255u8),
        (0, 255, 0, 255),
        (0, 0, 255, 255),
        (10, 20, 30, 0),
    ];
    let bytes = encode_eif1(2, 2, &pixels);
    let img = Image::from_raw(&bytes).unwrap();
    assert_eq!(img.magic_number, EIF1_MAGIC_NUMBER);
    assert_eq!(img.width, 2);
    assert_eq!(img.height, 2);
    assert_eq!(img.pixels.len(), 4);
    assert_eq!(img.pixels[0].rgb565, 0xF800);
    assert_eq!(img.pixels[1].rgb565, 0x07E0);
    assert_eq!(img.pixels[2].rgb565, 0x001F);
    assert_eq!(img.pixels[3].rgb565, 0xFFFF);
}

#[test]
fn unknown_magic_yields_nothing() {
    let bytes = [0u8, 1, 2, 3, 0, 0, 0, 0];
    assert!(Image::from_raw(&bytes).is_none());
}

#[test]
fn pixels_and_rect() {
    let bytes = encode_eif1(1, 1, &[(0u8, 0u8, 0u8, 255u8)]);
    let img = Image::from_raw(&bytes).unwrap();
    assert_eq!(img.get_pixels().len(), 1);
    let r = img.for_coordinates(7, 9);
    assert_eq!((r.x, r.y, r.width, r.height), (7, 9, 1, 1));
}
