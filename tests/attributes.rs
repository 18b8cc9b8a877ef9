use open_jsw::colours::{Rgba, SpeccyColour};
use open_jsw::raw_game::{decode_attribute, encode_attribute, CellBehaviour, JswRawCell};

#[test]
fn attribute_0x47_is_bright_white_on_black() {
    let f = decode_attribute(0x47);
    assert_eq!(f.ink, SpeccyColour::White);
    assert_eq!(f.paper, SpeccyColour::Black);
    assert!(f.bright);
    assert!(!f.flash);
    let cell = JswRawCell::new(0, 0x47, CellBehaviour::Air, [0; 8]);
    assert_eq!(cell.ink, Rgba { r: 0xff, g: 0xff, b: 0xff, a: 0xff });
    assert_eq!(cell.paper, Rgba { r: 0, g: 0, b: 0, a: 0xff });
    assert!(cell.bright);
    assert!(!cell.flash);
}

#[test]
fn every_attribute_byte_round_trips() {
    for a in 0..=255u8 {
        let f = decode_attribute(a);
        assert_eq!(encode_attribute(&f), a);
        assert_eq!(encode_attribute(&f) & 0x7f, a & 0x7f);
    }
}

#[test]
fn attribute_fields_by_bit() {
    let f = decode_attribute(0b1010_1001);
    assert_eq!(f.ink, SpeccyColour::Blue);
    assert_eq!(f.paper, SpeccyColour::Cyan);
    assert!(!f.bright);
    assert!(f.flash);
}

#[test]
fn palette_dim_and_bright() {
    assert_eq!(SpeccyColour::Red.to_rgba(false), Rgba { r: 0xcd, g: 0, b: 0, a: 0xff });
    assert_eq!(SpeccyColour::Red.to_rgba(true), Rgba { r: 0xff, g: 0, b: 0, a: 0xff });
    assert_eq!(SpeccyColour::Cyan.to_rgba(false), Rgba { r: 0, g: 0xcd, b: 0xcd, a: 0xff });
    assert_eq!(SpeccyColour::Black.to_rgba(true), Rgba { r: 0, g: 0, b: 0, a: 0xff });
    assert_eq!(SpeccyColour::from_raw(6), SpeccyColour::Yellow);
    assert_eq!(SpeccyColour::from_raw(9), SpeccyColour::Black);
}
