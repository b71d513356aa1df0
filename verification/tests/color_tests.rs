use stream_entropy::color::{parse_color_format, Color, ColorFormat};

#[test]
fn new_keeps_channels() {
    let c = Color::new(1, 2, 3);
    assert_eq!(c.red, 1);
    assert_eq!(c.green, 2);
    assert_eq!(c.blue, 3);
}

#[test]
fn as_hex_packs_channels() {
    assert_eq!(Color::new(0x12, 0x34, 0x56).as_hex(), 0x12_3456);
    assert_eq!(Color::new(0, 0, 0).as_hex(), 0);
    assert_eq!(Color::new(0xFF, 0xFF, 0xFF).as_hex(), 0xFF_FFFF);
}

#[test]
fn from_word_splits_channels() {
    let c = Color::from(0x00AB_CDEFu32);
    assert_eq!(c.red, 0xAB);
    assert_eq!(c.green, 0xCD);
    assert_eq!(c.blue, 0xEF);
}

#[test]
fn from_word_ignores_high_byte() {
    let c = Color::from(0xFF12_3456u32);
    assert_eq!(c.as_hex(), 0x12_3456);
}

#[test]
fn format_parameter_recognizes_rgb_and_hex_only() {
    assert_eq!(parse_color_format("rgb"), Some(ColorFormat::Rgb));
    assert_eq!(parse_color_format("hex"), Some(ColorFormat::Hex));
    assert_eq!(parse_color_format(""), None);
    assert_eq!(parse_color_format("RGB"), None);
    assert_eq!(parse_color_format("hexx"), None);
    assert_eq!(parse_color_format("json"), None);
}
