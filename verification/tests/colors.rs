//! Display color encoding.
use os_practice::vga_buf::{Color, ColorCode};

#[test]
fn color_codes_follow_hardware_order() {
    assert_eq!(Color::Black.code(), 0x0);
    assert_eq!(Color::Cyan.code(), 0x3);
    assert_eq!(Color::Yellow.code(), 0xe);
    assert_eq!(Color::White.code(), 0xf);
}

#[test]
fn color_code_packs_background_high() {
    assert_eq!(ColorCode::new(Color::White, Color::Black).0, 0x0f);
    assert_eq!(ColorCode::new(Color::Yellow, Color::Blue).0, 0x1e);
    assert_eq!(ColorCode::new(Color::Black, Color::White).0, 0xf0);
}
