use hexler::byte_to_color::ByteToColor;
use hexler::byte_to_color::Color;

fn color(btc: &ByteToColor, byte: u8) -> &str {
    std::str::from_utf8(btc.color_bytes(byte)).unwrap()
}

fn text(bytes: &[u8]) -> &str {
    std::str::from_utf8(bytes).unwrap()
}

#[test]
fn test_nul_byte_color() {
    let btc = ByteToColor::new();
    assert_eq!(color(&btc, 0x00), text(&ByteToColor::GREY));
}

#[test]
fn test_del_byte_color() {
    let btc = ByteToColor::new();
    assert_eq!(color(&btc, 0x7f), text(&ByteToColor::GREY));
}

#[test]
fn test_extended_ascii_color() {
    let btc = ByteToColor::new();
    assert_eq!(color(&btc, 0xff), text(&ByteToColor::GREY));
}

#[test]
fn test_whitespace_colors() {
    let btc = ByteToColor::new();
    // LF, VT, FF, CR, SPACE
    assert_eq!(color(&btc, 0x0a), text(&ByteToColor::GREEN)); // LF
    assert_eq!(color(&btc, 0x0b), text(&ByteToColor::GREEN)); // VT
    assert_eq!(color(&btc, 0x0c), text(&ByteToColor::GREEN)); // FF
    assert_eq!(color(&btc, 0x0d), text(&ByteToColor::GREEN)); // CR
    assert_eq!(color(&btc, 0x20), text(&ByteToColor::GREEN)); // SPACE
}

#[test]
fn test_digit_colors() {
    let btc = ByteToColor::new();
    for digit in b'0'..=b'9' {
        assert_eq!(color(&btc, digit), text(&ByteToColor::RESET));
    }
}

#[test]
fn test_uppercase_letter_colors() {
    let btc = ByteToColor::new();
    for letter in b'A'..=b'Z' {
        assert_eq!(color(&btc, letter), text(&ByteToColor::RESET));
    }
}

#[test]
fn test_lowercase_letter_colors() {
    let btc = ByteToColor::new();
    for letter in b'a'..=b'z' {
        assert_eq!(color(&btc, letter), text(&ByteToColor::RESET));
    }
}

#[test]
fn test_symbol_colors() {
    let btc = ByteToColor::new();
    // Test various symbols
    assert_eq!(color(&btc, b'!'), text(&ByteToColor::MAGENTA));
    assert_eq!(color(&btc, b'#'), text(&ByteToColor::MAGENTA));
    assert_eq!(color(&btc, b'@'), text(&ByteToColor::MAGENTA));
    assert_eq!(color(&btc, b'['), text(&ByteToColor::MAGENTA));
    assert_eq!(color(&btc, b'{'), text(&ByteToColor::MAGENTA));
}

#[test]
fn test_high_bytes_colors() {
    let btc = ByteToColor::new();
    for byte in 0x80..=0xfe {
        assert_eq!(color(&btc, byte), text(&ByteToColor::BLUE));
    }
}

#[test]
fn test_color_id_consistency() {
    let btc = ByteToColor::new();
    // Same color should have same ID
    let id1 = btc.color_id(b'A');
    let id2 = btc.color_id(b'B');
    assert_eq!(id1, id2, "Uppercase letters should have the same color ID");

    // Different colors should have different IDs
    let id_grey = btc.color_id(0x00);
    let id_green = btc.color_id(0x20);
    assert_ne!(
        id_grey, id_green,
        "Different colors should have different IDs"
    );
}

#[test]
fn byte_to_color_test_default_trait() {
    let btc1 = ByteToColor::new();
    let btc2 = ByteToColor::default();

    // Both should produce same colors
    assert_eq!(color(&btc1, 0x41), color(&btc2, 0x41));
    assert_eq!(btc1.color_id(0x41), btc2.color_id(0x41));
}

#[test]
fn test_all_bytes_have_color() {
    let btc = ByteToColor::new();
    // Ensure every byte has a color assigned
    for byte in 0..=255u8 {
        let c = color(&btc, byte);
        assert!(!c.is_empty(), "Byte {:02x} should have a color", byte);
    }
}

#[test]
fn test_color_id_is_valid() {
    let btc = ByteToColor::new();
    // Color ID 0 should be RESET
    for byte in 0..=255u8 {
        let color_id = btc.color_id(byte);
        // ID should be reasonable (not too many unique colors)
        assert!(
            color_id < 10,
            "Color ID should be small, got {} for byte {:02x}",
            color_id,
            byte
        );
    }
}

#[test]
fn escape_sequences_are_those_of_the_palette() {
    assert_eq!(text(&ByteToColor::GREY), "\x1b[38;5;8m");
    assert_eq!(text(&ByteToColor::GREEN), "\x1b[38;5;46m");
    assert_eq!(text(&ByteToColor::BLUE), "\x1b[38;5;33m");
    assert_eq!(text(&ByteToColor::MAGENTA), "\x1b[38;5;201m");
    assert_eq!(text(&ByteToColor::RESET), "\x1b[0m");
}

#[test]
fn ids_follow_the_order_of_first_appearance() {
    let btc = ByteToColor::new();
    assert_eq!(btc.color_id(b'a'), 0);
    assert_eq!(btc.color_id(0x00), 1);
    assert_eq!(btc.color_id(0x01), 2);
    assert_eq!(btc.color_id(0x0a), 3);
    assert_eq!(btc.color_id(0x80), 4);
    assert_eq!(btc.color_id(0xfe), 4);
    assert_eq!(btc.color_id(0xff), 1);
}

#[test]
fn whitespace_shares_an_id_apart_from_symbols_and_from_zero() {
    let btc = ByteToColor::new();
    let id = btc.color_id(0x20);
    for byte in [0x0a, 0x0b, 0x0c, 0x0d, 0x20] {
        assert_eq!(btc.color_id(byte), id);
        assert_eq!(Color::of(byte), Color::Green);
    }
    assert_ne!(id, 0);
    for byte in [0x01, 0x09, 0x0e, 0x1f, b'!', b'/', b':', b'@', b'[', b'`', b'{', b'~'] {
        assert_ne!(btc.color_id(byte), id);
        assert_eq!(Color::of(byte), Color::Magenta);
    }
}

#[test]
fn table_agrees_with_the_classification() {
    let btc = ByteToColor::new();
    for byte in 0..=255u8 {
        let expected = Color::of(byte);
        assert_eq!(btc.color_bytes(byte), expected.escape());
        let id = match expected {
            Color::Reset => 0,
            Color::Grey => 1,
            Color::Magenta => 2,
            Color::Green => 3,
            Color::Blue => 4,
        };
        assert_eq!(btc.color_id(byte), id);
    }
}
