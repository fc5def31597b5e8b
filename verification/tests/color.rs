use sockchat::packets::types::{
    hex_of, rgb_of, shortest_hex_of, Color, ColorParseError, Sockchatable,
};

fn color(text: &str) -> Color {
    Color { value: text.to_string() }
}

#[test]
fn a_color_keeps_its_text() {
    let decoded = "#A1B2C3".parse::<Color>().unwrap();
    assert_eq!(decoded.to_sockstr(), "#A1B2C3");
    assert_eq!(decoded.raw(), "#A1B2C3");
    assert_eq!(decoded.as_shex(), Ok("#A1B2C3".to_string()));
    assert_eq!(decoded.as_rgb(), Ok([161, 178, 195]));
    for text in ["", "not a colour", "  red ", "RED", "#A1b2C3", "rgb( 1,2 , 3 )"] {
        let decoded = text.parse::<Color>().unwrap();
        assert_eq!(decoded.value, text);
        assert_eq!(decoded.to_sockstr(), text);
        assert_eq!(decoded.raw(), text);
    }
}

#[test]
fn hexadecimal_forms_are_upper_case() {
    assert_eq!(color("#ff0000").as_hex(), Ok("#FF0000".to_string()));
    assert_eq!(color("#a1b2c3").as_hex(), Ok("#A1B2C3".to_string()));
    assert_eq!(color("#a1b2c3").as_hexa(), Ok("#A1B2C3FF".to_string()));
    assert_eq!(color("#a1b2c37f").as_hexa(), Ok("#A1B2C37F".to_string()));
    assert_eq!(color("#0a0b0c").as_hex(), Ok("#0A0B0C".to_string()));
    assert_eq!(color("red").as_hex(), Ok("#FF0000".to_string()));
    assert_eq!(color("rgb(1, 2, 3)").as_hex(), Ok("#010203".to_string()));
    assert_eq!(color("transparent").as_hexa(), Ok("#00000000".to_string()));
}

#[test]
fn short_forms_collapse_doubled_digits_only() {
    assert_eq!(color("#ff0000").as_shex(), Ok("#F00".to_string()));
    assert_eq!(color("#abc").as_shex(), Ok("#ABC".to_string()));
    assert_eq!(color("#aabbc0").as_shex(), Ok("#AABBC0".to_string()));
    assert_eq!(color("#a0bbcc").as_shex(), Ok("#A0BBCC".to_string()));
    assert_eq!(color("#ff0000").as_shexa(), Ok("#F00F".to_string()));
    assert_eq!(color("#ff000088").as_shexa(), Ok("#F008".to_string()));
    assert_eq!(color("#ff00007f").as_shexa(), Ok("#FF00007F".to_string()));
    assert_eq!(color("#ff00007f").as_shex(), Ok("#F00".to_string()));
    assert_eq!(color("#a1b2c3").as_shexa(), Ok("#A1B2C3FF".to_string()));
}

#[test]
fn channels_are_bytes() {
    assert_eq!(color("#A1B2C3").as_rgb(), Ok([161, 178, 195]));
    assert_eq!(color("#A1B2C3").as_rgba(), Ok([161, 178, 195, 255]));
    assert_eq!(color("#A1B2C380").as_rgba(), Ok([161, 178, 195, 128]));
    assert_eq!(color("blue").as_rgb(), Ok([0, 0, 255]));
    assert_eq!(color("rgb(255, 128, 0)").as_rgb(), Ok([255, 128, 0]));
    assert_eq!(color("hsl(120, 100%, 50%)").as_rgb(), Ok([0, 255, 0]));
}

#[test]
fn a_text_that_is_no_colour_is_an_error() {
    for text in ["", "FFFG", "#12", "no such colour", "rgb(1, 2)", "default_color", "5 1 1 1 3"] {
        let c = color(text);
        assert_eq!(c.as_hex(), Err(ColorParseError::Unrecognized), "{:?}", text);
        assert_eq!(c.as_hexa(), Err(ColorParseError::Unrecognized));
        assert_eq!(c.as_shex(), Err(ColorParseError::Unrecognized));
        assert_eq!(c.as_shexa(), Err(ColorParseError::Unrecognized));
        assert_eq!(c.as_rgb(), Err(ColorParseError::Unrecognized));
        assert_eq!(c.as_rgba(), Err(ColorParseError::Unrecognized));
        assert_eq!(c.raw(), text);
    }
}

#[test]
fn the_default_colour_is_white() {
    let white = Color::default();
    assert_eq!(white.raw(), "FFF");
    assert_eq!(white.as_hex(), Ok("#FFFFFF".to_string()));
    assert_eq!(white.as_shex(), Ok("#FFF".to_string()));
    assert_eq!(white.as_rgba(), Ok([255, 255, 255, 255]));
}

#[test]
fn hexadecimal_text_of_given_channels() {
    assert_eq!(hex_of(&[161, 178, 195]), "#A1B2C3");
    assert_eq!(hex_of(&[161, 178, 195, 255]), "#A1B2C3FF");
    assert_eq!(hex_of(&[0, 9, 10, 15]), "#00090A0F");
    assert_eq!(hex_of(&[16, 159, 160, 254]), "#109FA0FE");
    assert_eq!(hex_of(&[]), "#");
    assert_eq!(hex_of(&[1]), "#01");
    assert_eq!(shortest_hex_of(&[0xaa, 0xbb, 0xcc]), "#ABC");
    assert_eq!(shortest_hex_of(&[0xaa, 0xbb, 0xcc, 0xdd]), "#ABCD");
    assert_eq!(shortest_hex_of(&[0xaa, 0xbb, 0xcc, 0xd0]), "#AABBCCD0");
    assert_eq!(shortest_hex_of(&[0xa1, 0xbb, 0xcc]), "#A1BBCC");
    assert_eq!(shortest_hex_of(&[0x00, 0x11, 0xff, 0x99]), "#01F9");
    assert_eq!(shortest_hex_of(&[]), "#");
    assert_eq!(rgb_of(&[161, 178, 195, 7]), [161, 178, 195]);
    for channel in 0..=255u8 {
        assert_eq!(
            hex_of(&[channel]),
            format!("#{:02X}", channel)
        );
    }
}

#[test]
fn a_text_that_is_not_ascii_is_no_colour() {
    let texts = [
        "hsl(\u{20ac}x,1,1)",
        "hsl(\u{e9}g,1,1)",
        "hwb(1\u{20ac},1,1)",
        "oklch(1,1,\u{20ac}x)",
        "hsv(\u{1f600},1,1)",
        "\u{20ac}",
        "r\u{e9}d",
        "\u{a0}red",
        "red\u{2003}",
        "rgb\u{2003}(1, 2, 3)",
    ];
    for text in texts {
        let c = color(text);
        assert_eq!(c.as_hex(), Err(ColorParseError::Unrecognized), "{:?}", text);
        assert_eq!(c.as_hexa(), Err(ColorParseError::Unrecognized));
        assert_eq!(c.as_shex(), Err(ColorParseError::Unrecognized));
        assert_eq!(c.as_shexa(), Err(ColorParseError::Unrecognized));
        assert_eq!(c.as_rgb(), Err(ColorParseError::Unrecognized));
        assert_eq!(c.as_rgba(), Err(ColorParseError::Unrecognized));
        assert_eq!(c.raw(), text);
        assert_eq!(c.to_sockstr(), text);
        assert_eq!(text.parse::<Color>().unwrap().value, text);
    }
}

#[test]
fn an_ascii_colour_between_ascii_white_space_is_read() {
    assert_eq!(color("  red ").as_hex(), Ok("#FF0000".to_string()));
    assert_eq!(color("\thsl(120deg, 100%, 50%)\n").as_rgb(), Ok([0, 255, 0]));
    assert_eq!(color("hsl(xdeg,1,1)").as_rgb(), Err(ColorParseError::Unrecognized));
    assert_eq!(color("hsl(g,1,1)").as_rgb(), Err(ColorParseError::Unrecognized));
    assert_eq!(color("hsl(,1,1)").as_rgb(), Err(ColorParseError::Unrecognized));
}

#[test]
fn hexadecimal_forms_have_their_lengths() {
    for text in ["#a1b2c3", "#abc", "red", "#11223344"] {
        assert_eq!(color(text).as_hex().unwrap().chars().count(), 7);
        assert_eq!(color(text).as_hexa().unwrap().chars().count(), 9);
    }
    assert_eq!(color("#aabbcc").as_shex().unwrap().chars().count(), 4);
    assert_eq!(color("#aabbccdd").as_shexa().unwrap().chars().count(), 5);
    assert_eq!(color("#aabbccd0").as_shexa().unwrap().chars().count(), 9);
}
