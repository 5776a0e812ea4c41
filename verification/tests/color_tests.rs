use tickets_rs::color::{read_base_color, read_color, write_color, Rgba};
use tickets_rs::config_option::{ConfigOption, ToConfig};
use tickets_rs::tag::Tag;

#[test]
fn colours_are_written_with_two_digits_for_each_byte() {
    let color = Rgba { r: 0, g: 10, b: 171, a: 255 };
    assert_eq!(write_color(color, true), "#000AABFF");
    assert_eq!(write_color(color, false), "#000aabff");
    assert_eq!(color.to_config(), "#000AABFF");
    for byte in 0..=255u8 {
        let color = Rgba { r: byte, g: 255 - byte, b: byte / 2, a: byte ^ 0x5a };
        assert_eq!(
            write_color(color, true),
            format!("#{:02X}{:02X}{:02X}{:02X}", color.r, color.g, color.b, color.a)
        );
        assert_eq!(
            write_color(color, false),
            format!("#{:02x}{:02x}{:02x}{:02x}", color.r, color.g, color.b, color.a)
        );
        assert_eq!(read_color(&write_color(color, true)), Some(color));
        assert_eq!(read_color(&write_color(color, false)), Some(color));
    }
}

#[test]
fn pairs_of_digits_are_read_as_std_reads_them() {
    for first in 0..128u8 {
        for second in 0..128u8 {
            let pair: String = [first as char, second as char].iter().collect();
            let expected = u8::from_str_radix(&pair, 16).ok();
            assert_eq!(
                read_color(&format!("#{pair}0000")),
                expected.map(|byte| Rgba { r: byte, g: 0, b: 0, a: 255 }),
                "{pair:?}"
            );
            assert_eq!(
                read_base_color(&format!("{pair}0000")),
                expected.map(|byte| (byte, 0, 0)),
                "{pair:?}"
            );
        }
        let single = (first as char).to_string();
        assert_eq!(
            read_color(&format!("#000000{single}")),
            u8::from_str_radix(&single, 16).ok().map(|byte| Rgba { r: 0, g: 0, b: 0, a: byte })
        );
    }
}

#[test]
fn colours_are_read_behind_the_first_character() {
    assert_eq!(read_color("#102030"), Some(Rgba { r: 16, g: 32, b: 48, a: 255 }));
    assert_eq!(read_color("x10203040"), Some(Rgba { r: 16, g: 32, b: 48, a: 64 }));
    assert_eq!(read_color("#1020304050ff"), Some(Rgba { r: 16, g: 32, b: 48, a: 64 }));
    assert_eq!(read_color("#102030f"), Some(Rgba { r: 16, g: 32, b: 48, a: 15 }));
    assert_eq!(read_color("#+1+2+3"), Some(Rgba { r: 1, g: 2, b: 3, a: 255 }));
    assert_eq!(read_color("#10203"), Some(Rgba { r: 16, g: 32, b: 3, a: 255 }));
    for text in ["", "#", "#1020", "#10 20 30", "#10203g", "#-1-2-3", "é102030", "#1020é0", "#10203+"] {
        assert_eq!(read_color(text), None, "{text:?}");
    }
    let option = ConfigOption::new("#FF000080".to_string(), "color".to_string());
    assert_eq!(option.get::<Rgba>(), Some(Rgba { r: 255, g: 0, b: 0, a: 128 }));
}

#[test]
fn tags_take_their_colours_from_one() {
    let tag = Tag::default().with_name("bug".to_string()).with_hex_color("#ff9030");
    assert_eq!(tag.color_text, "#ff9030ff");
    assert_eq!(tag.color, "#55301080");
    assert_eq!(tag.name, "bug");
    let tag = Tag::default().with_hex_color("##0A0b0C and more");
    assert_eq!(tag.color_text, "#0a0b0cff");
    assert_eq!(tag.color, "#03030480");
    assert_eq!(read_base_color("#ff903"), None);
    assert_eq!(read_base_color("ff 9030"), None);
    assert_eq!(read_base_color("###"), None);
    assert_eq!(read_base_color("+f+f+f"), Some((15, 15, 15)));
}
