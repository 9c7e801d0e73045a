use matrix_rain::glyphs::{char_set, digit_chars, katakana_chars, symbol_chars};
use matrix_rain::gpu::rain::char_set as gpu_char_set;
use matrix_rain::palette::{fade_tier, style_for_tier, theme_name, theme_rgb, CellStyle, Ink, Tier};

#[test]
fn katakana_block_is_complete() {
    let k = katakana_chars();
    assert_eq!(k.len(), 62);
    assert_eq!(k[0], '\u{FF61}');
    assert_eq!(k[61], '\u{FF9E}');
    for (i, c) in k.iter().enumerate() {
        assert_eq!(*c as u32, 0xFF61 + i as u32);
    }
}

#[test]
fn terminal_char_set_order() {
    let set = char_set();
    assert_eq!(set.len(), 62 + 10 + 9);
    assert_eq!(&set[62..72], &digit_chars()[..]);
    assert_eq!(&set[72..], &symbol_chars()[..]);
    assert_eq!(digit_chars().iter().collect::<String>(), "0123456789");
    assert_eq!(symbol_chars().iter().collect::<String>(), "=*+-<>|~^");
}

#[test]
fn gpu_char_set_has_no_capitals() {
    let set = gpu_char_set();
    let s: String = set.iter().collect();
    assert_eq!(s, "abcdefghijklmnopqrstuvwxyz0123456789=*+-<>|~^!#$%&_@");
    assert!(!set.iter().any(|c| c.is_ascii_uppercase()));
}

#[test]
fn tiers_of_a_ten_glyph_stream() {
    let expected = [
        Tier::Head,
        Tier::HeadGlow,
        Tier::Bright,
        Tier::Body,
        Tier::Fade1,
        Tier::Fade1,
        Tier::Fade2,
        Tier::Fade3,
        Tier::Fade3,
        Tier::Dim,
    ];
    for (i, t) in expected.iter().enumerate() {
        assert_eq!(fade_tier(i, 10), *t, "glyph {}", i);
    }
}

#[test]
fn long_streams_have_strong_bodies() {
    assert_eq!(fade_tier(3, 20), Tier::BodyStrong);
    assert_eq!(fade_tier(11, 20), Tier::BodyStrong);
    assert_eq!(fade_tier(12, 20), Tier::Body);
    assert_eq!(fade_tier(19, 20), Tier::Dim);
}

#[test]
fn short_streams() {
    assert_eq!(fade_tier(0, 1), Tier::Head);
    assert_eq!(fade_tier(1, 2), Tier::HeadGlow);
    assert_eq!(fade_tier(2, 3), Tier::Bright);
    // a four-glyph stream fades over one glyph
    assert_eq!(fade_tier(3, 4), Tier::Dim);
    // five glyphs: fade of 3, the fourth glyph is one from the tail
    assert_eq!(fade_tier(3, 5), Tier::Fade2);
}

#[test]
fn terminal_styles() {
    assert_eq!(style_for_tier(Tier::Head), CellStyle { ink: Ink::White, bold: true });
    assert_eq!(style_for_tier(Tier::HeadGlow), CellStyle { ink: Ink::Theme(0), bold: true });
    assert_eq!(style_for_tier(Tier::BodyStrong), CellStyle { ink: Ink::Theme(2), bold: true });
    assert_eq!(style_for_tier(Tier::Body), CellStyle { ink: Ink::Theme(2), bold: false });
    assert_eq!(style_for_tier(Tier::Dim), CellStyle { ink: Ink::Theme(6), bold: false });
}

#[test]
fn theme_table() {
    assert_eq!(theme_rgb(0, 0), (128, 255, 128));
    assert_eq!(theme_rgb(1, 1), (255, 191, 0));
    assert_eq!(theme_rgb(4, 7), (2, 6, 20));
    assert_eq!(theme_rgb(7, 3), (153, 153, 153));
    assert_eq!(theme_name(0), "Green");
    assert_eq!(theme_name(5), "Purple");
    assert_eq!(theme_name(7), "White");
}
