use lazytime::gui::color::{color32_from_hex, generate_color_for_name, hex_from_color32, Rgb};

#[test]
fn hex_roundtrip_rgb() {
    let c = color32_from_hex("#12ABEF").expect("valid hex");
    assert_eq!(hex_from_color32(c), "#12ABEF");
}

#[test]
fn invalid_hex_is_none() {
    assert!(color32_from_hex("#12345").is_none());
    assert!(color32_from_hex("foo").is_none());
}

#[test]
fn generated_color_is_stable() {
    assert_eq!(generate_color_for_name("Default"), "#5733CC");
    assert_eq!(generate_color_for_name("Project A"), "#33BFCC");
}

#[test]
fn hex_parse_accepts_lower_case_white_space_and_repeated_hashes() {
    assert_eq!(
        color32_from_hex("  ##0a0B0c "),
        Some(Rgb { r: 0x0a, g: 0x0b, b: 0x0c })
    );
    assert_eq!(color32_from_hex("ffffff"), Some(Rgb { r: 255, g: 255, b: 255 }));
}

#[test]
fn hex_parse_accepts_plus_sign_pairs() {
    assert_eq!(color32_from_hex("#+F+1+0"), Some(Rgb { r: 15, g: 1, b: 0 }));
}

#[test]
fn hex_parse_rejects_non_hex_and_non_ascii() {
    assert!(color32_from_hex("#12AB0G").is_none());
    assert!(color32_from_hex("#1234567").is_none());
    assert!(color32_from_hex("#éé12").is_none());
    assert!(color32_from_hex("#-1-2-3").is_none());
}

#[test]
fn hex_format_then_parse_gives_the_colour_back() {
    for &(r, g, b) in &[(0u8, 0u8, 0u8), (255, 128, 1), (0x12, 0xAB, 0xEF)] {
        let c = Rgb { r, g, b };
        assert_eq!(color32_from_hex(&hex_from_color32(c)), Some(c));
    }
    assert_eq!(hex_from_color32(Rgb { r: 1, g: 2, b: 254 }), "#0102FE");
}

#[test]
fn generated_colors_across_hues() {
    assert_eq!(generate_color_for_name("U"), "#CC3333");
    assert_eq!(generate_color_for_name("C"), "#CC4D33");
    assert_eq!(generate_color_for_name("bi"), "#CCCC33");
    assert_eq!(generate_color_for_name("qi"), "#CC3336");
    assert_eq!(generate_color_for_name(""), "#C9CC33");
    assert_eq!(generate_color_for_name("Jira sync"), "#CC338F");
    assert_eq!(generate_color_for_name("é"), "#C433CC");
}

#[test]
fn generated_colors_at_half_way_hues() {
    assert_eq!(generate_color_for_name("hu"), "#4CCC33");
    assert_eq!(generate_color_for_name("qb"), "#33CCB2");
    assert_eq!(generate_color_for_name("pU"), "#33B2CC");
    assert_eq!(generate_color_for_name("fo"), "#4C33CC");
    assert_eq!(generate_color_for_name("dy"), "#CC334C");
}

#[test]
fn unreadable_first_pair_is_none() {
    assert_eq!(color32_from_hex("zza\u{e9}b"), None);
    assert_eq!(color32_from_hex("  ##a1b2c3 "), Some(Rgb { r: 0xa1, g: 0xb2, b: 0xc3 }));
    assert_eq!(color32_from_hex("+1+2+3"), Some(Rgb { r: 1, g: 2, b: 3 }));
}
