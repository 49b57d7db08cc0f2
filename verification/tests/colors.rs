use emogen::color::{color_from_chars, colorcode2color, get_color, get_random_color, Color};

fn rgba(r: u8, g: u8, b: u8, a: u8) -> Color {
    Color { r, g, b, a }
}

fn code(s: &str) -> Color {
    colorcode2color(s.to_string())
}

#[test]
fn four_digit_code_multiplies_each_digit_by_sixteen() {
    assert_eq!(code("000f"), rgba(0, 0, 0, 240));
    assert_eq!(code("0000"), rgba(0, 0, 0, 0));
    assert_eq!(code("1234"), rgba(16, 32, 48, 64));
    assert_eq!(code("abcd"), rgba(160, 176, 192, 208));
    assert_eq!(code("ef12"), rgba(224, 240, 16, 32));
    assert_eq!(code("ABCD"), rgba(160, 176, 192, 208));
    assert_eq!(code("9fF0"), rgba(144, 240, 240, 0));
}

#[test]
fn four_digit_code_covers_every_digit() {
    let digits = "0123456789abcdef";
    for (value, digit) in digits.chars().enumerate() {
        let text = format!("{}{}00", digit, digit.to_ascii_uppercase());
        let expected = (value * 16) as u8;
        assert_eq!(code(&text), rgba(expected, expected, 0, 0));
    }
}

#[test]
fn eight_digit_code_reads_each_pair_as_a_byte() {
    assert_eq!(code("ff000080"), rgba(255, 0, 0, 128));
    assert_eq!(code("00000000"), rgba(0, 0, 0, 0));
    assert_eq!(code("ffffffff"), rgba(255, 255, 255, 255));
    assert_eq!(code("12AbcDeF"), rgba(0x12, 0xab, 0xcd, 0xef));
    assert_eq!(code("0a0B0c0D"), rgba(10, 11, 12, 13));
}

#[test]
fn eight_digit_code_agrees_with_integer_parsing() {
    for value in 0u32..=255 {
        for text in [format!("{:02x}", value), format!("{:02X}", value)] {
            let byte = u8::from_str_radix(&text, 16).unwrap();
            assert_eq!(byte as u32, value);
            let full = format!("{}00{}ff", text, text);
            assert_eq!(code(&full), rgba(byte, 0, byte, 255));
        }
    }
}

#[test]
fn four_digit_code_agrees_with_integer_parsing() {
    for digit in "0123456789abcdefABCDEF".chars() {
        let text = format!("{}00f", digit);
        let expected = u8::from_str_radix(&text[0..1], 16).unwrap() * 16;
        assert_eq!(code(&text), rgba(expected, 0, 0, 240));
    }
}

#[test]
fn a_character_that_is_no_digit_makes_the_whole_code_transparent_black() {
    for text in ["g00f", "f-ff", "+fff", "fff ", "ffzzff00", "f ffffff", "+f+a+0+9", "0x12", "#fff", "ffffff\n\n"] {
        assert_eq!(code(text), rgba(0, 0, 0, 0));
    }
    for b in 0u8..128 {
        let c = b as char;
        let text = format!("f{}ff", c);
        if c.is_ascii_hexdigit() {
            assert_eq!(code(&text).r, 240);
            assert_eq!(code(&text).a, 240);
        } else {
            assert_eq!(code(&text), rgba(0, 0, 0, 0));
        }
    }
}

#[test]
fn a_code_of_another_length_is_transparent_black() {
    for text in ["", "f", "ff", "fff", "fffff", "ffffff", "fffffff", "fffffffff", "ffffffffffffffff"] {
        assert_eq!(code(text), rgba(0, 0, 0, 0));
    }
}

#[test]
fn transparent_is_all_zero() {
    assert_eq!(Color::transparent(), rgba(0, 0, 0, 0));
}

#[test]
fn a_code_with_characters_beyond_ascii_is_transparent_black() {
    // four bytes but three characters
    assert_eq!(code("\u{e9}12"), rgba(0, 0, 0, 0));
    // eight bytes but seven characters
    assert_eq!(code("\u{e9}123456"), rgba(0, 0, 0, 0));
    // four characters, none a digit
    assert_eq!(code("\u{3042}\u{3042}\u{3042}\u{3042}"), rgba(0, 0, 0, 0));
    // full-width digits are no digits
    assert_eq!(code("\u{ff10}\u{ff10}\u{ff10}\u{ff10}"), rgba(0, 0, 0, 0));
    assert_eq!(code("000\u{ff46}"), rgba(0, 0, 0, 0));
}

#[test]
fn characters_and_string_give_the_same_colour() {
    assert_eq!(color_from_chars(&['0', '0', '0', 'f']), code("000f"));
    assert_eq!(color_from_chars(&['f', 'f', '0', '0', '0', '0', '8', '0']), code("ff000080"));
    assert_eq!(color_from_chars(&['\u{e9}', '0', '1', '2']), rgba(0, 0, 0, 0));
    assert_eq!(color_from_chars(&[]), rgba(0, 0, 0, 0));
}

const FB_FG: Color = Color { r: 1, g: 2, b: 3, a: 4 };
const FB_BG: Color = Color { r: 5, g: 6, b: 7, a: 8 };

fn resolve(host: &str, fg: Option<&str>, bg: Option<&str>) -> (Color, Color) {
    get_color(
        host,
        "example.com",
        fg.map(|s| s.to_string()),
        bg.map(|s| s.to_string()),
        FB_FG,
        FB_BG,
    )
}

#[test]
fn subdomain_of_eight_characters_is_two_short_codes() {
    let (fg, bg) = resolve("abcdef12.example.com", None, None);
    assert_eq!(fg, code("abcd"));
    assert_eq!(bg, code("ef12"));
    assert_eq!(fg, rgba(160, 176, 192, 208));
    assert_eq!(bg, rgba(224, 240, 16, 32));
}

#[test]
fn subdomain_of_sixteen_characters_is_two_long_codes() {
    let (fg, bg) = resolve("ff000080000000ff.example.com", None, None);
    assert_eq!(fg, rgba(255, 0, 0, 128));
    assert_eq!(bg, rgba(0, 0, 0, 255));
}

#[test]
fn subdomain_wins_over_query_parameters() {
    let (fg, bg) = resolve("000f0000.example.com", Some("ffff"), Some("ffffffff"));
    assert_eq!(fg, rgba(0, 0, 0, 240));
    assert_eq!(bg, rgba(0, 0, 0, 0));
    let (fg, bg) = resolve("0123456789abcdef.example.com", Some("ffff"), Some("ffff"));
    assert_eq!(fg, rgba(0x01, 0x23, 0x45, 0x67));
    assert_eq!(bg, rgba(0x89, 0xab, 0xcd, 0xef));
}

#[test]
fn query_parameters_are_used_when_the_subdomain_has_another_length() {
    let (fg, bg) = resolve("www.example.com", Some("f00f"), Some("00ff00ff"));
    assert_eq!(fg, rgba(240, 0, 0, 240));
    assert_eq!(bg, rgba(0, 255, 0, 255));
    let (fg, bg) = resolve("example.com", Some("f00f"), Some("0f0f"));
    assert_eq!(fg, rgba(240, 0, 0, 240));
    assert_eq!(bg, rgba(0, 240, 0, 240));
}

#[test]
fn an_absent_parameter_takes_its_fallback_colour() {
    assert_eq!(resolve("www.example.com", Some("f00f"), None), (rgba(240, 0, 0, 240), FB_BG));
    assert_eq!(resolve("www.example.com", None, Some("f00f")), (FB_FG, rgba(240, 0, 0, 240)));
    assert_eq!(resolve("www.example.com", None, None), (FB_FG, FB_BG));
    assert_eq!(resolve("", None, None), (FB_FG, FB_BG));
}

#[test]
fn a_parameter_that_is_no_code_is_transparent_black_not_the_fallback() {
    assert_eq!(
        resolve("www.example.com", Some("red"), Some("")),
        (rgba(0, 0, 0, 0), rgba(0, 0, 0, 0))
    );
    assert_eq!(
        resolve("www.example.com", Some("g00f"), Some("00ff")),
        (rgba(0, 0, 0, 0), rgba(0, 0, 240, 240))
    );
}

#[test]
fn one_half_of_a_subdomain_can_be_a_code_and_the_other_not() {
    assert_eq!(resolve("000fwxyz.example.com", None, None), (rgba(0, 0, 0, 240), rgba(0, 0, 0, 0)));
    assert_eq!(
        resolve("nocolour000000ff.example.com", None, None),
        (rgba(0, 0, 0, 0), rgba(0, 0, 0, 255))
    );
}

#[test]
fn the_subdomain_is_measured_in_characters() {
    // eight characters, of which one takes two bytes: two codes, the first no code
    assert_eq!(
        resolve("\u{e9}000ffff.example.com", Some("1111"), Some("2222")),
        (rgba(0, 0, 0, 0), rgba(240, 240, 240, 240))
    );
    // eight bytes but seven characters: the query decides
    assert_eq!(
        resolve("\u{e9}000fff.example.com", Some("1111"), None),
        (rgba(16, 16, 16, 16), FB_BG)
    );
}

#[test]
fn only_the_base_domain_at_the_end_is_stripped() {
    // the host is the base domain itself: nothing to strip, eleven characters
    assert_eq!(resolve("example.com", None, None), (FB_FG, FB_BG));
    // no dot before the base domain
    assert_eq!(resolve("abcdef12example.com", None, None), (FB_FG, FB_BG));
    // another domain: the whole host is measured
    assert_eq!(resolve("abcdef12.example.org", None, None), (FB_FG, FB_BG));
    // a host of eight characters without the base domain is read as two codes
    assert_eq!(resolve("abcdef12", None, None), (code("abcd"), code("ef12")));
    // a port after the base domain leaves the host as it is
    assert_eq!(resolve("abcdef12.example.com:8080", None, None), (FB_FG, FB_BG));
    // the base domain in the middle stays
    assert_eq!(resolve("a.example.com.b.example.com", None, None), (FB_FG, FB_BG));
    // and counts: sixteen characters are left here, read as two codes of eight
    assert_eq!(
        resolve("ab.example.comcd.example.com", Some("ffff"), Some("ffff")),
        (rgba(0, 0, 0, 0), rgba(0, 0, 0, 0))
    );
    // an empty subdomain before the dot
    assert_eq!(resolve(".example.com", Some("000f"), None), (rgba(0, 0, 0, 240), FB_BG));
}

#[test]
fn an_empty_base_domain_strips_a_final_dot() {
    let colors = get_color("abcdef12.", "", None, None, FB_FG, FB_BG);
    assert_eq!(colors, (code("abcd"), code("ef12")));
}

#[test]
fn random_colour_mixes_the_four_words() {
    assert_eq!(get_random_color(1, 2, 3, 4), rgba(1, 2, 11, 255));
    assert_eq!(get_random_color(300, 9, 3, 100), rgba(90, 9, 3, 255));
    assert_eq!(get_random_color(254, 255, 256, 257), rgba(254, 0, 1, 255));
}

#[test]
fn random_colour_is_opaque_and_does_not_overflow() {
    let m = u64::MAX;
    assert_eq!(get_random_color(m, m, m, m), rgba(0, 0, 0, 255));
    assert_eq!(get_random_color(m, m, 1, m), rgba(0, 0, 1, 255));
    assert_eq!(get_random_color(m - 1, m, 1, 2), rgba(254, 0, 1, 255));
    let c = get_random_color(0x7f12_3456_7800, 0, 0x7f12_3456_7820, 0x7f12_3456_7840);
    assert_eq!(c.a, 255);
    assert_eq!(c.r as u64, 0x7f12_3456_7800u64 % 255);
}

#[test]
fn random_colour_is_the_same_for_the_same_words() {
    assert_eq!(get_random_color(11, 22, 33, 44), get_random_color(11, 22, 33, 44));
}
