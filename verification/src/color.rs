//! Colours and the rules that pick the two paint colours of a request.
//!
//! A colour code is a string of four or of eight hexadecimal digits. A string
//! that is no colour code is not an error: it stands for transparent black.

use crate::text::{optional_view, to_chars};
use vstd::prelude::*;
use vstd::slice::slice_subrange;

verus! {

/// A colour of four 8-bit channels.
#[derive(Clone, Copy, Debug, PartialEq, Eq, Structural)]
pub struct Color {
    pub r: u8,
    pub g: u8,
    pub b: u8,
    pub a: u8,
}

/// Black with alpha zero: the colour of a string that is no colour code.
pub open spec fn transparent_black() -> Color {
    Color { r: 0, g: 0, b: 0, a: 0 }
}

/// The value of a hexadecimal digit, in either case; `None` for any other
/// character.
pub open spec fn hex_digit(c: char) -> Option<u8> {
    if '0' <= c <= '9' {
        Some((c as u32 - '0' as u32) as u8)
    } else if 'a' <= c <= 'f' {
        Some((c as u32 - 'a' as u32 + 10) as u8)
    } else if 'A' <= c <= 'F' {
        Some((c as u32 - 'A' as u32 + 10) as u8)
    } else {
        None
    }
}

/// The value of a character as a hexadecimal digit, 0 where it is none.
pub open spec fn digit_value(c: char) -> int {
    match hex_digit(c) {
        Some(v) => v as int,
        None => 0,
    }
}

/// Whether every character of a string is a hexadecimal digit.
pub open spec fn all_hex_digits(code: Seq<char>) -> bool {
    forall|i: int| 0 <= i < code.len() ==> (#[trigger] hex_digit(code[i])) is Some
}

/// A channel written as one digit: sixteen times the digit, so that `f`
/// stands for 240, not 255.
pub open spec fn short_channel(digit: char) -> u8 {
    (16 * digit_value(digit)) as u8
}

/// A channel written as two digits: the byte that they spell.
pub open spec fn long_channel(high: char, low: char) -> u8 {
    (16 * digit_value(high) + digit_value(low)) as u8
}

/// The colour that a string stands for. Four digits give one digit to each
/// of red, green, blue and alpha; eight digits give two. A string of another
/// length, or with a character that is no digit, is transparent black.
pub open spec fn code_color(code: Seq<char>) -> Color {
    if code.len() == 4 && all_hex_digits(code) {
        Color {
            r: short_channel(code[0]),
            g: short_channel(code[1]),
            b: short_channel(code[2]),
            a: short_channel(code[3]),
        }
    } else if code.len() == 8 && all_hex_digits(code) {
        Color {
            r: long_channel(code[0], code[1]),
            g: long_channel(code[2], code[3]),
            b: long_channel(code[4], code[5]),
            a: long_channel(code[6], code[7]),
        }
    } else {
        transparent_black()
    }
}

fn hex_digit_value(c: char) -> (r: Option<u8>)
    ensures
        r == hex_digit(c),
{
    let code: u32 = c as u32;
    if '0' <= c && c <= '9' {
        Some((code - 0x30) as u8)
    } else if 'a' <= c && c <= 'f' {
        Some((code - 0x61 + 10) as u8)
    } else if 'A' <= c && c <= 'F' {
        Some((code - 0x41 + 10) as u8)
    } else {
        None
    }
}

/// The values of the digits of a string, if all its characters are digits.
fn digit_values(code: &[char]) -> (r: Option<Vec<u8>>)
    ensures
        r is Some <==> all_hex_digits(code@),
        r matches Some(values) ==> {
            &&& values@.len() == code@.len()
            &&& forall|i: int| 0 <= i < code@.len() ==> values@[i] == digit_value(code@[i])
            &&& forall|i: int| 0 <= i < code@.len() ==> values@[i] < 16
        },
{
    let mut values: Vec<u8> = Vec::new();
    let mut i: usize = 0;
    while i < code.len()
        invariant
            i <= code.len(),
            values@.len() == i,
            forall|k: int| 0 <= k < i ==> (#[trigger] hex_digit(code@[k])) is Some,
            forall|k: int| 0 <= k < i ==> values@[k] == digit_value(code@[k]),
            forall|k: int| 0 <= k < i ==> values@[k] < 16,
        decreases code.len() - i,
    {
        match hex_digit_value(code[i]) {
            Some(v) => {
                values.push(v);
            },
            None => {
                assert(!(hex_digit(code@[i as int]) is Some));
                return None;
            },
        }
        i += 1;
    }
    Some(values)
}

impl Color {
    /// Transparent black.
    pub fn transparent() -> (c: Color)
        ensures
            c == transparent_black(),
    {
        Color { r: 0, g: 0, b: 0, a: 0 }
    }
}

/// Reads a colour code given as characters.
pub fn color_from_chars(code: &[char]) -> (c: Color)
    ensures
        c == code_color(code@),
{
    if code.len() != 4 && code.len() != 8 {
        return Color::transparent();
    }
    let d = match digit_values(code) {
        Some(values) => values,
        None => {
            return Color::transparent();
        },
    };
    if code.len() == 4 {
        Color { r: 16 * d[0], g: 16 * d[1], b: 16 * d[2], a: 16 * d[3] }
    } else {
        Color {
            r: 16 * d[0] + d[1],
            g: 16 * d[2] + d[3],
            b: 16 * d[4] + d[5],
            a: 16 * d[6] + d[7],
        }
    }
}

/// Reads a colour code. Every string has a colour: no code is an error.
pub fn colorcode2color(colorcode: String) -> (c: Color)
    ensures
        c == code_color(colorcode@),
{
    let code = to_chars(colorcode.as_str());
    color_from_chars(code.as_slice())
}

/// In a code of four digits each channel is sixteen times its digit.
pub proof fn lemma_four_digit_code(code: Seq<char>)
    requires
        code.len() == 4,
        all_hex_digits(code),
    ensures
        code_color(code).r == hex_digit(code[0])->0 * 16,
        code_color(code).g == hex_digit(code[1])->0 * 16,
        code_color(code).b == hex_digit(code[2])->0 * 16,
        code_color(code).a == hex_digit(code[3])->0 * 16,
{
    assert(hex_digit(code[0]) is Some);
    assert(hex_digit(code[1]) is Some);
    assert(hex_digit(code[2]) is Some);
    assert(hex_digit(code[3]) is Some);
}

/// In a code of eight digits each channel is the byte that its two digits
/// spell.
pub proof fn lemma_eight_digit_code(code: Seq<char>)
    requires
        code.len() == 8,
        all_hex_digits(code),
    ensures
        code_color(code).r == 16 * hex_digit(code[0])->0 + hex_digit(code[1])->0,
        code_color(code).g == 16 * hex_digit(code[2])->0 + hex_digit(code[3])->0,
        code_color(code).b == 16 * hex_digit(code[4])->0 + hex_digit(code[5])->0,
        code_color(code).a == 16 * hex_digit(code[6])->0 + hex_digit(code[7])->0,
{
    assert(hex_digit(code[0]) is Some);
    assert(hex_digit(code[1]) is Some);
    assert(hex_digit(code[2]) is Some);
    assert(hex_digit(code[3]) is Some);
    assert(hex_digit(code[4]) is Some);
    assert(hex_digit(code[5]) is Some);
    assert(hex_digit(code[6]) is Some);
    assert(hex_digit(code[7]) is Some);
}

/// A string that has neither four nor eight characters, or that holds a
/// character that is no hexadecimal digit, is transparent black.
pub proof fn lemma_no_code(code: Seq<char>)
    requires
        (code.len() != 4 && code.len() != 8) || !all_hex_digits(code),
    ensures
        code_color(code) == transparent_black(),
{
}

/// Whether `host` ends with a dot followed by `base`.
pub open spec fn has_domain_suffix(host: Seq<char>, base: Seq<char>) -> bool {
    &&& host.len() > base.len()
    &&& host[host.len() - base.len() - 1] == '.'
    &&& host.subrange(host.len() - base.len(), host.len() as int) == base
}

/// The host name without the base domain and the dot before it. A host that
/// does not end so is left as it is.
pub open spec fn subdomain_of(host: Seq<char>, base: Seq<char>) -> Seq<char> {
    if has_domain_suffix(host, base) {
        host.subrange(0, host.len() - base.len() - 1)
    } else {
        host
    }
}

/// The colour of an optional code: that of the code where there is one, else
/// the colour given to fall back on.
pub open spec fn code_color_or(code: Option<Seq<char>>, fallback: Color) -> Color {
    match code {
        Some(c) => code_color(c),
        None => fallback,
    }
}

/// The foreground and background colour of a request, by precedence:
/// a subdomain of eight characters is two codes of four; one of sixteen
/// characters is two codes of eight; otherwise each colour comes from its
/// own query parameter, and from its fallback colour where the parameter is
/// absent.
pub open spec fn resolved_colors(
    host: Seq<char>,
    base: Seq<char>,
    fg: Option<Seq<char>>,
    bg: Option<Seq<char>>,
    fallback_fg: Color,
    fallback_bg: Color,
) -> (Color, Color) {
    let sub = subdomain_of(host, base);
    if sub.len() == 8 {
        (code_color(sub.subrange(0, 4)), code_color(sub.subrange(4, 8)))
    } else if sub.len() == 16 {
        (code_color(sub.subrange(0, 8)), code_color(sub.subrange(8, 16)))
    } else {
        (code_color_or(fg, fallback_fg), code_color_or(bg, fallback_bg))
    }
}

fn ends_with_domain(host: &[char], base: &[char]) -> (r: bool)
    ensures
        r == has_domain_suffix(host@, base@),
{
    if host.len() <= base.len() {
        return false;
    }
    let start: usize = host.len() - base.len();
    if host[start - 1] != '.' {
        return false;
    }
    let mut i: usize = 0;
    while i < base.len()
        invariant
            i <= base.len(),
            start + base.len() == host.len(),
            forall|j: int| 0 <= j < i ==> host@[start + j] == base@[j],
        decreases base.len() - i,
    {
        if host[start + i] != base[i] {
            assert(host@.subrange(start as int, host.len() as int)[i as int] != base@[i as int]);
            return false;
        }
        i += 1;
    }
    assert(host@.subrange(start as int, host.len() as int) =~= base@);
    true
}

fn subdomain<'a>(host: &'a [char], base: &[char]) -> (sub: &'a [char])
    ensures
        sub@ == subdomain_of(host@, base@),
{
    if ends_with_domain(host, base) {
        slice_subrange(host, 0, host.len() - base.len() - 1)
    } else {
        host
    }
}

fn color_or(code: &Option<String>, fallback: Color) -> (c: Color)
    ensures
        c == code_color_or(optional_view(*code), fallback),
{
    match code {
        Some(s) => {
            let chars = to_chars(s.as_str());
            color_from_chars(chars.as_slice())
        },
        None => fallback,
    }
}

/// Resolves the foreground and background colour of a request from its host
/// name and its `fg` and `bg` query parameters. The fallback colours stand in
/// for a parameter that is absent; the caller picks them: transparent black,
/// fixed brand colours, or colours from [`get_random_color`].
pub fn get_color(
    host: &str,
    base_domain: &str,
    fg: Option<String>,
    bg: Option<String>,
    fallback_fg: Color,
    fallback_bg: Color,
) -> (colors: (Color, Color))
    ensures
        colors == resolved_colors(
            host@,
            base_domain@,
            optional_view(fg),
            optional_view(bg),
            fallback_fg,
            fallback_bg,
        ),
{
    let host_chars = to_chars(host);
    let base_chars = to_chars(base_domain);
    let sub = subdomain(host_chars.as_slice(), base_chars.as_slice());
    if sub.len() == 8 {
        (color_from_chars(slice_subrange(sub, 0, 4)), color_from_chars(slice_subrange(sub, 4, 8)))
    } else if sub.len() == 16 {
        (color_from_chars(slice_subrange(sub, 0, 8)), color_from_chars(slice_subrange(sub, 8, 16)))
    } else {
        (color_or(&fg, fallback_fg), color_or(&bg, fallback_bg))
    }
}

/// A subdomain of eight or sixteen characters decides both colours: neither
/// the query parameters nor the fallback colours matter then.
pub proof fn lemma_subdomain_comes_first(
    host: Seq<char>,
    base: Seq<char>,
    fg1: Option<Seq<char>>,
    bg1: Option<Seq<char>>,
    fallback_fg1: Color,
    fallback_bg1: Color,
    fg2: Option<Seq<char>>,
    bg2: Option<Seq<char>>,
    fallback_fg2: Color,
    fallback_bg2: Color,
)
    requires
        subdomain_of(host, base).len() == 8 || subdomain_of(host, base).len() == 16,
    ensures
        resolved_colors(host, base, fg1, bg1, fallback_fg1, fallback_bg1) == resolved_colors(
            host,
            base,
            fg2,
            bg2,
            fallback_fg2,
            fallback_bg2,
        ),
{
}

/// A query parameter that is present decides its colour whatever the
/// fallback colour is.
pub proof fn lemma_parameter_comes_before_fallback(
    host: Seq<char>,
    base: Seq<char>,
    fg: Seq<char>,
    bg: Seq<char>,
    fallback_fg: Color,
    fallback_bg: Color,
)
    requires
        subdomain_of(host, base).len() != 8,
        subdomain_of(host, base).len() != 16,
    ensures
        resolved_colors(host, base, Some(fg), Some(bg), fallback_fg, fallback_bg) == (
            code_color(fg),
            code_color(bg),
        ),
        resolved_colors(host, base, Some(fg), None, fallback_fg, fallback_bg) == (
            code_color(fg),
            fallback_bg,
        ),
        resolved_colors(host, base, None, Some(bg), fallback_fg, fallback_bg) == (
            fallback_fg,
            code_color(bg),
        ),
        resolved_colors(host, base, None, None, fallback_fg, fallback_bg) == (
            fallback_fg,
            fallback_bg,
        ),
{
}

/// One channel of a pseudo-random colour: `(a + b / c * d) mod 255`, in exact
/// arithmetic.
pub open spec fn mixed_channel(a: u64, b: u64, c: u64, d: u64) -> int {
    (a + (b / c) * d) % 255
}

/// The opaque colour that four words of entropy give.
pub open spec fn random_color(rand1: u64, rand2: u64, rand3: u64, rand4: u64) -> Color {
    Color {
        r: mixed_channel(rand1, rand2, rand3, rand4) as u8,
        g: mixed_channel(rand2, rand3, rand4, rand1) as u8,
        b: mixed_channel(rand3, rand4, rand1, rand2) as u8,
        a: 255,
    }
}

fn mix_channel(a: u64, b: u64, c: u64, d: u64) -> (r: u8)
    requires
        c != 0,
    ensures
        r == mixed_channel(a, b, c, d),
{
    let q: u128 = (b / c) as u128;
    let m: u128 = d as u128;
    assert(q * m <= 0xFFFF_FFFF_FFFF_FFFF * 0xFFFF_FFFF_FFFF_FFFF) by (nonlinear_arith)
        requires
            q <= 0xFFFF_FFFF_FFFF_FFFF,
            m <= 0xFFFF_FFFF_FFFF_FFFF,
    ;
    let sum: u128 = a as u128 + q * m;
    (sum % 255) as u8
}

/// A pseudo-random opaque colour from four words of entropy, which the caller
/// draws from whatever source the deployment prefers. The words that divide
/// must not be zero.
pub fn get_random_color(rand1: u64, rand2: u64, rand3: u64, rand4: u64) -> (c: Color)
    requires
        rand1 != 0,
        rand3 != 0,
        rand4 != 0,
    ensures
        c == random_color(rand1, rand2, rand3, rand4),
        c.a == 255,
{
    Color {
        r: mix_channel(rand1, rand2, rand3, rand4),
        g: mix_channel(rand2, rand3, rand4, rand1),
        b: mix_channel(rand3, rand4, rand1, rand2),
        a: 255,
    }
}

} // verus!
