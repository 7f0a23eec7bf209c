//! LED colors, styles and frames, and the LED settings of the configuration.
use vstd::prelude::*;
use crate::json::{self, JsonValue};
use crate::config;
use crate::text;
use super::HardwareError;

verus! {

/// An 8-bit RGB color.
#[derive(Debug, Clone, Copy, PartialEq, Eq)]
pub struct Rgb8 {
    pub r: u8,
    pub g: u8,
    pub b: u8,
}

impl Rgb8 {
    pub fn new(r: u8, g: u8, b: u8) -> (c: Rgb8)
        ensures
            c == (Rgb8 { r, g, b }),
    {
        Rgb8 { r, g, b }
    }
}

/// The LED animation styles.
#[derive(Debug, Clone, Copy, PartialEq, Eq)]
pub enum RgbStyle {
    Solid,
    Breathing,
    Rainbow,
    Chase,
    Pulse,
}

/// The style a name selects, compared in lower case; breathing for any
/// other name.
pub open spec fn style_of(lower: Seq<char>) -> RgbStyle {
    if lower == "solid"@ {
        RgbStyle::Solid
    } else if lower == "breathing"@ {
        RgbStyle::Breathing
    } else if lower == "rainbow"@ {
        RgbStyle::Rainbow
    } else if lower == "chase"@ {
        RgbStyle::Chase
    } else if lower == "pulse"@ {
        RgbStyle::Pulse
    } else {
        RgbStyle::Breathing
    }
}

impl RgbStyle {
    /// The style a name selects.
    pub fn from_str(s: &str) -> (r: RgbStyle)
        ensures
            r == style_of(text::lowercase(s@)),
    {
        let lower = text::to_lowercase(s);
        let l = lower.as_str();
        if text::str_eq(l, "solid") {
            RgbStyle::Solid
        } else if text::str_eq(l, "breathing") {
            RgbStyle::Breathing
        } else if text::str_eq(l, "rainbow") {
            RgbStyle::Rainbow
        } else if text::str_eq(l, "chase") {
            RgbStyle::Chase
        } else if text::str_eq(l, "pulse") {
            RgbStyle::Pulse
        } else {
            RgbStyle::Breathing
        }
    }
}

/// The text of a color once its leading `#` characters are removed.
pub open spec fn color_digits(hex: Seq<char>) -> Seq<char> {
    hex.skip(text::leading_count(hex, '#') as int)
}

/// The channel that two hexadecimal digits give (`RR`, `GG` or `BB`): the
/// first digit times sixteen plus the second. Anything else gives none.
pub open spec fn channel(s: Seq<char>) -> Option<u8> {
    if s.len() == 2 && text::all_hex(s) {
        Some((text::hex_digit(s[0]).unwrap() * 16 + text::hex_digit(s[1]).unwrap()) as u8)
    } else {
        None
    }
}

/// Whether the number reader takes the first two bytes of a color as a
/// channel value (it also takes a leading `+`), which decides whether the
/// reader goes on to the next pair.
pub open spec fn first_pair_read(s: Seq<char>) -> bool {
    match text::radix16(s) {
        Some(n) => n <= u8::MAX,
        None => false,
    }
}

/// Whether reading a color would cut a character in two: its six bytes are
/// read two at a time, and reading stops at the first pair that is not a
/// number, so the cut at the second byte always matters and the cut at the
/// fourth only once the first pair was read.
pub open spec fn color_splits_char(hex: Seq<char>) -> bool {
    let d = color_digits(hex);
    let b = vstd::utf8::encode_utf8(d);
    text::byte_len(d) == 6 && !vstd::utf8::is_ascii_chars(d)
        && (!vstd::utf8::is_char_boundary(b, 2)
            || (d.len() >= 2 && first_pair_read(d.subrange(0, 2)) && !vstd::utf8::is_char_boundary(b, 4)))
}

/// Whether reading the color would cut a character in two (reading it then
/// panics, so a caller checks this first).
pub fn splits_char(hex: &str) -> (r: bool)
    ensures
        r == color_splits_char(hex@),
{
    let h = text::trim_start_char(hex, '#');
    assert(h@ == color_digits(hex@));
    if h.len() != 6 || h.is_ascii() {
        return false;
    }
    if !h.is_char_boundary(2) {
        return true;
    }
    let n = h.unicode_len();
    if n < 2 {
        return false;
    }
    let first = text::u8_from_hex(h.substring_char(0, 2));
    first.is_some() && !h.is_char_boundary(4)
}

/// What reading a color gives: the text after the leading `#`s must be six
/// bytes long, and then six hexadecimal digits `RRGGBB`, read as three
/// two-digit channels.
pub open spec fn color_of(hex: Seq<char>) -> Result<Rgb8, HardwareError> {
    let d = color_digits(hex);
    if text::byte_len(d) != 6 {
        Err(HardwareError::InvalidHexColor)
    } else if !(d.len() == 6 && text::all_hex(d)) {
        Err(HardwareError::InvalidDigit)
    } else {
        Ok(Rgb8 {
            r: channel(d.subrange(0, 2)).unwrap(),
            g: channel(d.subrange(2, 4)).unwrap(),
            b: channel(d.subrange(4, 6)).unwrap(),
        })
    }
}

/// Reads a color such as `#0a1aff`.
pub fn parse_hex_color(hex: &str) -> (r: Result<Rgb8, HardwareError>)
    requires
        !color_splits_char(hex@),
    ensures
        r == color_of(hex@),
{
    let h = text::trim_start_char(hex, '#');
    assert(h@ == color_digits(hex@));
    if !h.is_ascii() {
        if h.len() != 6 {
            return Err(HardwareError::InvalidHexColor);
        }
        proof {
            let i = choose|i: int| 0 <= i < h@.len() && !('\0' <= #[trigger] h@[i] <= '\u{7f}');
            assert(text::hex_digit(h@[i]) is None);
        }
        return Err(HardwareError::InvalidDigit);
    }
    proof {
        vstd::string::is_ascii_spec_bytes(h);
    }
    if h.unicode_len() != 6 {
        return Err(HardwareError::InvalidHexColor);
    }
    if !text::all_hex_digits(h) {
        return Err(HardwareError::InvalidDigit);
    }
    let rs = h.substring_ascii(0, 2);
    let gs = h.substring_ascii(2, 4);
    let bs = h.substring_ascii(4, 6);
    proof {
        assert(rs@ =~= h@.subrange(0, 2));
        assert(gs@ =~= h@.subrange(2, 4));
        assert(bs@ =~= h@.subrange(4, 6));
        assert(text::all_hex(rs@) && text::all_hex(gs@) && text::all_hex(bs@)) by {
            assert forall|i: int| 0 <= i < 2 implies #[trigger] text::hex_digit(rs@[i]) is Some by {
                assert(rs@[i] == h@[i]);
            }
            assert forall|i: int| 0 <= i < 2 implies #[trigger] text::hex_digit(gs@[i]) is Some by {
                assert(gs@[i] == h@[i + 2]);
            }
            assert forall|i: int| 0 <= i < 2 implies #[trigger] text::hex_digit(bs@[i]) is Some by {
                assert(bs@[i] == h@[i + 4]);
            }
        }
        text::lemma_two_hex_digits(rs@);
        text::lemma_two_hex_digits(gs@);
        text::lemma_two_hex_digits(bs@);
    }
    let r = text::u8_from_hex(rs);
    let g = text::u8_from_hex(gs);
    let b = text::u8_from_hex(bs);
    match (r, g, b) {
        (Some(r), Some(g), Some(b)) => Ok(Rgb8 { r, g, b }),
        _ => Err(HardwareError::InvalidDigit),
    }
}

/// The LED settings of the configuration.
#[derive(Debug, Clone, Copy, PartialEq, Eq)]
pub struct RgbSettings {
    pub led_count: usize,
    pub brightness: u8,
    pub color: Rgb8,
    pub style: RgbStyle,
    pub speed: u8,
    pub enabled: bool,
}

/// A configured number, or a default when it is not a non-negative integer.
pub open spec fn number_or(v: json::Json, default: u64) -> u64 {
    match json::json_as_u64(v) {
        Some(n) => n,
        None => default,
    }
}

/// A configured text, or a default when it is not a string.
pub open spec fn text_or(v: json::Json, default: Seq<char>) -> Seq<char> {
    match json::json_as_str(v) {
        Some(s) => s,
        None => default,
    }
}

/// A configured truth value, or a default when it is not a boolean.
pub open spec fn bool_or(v: json::Json, default: bool) -> bool {
    match json::json_as_bool(v) {
        Some(b) => b,
        None => default,
    }
}

fn number_setting(config: &JsonValue, key: &str, default: u64) -> (r: u64)
    ensures
        r == number_or(config::system_setting(config@, key@), default),
{
    match config::get_system_setting(config, key) {
        Some(v) => match v.as_u64() {
            Some(n) => n,
            None => default,
        },
        None => default,
    }
}

fn bool_setting(config: &JsonValue, key: &str, default: bool) -> (r: bool)
    ensures
        r == bool_or(config::system_setting(config@, key@), default),
{
    match config::get_system_setting(config, key) {
        Some(v) => match v.as_bool() {
            Some(b) => b,
            None => default,
        },
        None => default,
    }
}

fn text_setting<'a>(config: &'a JsonValue, key: &str, default: &'a str) -> (r: &'a str)
    ensures
        r@ == text_or(config::system_setting(config@, key@), default@),
{
    match config::get_system_setting(config, key) {
        Some(v) => match v.as_str() {
            Some(s) => s,
            None => default,
        },
        None => default,
    }
}

/// The color text the configuration selects.
pub open spec fn configured_color(config: json::Json) -> Seq<char> {
    text_or(config::system_setting(config, "rgb_color"@), "#0a1aff"@)
}

/// The color text the configuration selects: `system.rgb_color` when it is
/// a string, else `#0a1aff`.
pub fn configured_color_text(config: &JsonValue) -> (r: String)
    ensures
        r@ == configured_color(config@),
{
    String::from_str(text_setting(config, "rgb_color", "#0a1aff"))
}

/// The message for a color that cannot be read.
pub fn color_error_message(e: HardwareError, hex: &str) -> (r: String)
    ensures
        r@ == match e {
            HardwareError::InvalidHexColor => "Invalid hex color format: "@ + color_digits(hex@),
            HardwareError::InvalidDigit => "invalid digit found in string"@,
        },
{
    match e {
        HardwareError::InvalidHexColor => {
            let mut m = String::from_str("Invalid hex color format: ");
            m.append(text::trim_start_char(hex, '#'));
            m
        },
        HardwareError::InvalidDigit => String::from_str("invalid digit found in string"),
    }
}

impl RgbSettings {
    /// Reads the LED settings from the `system` section: `rgb_led_count`
    /// (4), `rgb_brightness` (50, cut to eight bits), `rgb_enable` (true),
    /// `rgb_color` (`#0a1aff`), `rgb_style` (breathing) and `rgb_speed` (50,
    /// cut to eight bits). Fails when the color cannot be read.
    pub fn from_config(config: &JsonValue) -> (r: Result<RgbSettings, HardwareError>)
        requires
            !color_splits_char(configured_color(config@)),
        ensures
            match color_of(configured_color(config@)) {
                Err(e) => r == Err::<RgbSettings, HardwareError>(e),
                Ok(color) => r == Ok::<RgbSettings, HardwareError>(RgbSettings {
                    led_count: number_or(config::system_setting(config@, "rgb_led_count"@), 4) as usize,
                    brightness: number_or(config::system_setting(config@, "rgb_brightness"@), 50) as u8,
                    color,
                    style: style_of(text::lowercase(text_or(config::system_setting(config@, "rgb_style"@), "breathing"@))),
                    speed: number_or(config::system_setting(config@, "rgb_speed"@), 50) as u8,
                    enabled: bool_or(config::system_setting(config@, "rgb_enable"@), true),
                }),
            },
    {
        let led_count = number_setting(config, "rgb_led_count", 4) as usize;
        let brightness = number_setting(config, "rgb_brightness", 50) as u8;
        let enabled = bool_setting(config, "rgb_enable", true);
        let color_str = text_setting(config, "rgb_color", "#0a1aff");
        let color = match parse_hex_color(color_str) {
            Ok(c) => c,
            Err(e) => {
                return Err(e);
            },
        };
        let style = RgbStyle::from_str(text_setting(config, "rgb_style", "breathing"));
        let speed = number_setting(config, "rgb_speed", 50) as u8;
        Ok(RgbSettings { led_count, brightness, color, style, speed, enabled })
    }
}

/// `count` LEDs of one color.
pub fn uniform_frame(count: usize, color: Rgb8) -> (r: Vec<Rgb8>)
    ensures
        r@ == Seq::new(count as nat, |i: int| color),
{
    let mut v: Vec<Rgb8> = Vec::new();
    let mut i: usize = 0;
    while i < count
        invariant
            i <= count,
            v@ == Seq::new(i as nat, |j: int| color),
        decreases count - i,
    {
        v.push(color);
        i = i + 1;
        assert(v@ =~= Seq::new(i as nat, |j: int| color));
    }
    v
}

/// `count` dark LEDs.
pub fn off_frame(count: usize) -> (r: Vec<Rgb8>)
    ensures
        r@ == Seq::new(count as nat, |i: int| Rgb8 { r: 0, g: 0, b: 0 }),
{
    uniform_frame(count, Rgb8::new(0, 0, 0))
}

/// The lit LED of the chase animation after `step` steps.
pub fn chase_position(step: usize, count: usize) -> (r: usize)
    requires
        count > 0,
    ensures
        r == step % count,
        r < count,
{
    step % count
}

/// `count` LEDs, dark but for the one at `position`.
pub fn chase_frame(count: usize, position: usize, color: Rgb8) -> (r: Vec<Rgb8>)
    ensures
        r@ == Seq::new(count as nat, |i: int| if i == position { color } else { Rgb8 { r: 0, g: 0, b: 0 } }),
{
    let mut v: Vec<Rgb8> = Vec::new();
    let mut i: usize = 0;
    while i < count
        invariant
            i <= count,
            v@ == Seq::new(i as nat, |j: int| if j == position { color } else { Rgb8 { r: 0, g: 0, b: 0 } }),
        decreases count - i,
    {
        if i == position {
            v.push(color);
        } else {
            v.push(Rgb8::new(0, 0, 0));
        }
        i = i + 1;
        assert(v@ =~= Seq::new(i as nat, |j: int| if j == position { color } else { Rgb8 { r: 0, g: 0, b: 0 } }));
    }
    v
}

/// A configured setting is used as it is: a non-negative integer (0
/// included) gives itself, a boolean itself and a string itself; the default
/// stands in only for a setting that is missing or of another kind.
pub proof fn law_settings_used_as_configured(v: json::Json, n: u64, b: bool, t: Seq<char>, dn: u64, db: bool, dt: Seq<char>)
    ensures
        number_or(json::Json::Number(json::JsonNumber::PosInt(n)), dn) == n,
        bool_or(json::Json::Bool(b), db) == b,
        text_or(json::Json::Str(t), dt) == t,
        !(v matches json::Json::Number(json::JsonNumber::PosInt(_))) ==> number_or(v, dn) == dn,
        !(v is Bool) ==> bool_or(v, db) == db,
        !(v is Str) ==> text_or(v, dt) == dt,
{
}

/// The style names, in lower case: `solid`, `rainbow`, `chase` and `pulse`
/// select their styles, and every other name selects breathing.
pub proof fn law_style_names(lower: Seq<char>)
    ensures
        (style_of(lower) == RgbStyle::Solid) <==> lower == seq!['s', 'o', 'l', 'i', 'd'],
        (style_of(lower) == RgbStyle::Rainbow) <==> lower == seq!['r', 'a', 'i', 'n', 'b', 'o', 'w'],
        (style_of(lower) == RgbStyle::Chase) <==> lower == seq!['c', 'h', 'a', 's', 'e'],
        (style_of(lower) == RgbStyle::Pulse) <==> lower == seq!['p', 'u', 'l', 's', 'e'],
{
    reveal_strlit("solid");
    reveal_strlit("breathing");
    reveal_strlit("rainbow");
    reveal_strlit("chase");
    reveal_strlit("pulse");
    assert(seq!['s', 'o', 'l', 'i', 'd'] =~= "solid"@);
    assert(seq!['r', 'a', 'i', 'n', 'b', 'o', 'w'] =~= "rainbow"@);
    assert(seq!['c', 'h', 'a', 's', 'e'] =~= "chase"@);
    assert(seq!['p', 'u', 'l', 's', 'e'] =~= "pulse"@);
}

} // verus!
