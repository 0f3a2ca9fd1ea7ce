//! What the web interface answers and decides: the JSON bodies of its
//! replies, the command a CSS colour stands for, and the controllers it
//! registers.
use vstd::prelude::*;
use crate::commands::{Commands, Strip};
use crate::config_utils::{Config, StripConfig};
use crate::text::{decimal, decimal_value, field_end, is_digit, push_decimal};

verus! {

/// A reply of the web interface: an HTTP status and a JSON body.
#[derive(Debug)]
pub struct Reply {
    pub status: u16,
    pub body: String,
}

/// The HTTP status of every reply: 200, OK.
pub const STATUS_OK: u16 = 200;

/// The reply to the root path, telling that the service is up.
pub fn index() -> (reply: Reply)
    ensures
        reply.status == STATUS_OK,
        reply.body@ == "{\"status\": \"ok\"}"@,
{
    Reply { status: STATUS_OK, body: String::from_str("{\"status\": \"ok\"}") }
}

/// The body that reports a command sent to the controller `name`.
pub open spec fn command_body(name: Seq<char>) -> Seq<char> {
    "{\"status\": \"on\", \"name\": \""@ + name + "\"}"@
}

/// The reply to a command sent to the controller `name`.
pub fn command_reply(name: &str) -> (reply: Reply)
    ensures
        reply.status == STATUS_OK,
        reply.body@ == command_body(name@),
{
    let mut body = String::from_str("{\"status\": \"on\", \"name\": \"");
    body.append(name);
    body.append("\"}");
    Reply { status: STATUS_OK, body }
}

/// The body that reports a colour set on the controller `name`.
pub open spec fn color_body(name: Seq<char>) -> Seq<char> {
    "{\"status\": \"color\", \"name\": \""@ + name + "\"}"@
}

/// The reply to a colour set on the controller `name`.
pub fn color_reply(name: &str) -> (reply: Reply)
    ensures
        reply.status == STATUS_OK,
        reply.body@ == color_body(name@),
{
    let mut body = String::from_str("{\"status\": \"color\", \"name\": \"");
    body.append(name);
    body.append("\"}");
    Reply { status: STATUS_OK, body }
}

/// The body that reports a controller registered under `name`, whose
/// submitted form reads as `state` (the form's `Debug` text).
pub open spec fn create_body(name: Seq<char>, state: Seq<char>) -> Seq<char> {
    "{\"status\": \"create\", \"name\": \""@ + name + "\", \"state\": {"@ + state + "}}"@
}

/// The reply to a controller registered under `name`; `state` is the text
/// the submitted form is shown as.
pub fn create_reply(name: &str, state: &str) -> (reply: Reply)
    ensures
        reply.status == STATUS_OK,
        reply.body@ == create_body(name@, state@),
{
    let mut body = String::from_str("{\"status\": \"create\", \"name\": \"");
    body.append(name);
    body.append("\", \"state\": {");
    body.append(state);
    body.append("}}");
    Reply { status: STATUS_OK, body }
}

/// `true` or `false`, as `bool` is displayed.
pub open spec fn bool_text(b: bool) -> Seq<char> {
    if b { "true"@ } else { "false"@ }
}

/// The body that reports the state of the controller `name`: its colour as
/// a list of three numbers, and whether it is on.
pub open spec fn state_body(name: Seq<char>, color: (u8, u8, u8), powered: bool) -> Seq<char> {
    "{\"status\": \"status\", \"name\": \""@ + name + "\", \"state\": {\"color\": ["@
        + decimal(color.0 as nat) + ", "@ + decimal(color.1 as nat) + ", "@ + decimal(
        color.2 as nat,
    ) + "], \"powered\": "@ + bool_text(powered) + "}}"@
}

/// The reply that reports the state of the controller `name`, as `strip`
/// last reported it.
pub fn state_reply(name: &str, strip: &Strip) -> (reply: Reply)
    ensures
        reply.status == STATUS_OK,
        reply.body@ == state_body(name@, strip.color, strip.powered),
{
    let mut body = String::from_str("{\"status\": \"status\", \"name\": \"");
    body.append(name);
    body.append("\", \"state\": {\"color\": [");
    push_decimal(&mut body, strip.color.0 as u16);
    body.append(", ");
    push_decimal(&mut body, strip.color.1 as u16);
    body.append(", ");
    push_decimal(&mut body, strip.color.2 as u16);
    body.append("], \"powered\": ");
    if strip.powered {
        body.append("true");
    } else {
        body.append("false");
    }
    body.append("}}");
    Reply { status: STATUS_OK, body }
}

/// An ASCII hexadecimal digit, of either case.
pub open spec fn is_hex_digit(c: char) -> bool {
    ('0' <= c && c <= '9') || ('a' <= c && c <= 'f') || ('A' <= c && c <= 'F')
}

/// The value of a hexadecimal digit.
pub open spec fn hex_digit_value(c: char) -> int {
    if '0' <= c && c <= '9' {
        c as int - '0' as int
    } else if 'a' <= c && c <= 'f' {
        c as int - 'a' as int + 10
    } else {
        c as int - 'A' as int + 10
    }
}

/// A hexadecimal digit repeated, as in the short form `#rgb`: `f` is 0xff.
pub open spec fn short_channel(c: char) -> u8 {
    (hex_digit_value(c) * 17) as u8
}

/// Two hexadecimal digits, as in the long form `#rrggbb`.
pub open spec fn long_channel(hi: char, lo: char) -> u8 {
    (hex_digit_value(hi) * 16 + hex_digit_value(lo)) as u8
}

/// The colour, as red, green, blue and alpha bytes, that a hexadecimal CSS
/// colour stands for: an optional `#`, then 3, 4, 6 or 8 hexadecimal digits
/// and nothing else (`#rgb`, `#rgba`, `#rrggbb`, `#rrggbbaa`; alpha 255 when
/// it is not given). `None` for any other text.
pub open spec fn css_hex_color(text: Seq<char>) -> Option<(u8, u8, u8, u8)> {
    let d = if text.len() > 0 && text[0] == '#' { text.drop_first() } else { text };
    if !(forall|i: int| 0 <= i < d.len() ==> is_hex_digit(#[trigger] d[i])) {
        None
    } else if d.len() == 3 {
        Some((short_channel(d[0]), short_channel(d[1]), short_channel(d[2]), 255u8))
    } else if d.len() == 4 {
        Some((short_channel(d[0]), short_channel(d[1]), short_channel(d[2]), short_channel(d[3])))
    } else if d.len() == 6 {
        Some((long_channel(d[0], d[1]), long_channel(d[2], d[3]), long_channel(d[4], d[5]), 255u8))
    } else if d.len() == 8 {
        Some(
            (
                long_channel(d[0], d[1]),
                long_channel(d[2], d[3]),
                long_channel(d[4], d[5]),
                long_channel(d[6], d[7]),
            ),
        )
    } else {
        None
    }
}

/// The named CSS colours, by lower-case name, as red, green and blue bytes.
pub open spec fn named_colors() -> Map<Seq<char>, (u8, u8, u8)> {
    map![
        "aliceblue"@ => (240u8, 248u8, 255u8),
        "antiquewhite"@ => (250u8, 235u8, 215u8),
        "aqua"@ => (0u8, 255u8, 255u8),
        "aquamarine"@ => (127u8, 255u8, 212u8),
        "azure"@ => (240u8, 255u8, 255u8),
        "beige"@ => (245u8, 245u8, 220u8),
        "bisque"@ => (255u8, 228u8, 196u8),
        "black"@ => (0u8, 0u8, 0u8),
        "blanchedalmond"@ => (255u8, 235u8, 205u8),
        "blue"@ => (0u8, 0u8, 255u8),
        "blueviolet"@ => (138u8, 43u8, 226u8),
        "brown"@ => (165u8, 42u8, 42u8),
        "burlywood"@ => (222u8, 184u8, 135u8),
        "cadetblue"@ => (95u8, 158u8, 160u8),
        "chartreuse"@ => (127u8, 255u8, 0u8),
        "chocolate"@ => (210u8, 105u8, 30u8),
        "coral"@ => (255u8, 127u8, 80u8),
        "cornflowerblue"@ => (100u8, 149u8, 237u8),
        "cornsilk"@ => (255u8, 248u8, 220u8),
        "crimson"@ => (220u8, 20u8, 60u8),
        "cyan"@ => (0u8, 255u8, 255u8),
        "darkblue"@ => (0u8, 0u8, 139u8),
        "darkcyan"@ => (0u8, 139u8, 139u8),
        "darkgoldenrod"@ => (184u8, 134u8, 11u8),
        "darkgray"@ => (169u8, 169u8, 169u8),
        "darkgreen"@ => (0u8, 100u8, 0u8),
        "darkgrey"@ => (169u8, 169u8, 169u8),
        "darkkhaki"@ => (189u8, 183u8, 107u8),
        "darkmagenta"@ => (139u8, 0u8, 139u8),
        "darkolivegreen"@ => (85u8, 107u8, 47u8),
        "darkorange"@ => (255u8, 140u8, 0u8),
        "darkorchid"@ => (153u8, 50u8, 204u8),
        "darkred"@ => (139u8, 0u8, 0u8),
        "darksalmon"@ => (233u8, 150u8, 122u8),
        "darkseagreen"@ => (143u8, 188u8, 143u8),
        "darkslateblue"@ => (72u8, 61u8, 139u8),
        "darkslategray"@ => (47u8, 79u8, 79u8),
        "darkslategrey"@ => (47u8, 79u8, 79u8),
        "darkturquoise"@ => (0u8, 206u8, 209u8),
        "darkviolet"@ => (148u8, 0u8, 211u8),
        "deeppink"@ => (255u8, 20u8, 147u8),
        "deepskyblue"@ => (0u8, 191u8, 255u8),
        "dimgray"@ => (105u8, 105u8, 105u8),
        "dimgrey"@ => (105u8, 105u8, 105u8),
        "dodgerblue"@ => (30u8, 144u8, 255u8),
        "firebrick"@ => (178u8, 34u8, 34u8),
        "floralwhite"@ => (255u8, 250u8, 240u8),
        "forestgreen"@ => (34u8, 139u8, 34u8),
        "fuchsia"@ => (255u8, 0u8, 255u8),
        "gainsboro"@ => (220u8, 220u8, 220u8),
        "ghostwhite"@ => (248u8, 248u8, 255u8),
        "gold"@ => (255u8, 215u8, 0u8),
        "goldenrod"@ => (218u8, 165u8, 32u8),
        "gray"@ => (128u8, 128u8, 128u8),
        "green"@ => (0u8, 128u8, 0u8),
        "greenyellow"@ => (173u8, 255u8, 47u8),
        "grey"@ => (128u8, 128u8, 128u8),
        "honeydew"@ => (240u8, 255u8, 240u8),
        "hotpink"@ => (255u8, 105u8, 180u8),
        "indianred"@ => (205u8, 92u8, 92u8),
        "indigo"@ => (75u8, 0u8, 130u8),
        "ivory"@ => (255u8, 255u8, 240u8),
        "khaki"@ => (240u8, 230u8, 140u8),
        "lavender"@ => (230u8, 230u8, 250u8),
        "lavenderblush"@ => (255u8, 240u8, 245u8),
        "lawngreen"@ => (124u8, 252u8, 0u8),
        "lemonchiffon"@ => (255u8, 250u8, 205u8),
        "lightblue"@ => (173u8, 216u8, 230u8),
        "lightcoral"@ => (240u8, 128u8, 128u8),
        "lightcyan"@ => (224u8, 255u8, 255u8),
        "lightgoldenrodyellow"@ => (250u8, 250u8, 210u8),
        "lightgray"@ => (211u8, 211u8, 211u8),
        "lightgreen"@ => (144u8, 238u8, 144u8),
        "lightgrey"@ => (211u8, 211u8, 211u8),
        "lightpink"@ => (255u8, 182u8, 193u8),
        "lightsalmon"@ => (255u8, 160u8, 122u8),
        "lightseagreen"@ => (32u8, 178u8, 170u8),
        "lightskyblue"@ => (135u8, 206u8, 250u8),
        "lightslategray"@ => (119u8, 136u8, 153u8),
        "lightslategrey"@ => (119u8, 136u8, 153u8),
        "lightsteelblue"@ => (176u8, 196u8, 222u8),
        "lightyellow"@ => (255u8, 255u8, 224u8),
        "lime"@ => (0u8, 255u8, 0u8),
        "limegreen"@ => (50u8, 205u8, 50u8),
        "linen"@ => (250u8, 240u8, 230u8),
        "magenta"@ => (255u8, 0u8, 255u8),
        "maroon"@ => (128u8, 0u8, 0u8),
        "mediumaquamarine"@ => (102u8, 205u8, 170u8),
        "mediumblue"@ => (0u8, 0u8, 205u8),
        "mediumorchid"@ => (186u8, 85u8, 211u8),
        "mediumpurple"@ => (147u8, 112u8, 219u8),
        "mediumseagreen"@ => (60u8, 179u8, 113u8),
        "mediumslateblue"@ => (123u8, 104u8, 238u8),
        "mediumspringgreen"@ => (0u8, 250u8, 154u8),
        "mediumturquoise"@ => (72u8, 209u8, 204u8),
        "mediumvioletred"@ => (199u8, 21u8, 133u8),
        "midnightblue"@ => (25u8, 25u8, 112u8),
        "mintcream"@ => (245u8, 255u8, 250u8),
        "mistyrose"@ => (255u8, 228u8, 225u8),
        "moccasin"@ => (255u8, 228u8, 181u8),
        "navajowhite"@ => (255u8, 222u8, 173u8),
        "navy"@ => (0u8, 0u8, 128u8),
        "oldlace"@ => (253u8, 245u8, 230u8),
        "olive"@ => (128u8, 128u8, 0u8),
        "olivedrab"@ => (107u8, 142u8, 35u8),
        "orange"@ => (255u8, 165u8, 0u8),
        "orangered"@ => (255u8, 69u8, 0u8),
        "orchid"@ => (218u8, 112u8, 214u8),
        "palegoldenrod"@ => (238u8, 232u8, 170u8),
        "palegreen"@ => (152u8, 251u8, 152u8),
        "paleturquoise"@ => (175u8, 238u8, 238u8),
        "palevioletred"@ => (219u8, 112u8, 147u8),
        "papayawhip"@ => (255u8, 239u8, 213u8),
        "peachpuff"@ => (255u8, 218u8, 185u8),
        "peru"@ => (205u8, 133u8, 63u8),
        "pink"@ => (255u8, 192u8, 203u8),
        "plum"@ => (221u8, 160u8, 221u8),
        "powderblue"@ => (176u8, 224u8, 230u8),
        "purple"@ => (128u8, 0u8, 128u8),
        "rebeccapurple"@ => (102u8, 51u8, 153u8),
        "red"@ => (255u8, 0u8, 0u8),
        "rosybrown"@ => (188u8, 143u8, 143u8),
        "royalblue"@ => (65u8, 105u8, 225u8),
        "saddlebrown"@ => (139u8, 69u8, 19u8),
        "salmon"@ => (250u8, 128u8, 114u8),
        "sandybrown"@ => (244u8, 164u8, 96u8),
        "seagreen"@ => (46u8, 139u8, 87u8),
        "seashell"@ => (255u8, 245u8, 238u8),
        "sienna"@ => (160u8, 82u8, 45u8),
        "silver"@ => (192u8, 192u8, 192u8),
        "skyblue"@ => (135u8, 206u8, 235u8),
        "slateblue"@ => (106u8, 90u8, 205u8),
        "slategray"@ => (112u8, 128u8, 144u8),
        "slategrey"@ => (112u8, 128u8, 144u8),
        "snow"@ => (255u8, 250u8, 250u8),
        "springgreen"@ => (0u8, 255u8, 127u8),
        "steelblue"@ => (70u8, 130u8, 180u8),
        "tan"@ => (210u8, 180u8, 140u8),
        "teal"@ => (0u8, 128u8, 128u8),
        "thistle"@ => (216u8, 191u8, 216u8),
        "tomato"@ => (255u8, 99u8, 71u8),
        "turquoise"@ => (64u8, 224u8, 208u8),
        "violet"@ => (238u8, 130u8, 238u8),
        "wheat"@ => (245u8, 222u8, 179u8),
        "white"@ => (255u8, 255u8, 255u8),
        "whitesmoke"@ => (245u8, 245u8, 245u8),
        "yellow"@ => (255u8, 255u8, 0u8),
        "yellowgreen"@ => (154u8, 205u8, 50u8),
    ]
}

/// The text with its ASCII capitals made small; other characters unchanged.
pub open spec fn ascii_lower(text: Seq<char>) -> Seq<char> {
    text.map_values(|c: char| if 'A' <= c && c <= 'Z' { (c as int + 32) as char } else { c })
}

/// The colour that a CSS keyword stands for, matched without regard to
/// ASCII case: `transparent` is black with alpha 0, a named colour has alpha
/// 255. `None` for any other text.
pub open spec fn css_keyword_color(text: Seq<char>) -> Option<(u8, u8, u8, u8)> {
    let k = ascii_lower(text);
    if k == "transparent"@ {
        Some((0u8, 0u8, 0u8, 0u8))
    } else if named_colors().contains_key(k) {
        let c = named_colors()[k];
        Some((c.0, c.1, c.2, 255u8))
    } else {
        None
    }
}

/// One to three ASCII digits.
pub open spec fn small_number(s: Seq<char>) -> bool {
    1 <= s.len() <= 3 && forall|i: int| 0 <= i < s.len() ==> is_digit(#[trigger] s[i])
}

/// The text without its leading spaces.
pub open spec fn skip_spaces(s: Seq<char>) -> Seq<char>
    decreases s.len(),
{
    if s.len() > 0 && s[0] == ' ' {
        skip_spaces(s.drop_first())
    } else {
        s
    }
}

/// A channel given as a number: its value, or 255 for any larger number.
pub open spec fn channel_byte(s: Seq<char>) -> u8 {
    if decimal_value(s) <= 255 {
        decimal_value(s) as u8
    } else {
        255u8
    }
}

/// The colour of an `rgb()` text with three whole numbers: `rgb(` right
/// before the first number, a comma and optional spaces before each of the
/// other two, `)` right after the last; each number has one to three
/// digits, and numbers above 255 stand for 255. Alpha is 255. `None` for any
/// other text.
pub open spec fn css_rgb_color(text: Seq<char>) -> Option<(u8, u8, u8, u8)> {
    if text.len() >= 5 && text.take(4) == seq!['r', 'g', 'b', '('] && text.last() == ')' {
        let inner = text.subrange(4, text.len() - 1);
        let e0 = field_end(inner, 0);
        let e1 = field_end(inner, e0 + 1);
        let e2 = field_end(inner, e1 + 1);
        if e0 < inner.len() && e1 < inner.len() && e2 == inner.len() {
            let f0 = inner.subrange(0, e0);
            let f1 = skip_spaces(inner.subrange(e0 + 1, e1));
            let f2 = skip_spaces(inner.subrange(e1 + 1, e2));
            if small_number(f0) && small_number(f1) && small_number(f2) {
                Some((channel_byte(f0), channel_byte(f1), channel_byte(f2), 255u8))
            } else {
                None
            }
        } else {
            None
        }
    } else {
        None
    }
}

/// A plain decimal number: one to ten characters, all ASCII digits but at
/// most one `.` that has a digit on each side.
pub open spec fn plain_decimal(s: Seq<char>) -> bool {
    &&& 1 <= s.len() <= 10
    &&& ((forall|i: int| 0 <= i < s.len() ==> is_digit(#[trigger] s[i])) || exists|p: int|
        0 < p < s.len() - 1 && s[p] == '.' && forall|i: int|
            0 <= i < s.len() && i != p ==> is_digit(#[trigger] s[i]))
}

/// The arguments of a CSS colour function, given the text between its
/// parentheses: three or four fields separated by commas, each with its
/// leading spaces dropped. `None` for fewer or more fields.
pub open spec fn function_args(inner: Seq<char>) -> Option<Seq<Seq<char>>> {
    let e0 = field_end(inner, 0);
    let e1 = field_end(inner, e0 + 1);
    let e2 = field_end(inner, e1 + 1);
    let e3 = field_end(inner, e2 + 1);
    let f0 = skip_spaces(inner.subrange(0, e0));
    let f1 = skip_spaces(inner.subrange(e0 + 1, e1));
    let f2 = skip_spaces(inner.subrange(e1 + 1, e2));
    if e0 < inner.len() && e1 < inner.len() && e2 == inner.len() {
        Some(seq![f0, f1, f2])
    } else if e0 < inner.len() && e1 < inner.len() && e2 < inner.len() && e3 == inner.len() {
        Some(seq![f0, f1, f2, skip_spaces(inner.subrange(e2 + 1, e3))])
    } else {
        None
    }
}

/// The colour functions whose arguments are all plain numbers.
pub open spec fn css_function_names() -> Seq<Seq<char>> {
    seq![
        "rgb"@, "rgba"@, "hsl"@, "hsla"@, "hwb"@, "hwba"@, "hsv"@, "hsva"@, "lab"@, "lch"@,
        "oklab"@, "oklch"@,
    ]
}

/// A colour function written with plain numbers: one of
/// `css_function_names`, in lower case, then `(`, three or four plain
/// decimal numbers separated by commas (spaces may follow each comma), and
/// `)` at the end.
pub open spec fn plain_function_color(text: Seq<char>) -> bool {
    exists|p: int|
        0 < p < text.len() && text[p] == '(' && text.last() == ')' && css_function_names().contains(
            #[trigger] text.take(p),
        ) && plain_args(text.subrange(p + 1, text.len() - 1))
}

/// Three or four arguments, each a plain decimal number.
pub open spec fn plain_args(inner: Seq<char>) -> bool {
    match function_args(inner) {
        Some(args) => forall|i: int| 0 <= i < args.len() ==> plain_decimal(#[trigger] args[i]),
        None => false,
    }
}

/// The red, green and blue bytes of a colour, if there is one.
pub open spec fn rgb_of(rgba: Option<(u8, u8, u8, u8)>) -> Option<(u8, u8, u8)> {
    match rgba {
        Some(c) => Some((c.0, c.1, c.2)),
        None => None,
    }
}

/// The red, green and blue bytes of `rgb()` or `rgba()` with three whole
/// numbers of one to three digits (above 255 standing for 255) and an
/// optional fourth plain decimal number, the alpha. `None` for any other
/// text.
pub open spec fn css_rgb_channels(text: Seq<char>) -> Option<(u8, u8, u8)> {
    let p = if text.take(4) == seq!['r', 'g', 'b', '('] {
        4
    } else if text.take(5) == seq!['r', 'g', 'b', 'a', '('] {
        5
    } else {
        0int
    };
    if p > 0 && text.len() > p && text.last() == ')' {
        match function_args(text.subrange(p, text.len() - 1)) {
            Some(args) => if small_number(args[0]) && small_number(args[1]) && small_number(args[2])
                && (args.len() == 3 || plain_decimal(args[3])) {
                Some((channel_byte(args[0]), channel_byte(args[1]), channel_byte(args[2])))
            } else {
                None
            },
            None => None,
        }
    } else {
        None
    }
}

/// Calls `csscolorparser::parse` on `text` and, if it succeeds, turns the
/// colour into red, green, blue and alpha bytes with `Color::to_rgba8`;
/// `None` when the text is no CSS colour. The contract states the forms
/// whose bytes `csscolorparser` determines exactly: the hexadecimal forms
/// (read digit by digit); the keyword `transparent` and the named colours of
/// its table, matched without regard to ASCII case once the text is no
/// hexadecimal colour; and `rgb()` with three whole numbers, each divided
/// by 255 and clamped. `to_rgba8` gives those bytes back exactly. The empty
/// text is no colour. The other forms (`hsl()`, `lab()`, `oklch()`,
/// `color(xyz ...)`, fractions and percentages, relative colours and the
/// like) are left unsaid: some are computed with floating-point functions
/// whose precision the standard library leaves to the platform, and whether
/// such a text parses at all can hang on one of those results (a `calc()`
/// division by a computed zero).
#[verifier::external_body]
fn parse_css_color(text: &str) -> (rgba: Option<(u8, u8, u8, u8)>)
    ensures
        css_hex_color(text@) is Some ==> rgba == css_hex_color(text@),
        css_hex_color(text@) is None && css_keyword_color(text@) is Some ==> rgba
            == css_keyword_color(text@),
        css_rgb_color(text@) is Some ==> rgba == css_rgb_color(text@),
        css_rgb_channels(text@) is Some ==> rgb_of(rgba) == css_rgb_channels(text@),
        plain_function_color(text@) ==> rgba is Some,
        text@.len() == 0 ==> rgba is None,
{
    match csscolorparser::parse(text) {
        Ok(color) => {
            let [r, g, b, a] = color.to_rgba8();
            Some((r, g, b, a))
        },
        Err(_) => None,
    }
}

/// The command that sets a colour given as red, green, blue and alpha: the
/// strips take green first, so red and green trade places, and alpha is
/// dropped.
pub fn color_command_from_rgba(rgba: (u8, u8, u8, u8)) -> (command: Commands)
    ensures
        command == Commands::SetColor(rgba.1, rgba.0, rgba.2),
{
    Commands::SetColor(rgba.1, rgba.0, rgba.2)
}

/// The command that sets the CSS colour `text` (such as `#ff8000` or
/// `orange`), or `None` when the text is no colour. Whatever bytes the
/// colour parser gives, the command is the one `color_command_from_rgba`
/// makes of them: the colour with red and green traded.
pub fn color_command(text: &str) -> (command: Option<Commands>)
    ensures
        css_hex_color(text@) matches Some(rgba) ==> command == Some(
            Commands::SetColor(rgba.1, rgba.0, rgba.2),
        ),
        css_hex_color(text@) is None ==> (css_keyword_color(text@) matches Some(rgba) ==> command
            == Some(Commands::SetColor(rgba.1, rgba.0, rgba.2))),
        css_rgb_color(text@) matches Some(rgba) ==> command == Some(
            Commands::SetColor(rgba.1, rgba.0, rgba.2),
        ),
        css_rgb_channels(text@) matches Some(c) ==> command == Some(
            Commands::SetColor(c.1, c.0, c.2),
        ),
        plain_function_color(text@) ==> command is Some,
        text@.len() == 0 ==> command is None,
        command matches Some(c) ==> c is SetColor,
{
    match parse_css_color(text) {
        Some(rgba) => Some(color_command_from_rgba(rgba)),
        None => None,
    }
}

/// The name under which a controller submitted through the web form is
/// registered.
pub open spec fn submitted_name() -> Seq<char> {
    seq!['t', 'e', 's', 't']
}

/// Registers a controller submitted through the web form, under the name
/// `test`, and returns that name.
pub fn add_submitted_controller(config: &mut Config, target: &StripConfig) -> (name: String)
    ensures
        name@ == submitted_name(),
        final(config).controllers@ == old(config).controllers@.insert(submitted_name(), *target),
        final(config).macros == old(config).macros,
{
    let name = String::from_str("test");
    proof {
        reveal_strlit("test");
    }
    assert(name@ =~= submitted_name());
    config.add_controller(&name, &target.friendly_name, &target.ip, &target.port, &target.is_rgbw);
    name
}

} // verus!
