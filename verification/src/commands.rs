//! The commands a strip understands, how they are written as text, and the
//! wire protocol spoken with a strip over its TCP connection.
use vstd::prelude::*;
use crate::config_utils::StripConfig;
use crate::text::{lemma_field_end_at, law_decimal_is_numeral, law_parse_reads_every_byte_numeral, hex_digits, hex_pair, decimal, push_decimal, hex_join, hex_join_bytes, field_end, find_field_end, lemma_field_end_bounds, parse_u8_range, parse_u8_spec, range_equals};

verus! {

/// A command for an LED strip.
#[derive(Clone, Copy, Debug, PartialEq, Eq, Structural)]
pub enum Commands {
    On,
    Off,
    GetStatus,
    SetColor(u8, u8, u8),
    /// A shorthand for `SetColor` with each channel of the strip's current
    /// colour multiplied by the brightness.
    SetBrightness(u8),
}

/// Why a command text was refused.
#[derive(Clone, Copy, Debug, PartialEq, Eq, Structural)]
pub enum CommandError {
    /// The text names no command.
    Unknown,
    /// `color` or `brightness` without a value after the comma.
    MissingArgument,
    /// The value after the comma is not a number from 0 to 255.
    InvalidNumber,
    /// A colour needs three channels, and the text can only carry one:
    /// its fields are split at every comma, so the value after `color,`
    /// never holds another comma.
    MissingColorComponent,
}

pub open spec fn word_on() -> Seq<char> { seq!['o', 'n'] }
pub open spec fn word_off() -> Seq<char> { seq!['o', 'f', 'f'] }
pub open spec fn word_status() -> Seq<char> { seq!['s', 't', 'a', 't', 'u', 's'] }
pub open spec fn word_color() -> Seq<char> { seq!['c', 'o', 'l', 'o', 'r'] }
pub open spec fn word_brightness() -> Seq<char> {
    seq!['b', 'r', 'i', 'g', 'h', 't', 'n', 'e', 's', 's']
}

/// The first comma-separated field of the text.
pub open spec fn first_field(s: Seq<char>) -> Seq<char> {
    s.subrange(0, field_end(s, 0))
}

/// Whether the text has a second comma-separated field.
pub open spec fn has_second_field(s: Seq<char>) -> bool {
    field_end(s, 0) < s.len()
}

/// The second comma-separated field of the text.
pub open spec fn second_field(s: Seq<char>) -> Seq<char> {
    s.subrange(field_end(s, 0) + 1, field_end(s, field_end(s, 0) + 1))
}

/// The meaning of a command text: `on`, `off` and `status` as whole
/// words, `brightness,<n>` with `n` from 0 to 255 (fields after the second
/// are ignored); every `color,...` text is refused.
pub open spec fn command_spec(s: Seq<char>) -> Result<Commands, CommandError> {
    if s == word_on() {
        Ok(Commands::On)
    } else if s == word_off() {
        Ok(Commands::Off)
    } else if s == word_status() {
        Ok(Commands::GetStatus)
    } else if first_field(s) == word_color() {
        if !has_second_field(s) {
            Err(CommandError::MissingArgument)
        } else if parse_u8_spec(second_field(s)) is None {
            Err(CommandError::InvalidNumber)
        } else {
            Err(CommandError::MissingColorComponent)
        }
    } else if first_field(s) == word_brightness() {
        if !has_second_field(s) {
            Err(CommandError::MissingArgument)
        } else {
            match parse_u8_spec(second_field(s)) {
                Some(b) => Ok(Commands::SetBrightness(b)),
                None => Err(CommandError::InvalidNumber),
            }
        }
    } else {
        Err(CommandError::Unknown)
    }
}

impl Commands {
    /// Reads a command from its text form, as macros store their actions:
    /// `on`, `off`, `status` or `brightness,<n>`.
    pub fn parse(command: &str) -> (r: Result<Commands, CommandError>)
        ensures
            r == command_spec(command@),
    {
        proof {
            reveal_strlit("on");
            reveal_strlit("off");
            reveal_strlit("status");
            reveal_strlit("color");
            reveal_strlit("brightness");
        }
        let len = command.unicode_len();
        assert("on"@ =~= word_on());
        assert("off"@ =~= word_off());
        assert("status"@ =~= word_status());
        assert("color"@ =~= word_color());
        assert("brightness"@ =~= word_brightness());
        if range_equals(command, 0, len, "on") {
            assert(command@.subrange(0, len as int) =~= command@);
            return Ok(Commands::On);
        }
        if range_equals(command, 0, len, "off") {
            assert(command@.subrange(0, len as int) =~= command@);
            return Ok(Commands::Off);
        }
        if range_equals(command, 0, len, "status") {
            assert(command@.subrange(0, len as int) =~= command@);
            return Ok(Commands::GetStatus);
        }
        assert(command@.subrange(0, len as int) =~= command@);
        proof {
            lemma_field_end_bounds(command@, 0);
        }
        let end0 = find_field_end(command, len, 0);
        let is_color = range_equals(command, 0, end0, "color");
        let is_brightness = range_equals(command, 0, end0, "brightness");
        if !is_color && !is_brightness {
            return Err(CommandError::Unknown);
        }
        if end0 == len {
            return Err(CommandError::MissingArgument);
        }
        proof {
            lemma_field_end_bounds(command@, end0 + 1);
        }
        let end1 = find_field_end(command, len, end0 + 1);
        let value = parse_u8_range(command, end0 + 1, end1);
        match value {
            None => Err(CommandError::InvalidNumber),
            Some(b) => {
                if is_color {
                    Err(CommandError::MissingColorComponent)
                } else {
                    Ok(Commands::SetBrightness(b))
                }
            },
        }
    }

    /// Reads a command from a path segment of the web interface, which
    /// knows `on` and `off` only; any other segment is handed back.
    pub fn from_param<'a>(param: &'a str) -> (r: Result<Commands, &'a str>)
        ensures
            param@ == word_on() ==> r == Ok::<Commands, &'a str>(Commands::On),
            param@ == word_off() ==> r == Ok::<Commands, &'a str>(Commands::Off),
            param@ != word_on() && param@ != word_off() ==> r == Err::<Commands, &'a str>(param),
    {
        proof {
            reveal_strlit("on");
            reveal_strlit("off");
        }
        assert("on"@ =~= word_on());
        assert("off"@ =~= word_off());
        let len = param.unicode_len();
        assert(param@.subrange(0, len as int) =~= param@);
        if range_equals(param, 0, len, "on") {
            Ok(Commands::On)
        } else if range_equals(param, 0, len, "off") {
            Ok(Commands::Off)
        } else {
            Err(param)
        }
    }
}


/// The message that wakes the controllers on the local network: it is sent
/// as one UDP broadcast datagram to `DISCOVERY_PORT`.
pub open spec fn discovery_message() -> Seq<u8> {
    seq![
        0x48u8, 0x46, 0x2d, 0x41, 0x31, 0x31, 0x41, 0x53, 0x53, 0x49, 0x53, 0x54,
        0x48, 0x52, 0x45, 0x41, 0x44,
    ]
}

/// The UDP port on which the controllers listen for the wake-up message.
pub const DISCOVERY_PORT: u16 = 48899;

/// The bytes of the wake-up message, `HF-A11ASSISTHREAD`.
pub fn discovery_payload() -> (payload: Vec<u8>)
    ensures
        payload@ == discovery_message(),
{
    let payload = vec![
        0x48u8, 0x46, 0x2d, 0x41, 0x31, 0x31, 0x41, 0x53, 0x53, 0x49, 0x53, 0x54,
        0x48, 0x52, 0x45, 0x41, 0x44,
    ];
    assert(payload@ =~= discovery_message());
    payload
}

/// What the strip sends back to a command, in bytes: the fourteen bytes of
/// its state after `GetStatus`, nothing after any other command.
pub open spec fn reply_len_spec(command: Commands) -> nat {
    match command {
        Commands::GetStatus => 14,
        _ => 0,
    }
}

/// Whether a command can be sent to a strip whose current colour is
/// `color`: a brightness is a percentage, at most 100, and each channel
/// multiplied by it must still be a byte.
pub open spec fn command_allowed(color: (u8, u8, u8), command: Commands) -> bool {
    match command {
        Commands::SetBrightness(b) => {
            &&& b <= 100
            &&& b * color.0 <= 255
            &&& b * color.1 <= 255
            &&& b * color.2 <= 255
        },
        _ => true,
    }
}

/// The frame that sets the colour `(r, g, b)` on a strip with the given
/// channel order: an RGBW strip takes green first.
pub open spec fn color_frame(is_rgbw: bool, r: u8, g: u8, b: u8) -> Seq<u8> {
    if is_rgbw {
        seq![0x31u8, g, r, b, 0x00, 0xf0, 0xff, 0x00]
    } else {
        seq![0x31u8, r, g, b, 0x00, 0x0f, 0xff, 0x00]
    }
}

/// The frame that a command is sent as, to a strip with the given colour
/// and channel order. A brightness is sent as the colour whose channels are
/// the strip's current ones multiplied by it.
pub open spec fn request_frame(color: (u8, u8, u8), is_rgbw: bool, command: Commands) -> Seq<u8> {
    match command {
        Commands::On => seq![0x71u8, 0x23],
        Commands::Off => seq![0x71u8, 0x24],
        Commands::GetStatus => seq![0x81u8, 0x8a, 0x8b, 0x96],
        Commands::SetColor(r, g, b) => color_frame(is_rgbw, r, g, b),
        Commands::SetBrightness(k) => color_frame(
            is_rgbw,
            (k * color.0) as u8,
            (k * color.1) as u8,
            (k * color.2) as u8,
        ),
    }
}

/// The frame that sets the colour `(r, g, b)` on a strip with the given
/// channel order.
fn color_request(is_rgbw: bool, r: u8, g: u8, b: u8) -> (frame: Vec<u8>)
    ensures
        frame@ == color_frame(is_rgbw, r, g, b),
{
    let frame = if is_rgbw {
        vec![0x31u8, g, r, b, 0x00, 0xf0, 0xff, 0x00]
    } else {
        vec![0x31u8, r, g, b, 0x00, 0x0f, 0xff, 0x00]
    };
    assert(frame@ =~= color_frame(is_rgbw, r, g, b));
    frame
}

/// The network address of a controller: its IP, a colon, and its port in
/// decimal.
pub open spec fn address_of(ip: Seq<char>, port: u16) -> Seq<char> {
    ip + seq![':'] + decimal(port as nat)
}

/// An LED strip controller as the program knows it: its address, its
/// channel order and the state it last reported.
#[derive(Debug)]
pub struct Strip {
    pub color: (u8, u8, u8),
    pub powered: bool,
    pub address: String,
    pub is_rgbw: bool,
}

impl Default for Strip {
    /// A strip with no address, switched off and black.
    fn default() -> (strip: Self)
        ensures
            strip.color == (0u8, 0u8, 0u8),
            !strip.powered,
            strip.address@ == Seq::<char>::empty(),
            !strip.is_rgbw,
    {
        Strip { color: (0, 0, 0), powered: false, address: String::new(), is_rgbw: false }
    }
}

impl Commands {
    /// How many bytes the strip answers this command with.
    pub fn reply_len(&self) -> (n: usize)
        ensures
            n == reply_len_spec(*self),
    {
        match self {
            Commands::GetStatus => 14,
            _ => 0,
        }
    }
}

/// Two bytes multiply to at most `255 * 255`.
proof fn lemma_byte_product(a: u8, b: u8)
    ensures
        a * b <= 65025,
{
    assert(a * b <= 65025) by (nonlinear_arith)
        requires
            a <= 255,
            b <= 255,
    ;
}

impl Strip {
    /// A strip at `address` (`ip:port`), not yet asked for its state.
    pub fn new(address: String) -> (strip: Strip)
        ensures
            strip.address == address,
            strip.color == (0u8, 0u8, 0u8),
            !strip.powered,
            !strip.is_rgbw,
    {
        Strip { address, ..Self::default() }
    }

    /// The strip that a configuration entry describes, not yet asked for its
    /// state: its address is `ip:port`.
    pub fn from_config(config: &StripConfig) -> (strip: Strip)
        ensures
            strip.address@ == address_of(config.ip@, config.port),
            strip.is_rgbw == config.is_rgbw,
            strip.color == (0u8, 0u8, 0u8),
            !strip.powered,
    {
        let mut address = config.ip.clone();
        let colon = ":";
        proof {
            reveal_strlit(":");
        }
        address.append(colon);
        push_decimal(&mut address, config.port);
        assert(address@ =~= address_of(config.ip@, config.port));
        Strip { address, is_rgbw: config.is_rgbw, ..Self::default() }
    }

    /// Whether `command` can be sent to this strip (see `command_allowed`).
    pub fn can_send(&self, command: Commands) -> (ok: bool)
        ensures
            ok == command_allowed(self.color, command),
    {
        match command {
            Commands::SetBrightness(b) => {
                proof {
                    lemma_byte_product(b, self.color.0);
                    lemma_byte_product(b, self.color.1);
                    lemma_byte_product(b, self.color.2);
                }
                b <= 100 && (b as u32) * (self.color.0 as u32) <= 255
                    && (b as u32) * (self.color.1 as u32) <= 255
                    && (b as u32) * (self.color.2 as u32) <= 255
            },
            _ => true,
        }
    }

    /// The bytes that carry `command` to this strip.
    pub fn request(&self, command: Commands) -> (frame: Vec<u8>)
        requires
            command_allowed(self.color, command),
        ensures
            frame@ == request_frame(self.color, self.is_rgbw, command),
    {
        match command {
            Commands::On => {
                let frame = vec![0x71u8, 0x23];
                assert(frame@ =~= request_frame(self.color, self.is_rgbw, command));
                frame
            },
            Commands::Off => {
                let frame = vec![0x71u8, 0x24];
                assert(frame@ =~= request_frame(self.color, self.is_rgbw, command));
                frame
            },
            Commands::GetStatus => {
                let frame = vec![0x81u8, 0x8a, 0x8b, 0x96];
                assert(frame@ =~= request_frame(self.color, self.is_rgbw, command));
                frame
            },
            Commands::SetColor(r, g, b) => color_request(self.is_rgbw, r, g, b),
            Commands::SetBrightness(k) => color_request(
                self.is_rgbw,
                k * self.color.0,
                k * self.color.1,
                k * self.color.2,
            ),
        }
    }

    /// Takes the state from a status reply: the strip is on when byte 2 is
    /// `0x23`, and bytes 6 to 8 are its colour.
    pub fn parse_state(&mut self, data: Vec<u8>)
        requires
            data@.len() >= 9,
        ensures
            final(self).powered == (data@[2] == 0x23),
            final(self).color == (data@[6], data@[7], data@[8]),
            final(self).address == old(self).address,
            final(self).is_rgbw == old(self).is_rgbw,
    {
        self.powered = data[2] == 0x23;
        self.color = (data[6], data[7], data[8]);
    }

    /// Takes the strip's answer to `command` and returns what the command
    /// reports: for `GetStatus` the reply in hexadecimal pairs joined by
    /// `:`, after the strip's state is taken from it; for any other command
    /// the reply is empty and so is the report, and the strip is unchanged.
    pub fn apply_reply(&mut self, command: Commands, reply: &[u8]) -> (report: String)
        requires
            reply@.len() == reply_len_spec(command),
        ensures
            report@ == hex_join(reply@),
            command == Commands::GetStatus ==> {
                &&& final(self).powered == (reply@[2] == 0x23)
                &&& final(self).color == (reply@[6], reply@[7], reply@[8])
                &&& final(self).address == old(self).address
                &&& final(self).is_rgbw == old(self).is_rgbw
            },
            command != Commands::GetStatus ==> {
                &&& report@ == Seq::<char>::empty()
                &&& *final(self) == *old(self)
            },
    {
        let report = hex_join_bytes(reply);
        match command {
            Commands::GetStatus => {
                let data = vstd::slice::slice_to_vec(reply);
                self.parse_state(data);
            },
            _ => {},
        }
        report
    }
}


/// A brightness is the colour with each channel multiplied by it: on a
/// strip of either channel order, both are sent as the same frame.
pub proof fn law_brightness_is_scaled_color(color: (u8, u8, u8), is_rgbw: bool, b: u8)
    requires
        command_allowed(color, Commands::SetBrightness(b)),
    ensures
        request_frame(color, is_rgbw, Commands::SetBrightness(b)) == request_frame(
            color,
            is_rgbw,
            Commands::SetColor((b * color.0) as u8, (b * color.1) as u8, (b * color.2) as u8),
        ),
{
}

/// The two commands that the web interface takes from a path segment read
/// the same as command texts.
pub proof fn law_param_agrees_with_text(s: Seq<char>)
    ensures
        s == word_on() ==> command_spec(s) == Ok::<Commands, CommandError>(Commands::On),
        s == word_off() ==> command_spec(s) == Ok::<Commands, CommandError>(Commands::Off),
{
}

/// Only a status request is answered with bytes, and every command is sent
/// as a frame of two, four or eight bytes.
pub proof fn law_frame_and_reply_sizes(color: (u8, u8, u8), is_rgbw: bool, command: Commands)
    ensures
        reply_len_spec(command) > 0 <==> command == Commands::GetStatus,
        request_frame(color, is_rgbw, command).len() == match command {
            Commands::On | Commands::Off => 2nat,
            Commands::GetStatus => 4nat,
            _ => 8nat,
        },
{
}

/// A status report is three characters per byte of the reply, less one:
/// for the fourteen bytes of a status reply, 41 characters.
pub proof fn law_status_report_length(bytes: Seq<u8>)
    requires
        bytes.len() > 0,
    ensures
        hex_join(bytes).len() == 3 * bytes.len() - 1,
    decreases bytes.len(),
{
    if bytes.len() > 1 {
        law_status_report_length(bytes.drop_last());
    }
}

/// The status report determines the reply it was made from: two replies
/// with the same report are the same bytes.
pub proof fn law_status_report_determines_reply(a: Seq<u8>, b: Seq<u8>)
    requires
        hex_join(a) == hex_join(b),
    ensures
        a == b,
    decreases a.len(),
{
    if a.len() == 0 || b.len() == 0 {
        if a.len() > 0 {
            law_status_report_length(a);
        }
        if b.len() > 0 {
            law_status_report_length(b);
        }
        assert(a =~= b);
    } else {
        law_status_report_length(a);
        law_status_report_length(b);
        assert(a.len() == b.len());
        let n = hex_join(a).len();
        if a.len() == 1 {
            lemma_hex_pair_injective(a[0], b[0]);
            assert(a =~= b);
        } else {
            let ja = hex_join(a);
            assert(ja == hex_join(a.drop_last()) + seq![':'] + hex_pair(a.last()));
            assert(hex_join(b) == hex_join(b.drop_last()) + seq![':'] + hex_pair(b.last()));
            law_status_report_length(a.drop_last());
            law_status_report_length(b.drop_last());
            let m = hex_join(a.drop_last()).len();
            assert(ja.subrange(0, m as int) =~= hex_join(a.drop_last()));
            assert(ja.subrange(0, m as int) =~= hex_join(b.drop_last()));
            assert(ja.subrange(n - 2, n as int) =~= hex_pair(a.last()));
            assert(ja.subrange(n - 2, n as int) =~= hex_pair(b.last()));
            law_status_report_determines_reply(a.drop_last(), b.drop_last());
            lemma_hex_pair_injective(a.last(), b.last());
            assert(a =~= a.drop_last().push(a.last()));
            assert(b =~= b.drop_last().push(b.last()));
        }
    }
}

/// Different bytes are written as different hexadecimal pairs.
proof fn lemma_hex_pair_injective(a: u8, b: u8)
    requires
        hex_pair(a) == hex_pair(b),
    ensures
        a == b,
{
    let da = hex_digits();
    assert(hex_pair(a)[0] == da[(a / 16) as int]);
    assert(hex_pair(a)[1] == da[(a % 16) as int]);
    assert(hex_pair(b)[0] == da[(b / 16) as int]);
    assert(hex_pair(b)[1] == da[(b % 16) as int]);
    assert(forall|i: int, j: int| 0 <= i < 16 && 0 <= j < 16 && i != j ==> da[i] != da[j]);
    assert(a / 16 == b / 16);
    assert(a % 16 == b % 16);
}

/// Every brightness from 0 to 255 written as `brightness,<n>` in decimal
/// reads as that brightness.
pub proof fn law_brightness_text_reads_every_byte(n: u8)
    ensures
        command_spec(word_brightness() + seq![','] + decimal(n as nat)) == Ok::<
            Commands,
            CommandError,
        >(Commands::SetBrightness(n)),
{
    let d = decimal(n as nat);
    let s = word_brightness() + seq![','] + d;
    law_decimal_is_numeral(n as nat);
    law_parse_reads_every_byte_numeral(n);
    assert(s.len() == 11 + d.len());
    assert(s != word_on() && s != word_off() && s != word_status()) by {
        assert(s.len() != word_on().len());
        assert(s.len() != word_off().len());
        assert(s.len() != word_status().len());
    }
    assert(forall|k: int| 0 <= k < 10 ==> s[k] == word_brightness()[k]);
    assert(s[10] == ',');
    lemma_field_end_at(s, 0, 10);
    assert(forall|k: int| 11 <= k < s.len() ==> s[k] == d[k - 11]);
    lemma_field_end_at(s, 11, s.len() as int);
    assert(first_field(s) =~= word_brightness());
    assert(first_field(s) != word_color()) by {
        assert(first_field(s).len() != word_color().len());
    }
    assert(has_second_field(s));
    assert(second_field(s) =~= d);
}

} // verus!
