//! Commands of Hamlib's network rig control protocol. The caller owns the
//! connection and reads fractional numbers; everything else about a command
//! and its reply is decided here.
use crate::text::{self, after_bytes, chars_of, is_text, parse_i32, push_decimal, push_signed};
use crate::text::{push_str, split_words, string_of, trimmed};
use std::collections::VecDeque;
use vstd::prelude::*;

verus! {

pub const DEFAULT_ADDR: &'static str = "0.0.0.0:4532";

/// Receive offsets are limited to this many hertz either way.
pub const MAX_OFFSET_HZ: i32 = 9999;

/// Demodulator modes.
#[derive(Clone, Copy, Debug, PartialEq, Eq, Structural)]
pub enum Mode {
    Lsb,
    Usb,
    Dsb,
    Cwl,
    Cwu,
    Fmn,
    Am,
    Digu,
    Digl,
    Sam,
    Drm,
    Spec,
}

/// A filter width: a double-precision bit pattern and the same in whole
/// hertz.
#[derive(Clone, Copy, Debug, PartialEq, Eq, Structural)]
pub struct Passband {
    pub hz_bits: u64,
    pub rounded_hz: i64,
}

/// What a client can read and change.
#[derive(Clone, Copy, Debug, PartialEq, Eq, Structural)]
pub struct RigSettings {
    pub requested_frequency_hz: u32,
    pub rx_frequency_hz: u32,
    pub mode: Mode,
    pub passband: Passband,
    pub mox: bool,
    pub rit_enabled: bool,
    pub rit_offset_hz: i32,
    pub xit_enabled: bool,
    pub xit_offset_hz: i32,
    /// Whether keying of queued text is to be broken off.
    pub cw_stop: bool,
}

/// The settings and the texts that wait to be keyed.
pub struct RigState {
    pub settings: RigSettings,
    pub cw_pending: VecDeque<String>,
}

/// The contents of a [`RigState`].
#[verifier::ext_equal]
pub struct RigModel {
    pub settings: RigSettings,
    pub cw_pending: Seq<Seq<char>>,
}

impl View for RigState {
    type V = RigModel;

    open spec fn view(&self) -> RigModel {
        RigModel {
            settings: self.settings,
            cw_pending: Seq::new(self.cw_pending@.len(), |i: int| self.cw_pending@[i]@),
        }
    }
}

/// The numbers of a command that need not be whole, as the caller read them,
/// and the meter.
#[derive(Clone, Copy, Debug, PartialEq, Eq, Structural)]
pub struct RigNumbers {
    /// The first argument as a frequency, rounded and not below zero.
    pub frequency_hz: Option<u32>,
    /// The second argument as a filter width, where it is above zero.
    pub passband: Option<Passband>,
    /// Signal strength, rounded.
    pub strength_db: i32,
}

/// A command.
#[derive(Clone, Copy, Debug, PartialEq, Eq, Structural)]
pub enum RigCommand {
    GetFreq,
    SetFreq,
    GetRit,
    SetRit(i32),
    GetXit,
    SetXit(i32),
    GetRitOn,
    SetRitOn(bool),
    GetXitOn,
    SetXitOn(bool),
    GetMode,
    SetMode(Mode),
    GetVfo,
    /// Accepted, with nothing to do.
    Accept,
    GetPtt,
    SetPtt(bool),
    SendMorse,
    StopMorse,
    GetStrength,
    CheckVfo,
    DumpState,
    Quit,
    Unsupported,
}

// ---------------------------------------------------------------------
// Modes
// ---------------------------------------------------------------------

/// The name of a mode. Two modes have no name of their own.
pub open spec fn mode_name(m: Mode) -> Seq<char> {
    match m {
        Mode::Lsb => "LSB"@,
        Mode::Usb => "USB"@,
        Mode::Dsb => "DSB"@,
        Mode::Cwl => "CWR"@,
        Mode::Cwu => "CW"@,
        Mode::Fmn => "FM"@,
        Mode::Am => "AM"@,
        Mode::Digu => "PKTUSB"@,
        Mode::Digl => "PKTLSB"@,
        Mode::Sam => "SAM"@,
        Mode::Drm => "AM"@,
        Mode::Spec => "USB"@,
    }
}

pub fn mode_to_hamlib(mode: Mode) -> (name: &'static str)
    ensures
        name@ == mode_name(mode),
{
    match mode {
        Mode::Lsb => "LSB",
        Mode::Usb => "USB",
        Mode::Dsb => "DSB",
        Mode::Cwl => "CWR",
        Mode::Cwu => "CW",
        Mode::Fmn => "FM",
        Mode::Am => "AM",
        Mode::Digu => "PKTUSB",
        Mode::Digl => "PKTLSB",
        Mode::Sam => "SAM",
        Mode::Drm => "AM",
        Mode::Spec => "USB",
    }
}

/// The mode that a name in capitals stands for.
pub open spec fn mode_of_name(name: Seq<char>) -> Option<Mode> {
    if name == "LSB"@ {
        Some(Mode::Lsb)
    } else if name == "USB"@ {
        Some(Mode::Usb)
    } else if name == "DSB"@ {
        Some(Mode::Dsb)
    } else if name == "CWR"@ {
        Some(Mode::Cwl)
    } else if name == "CW"@ {
        Some(Mode::Cwu)
    } else if name == "FM"@ || name == "WFM"@ || name == "FMN"@ {
        Some(Mode::Fmn)
    } else if name == "AM"@ {
        Some(Mode::Am)
    } else if name == "PKTUSB"@ || name == "RTTY"@ {
        Some(Mode::Digu)
    } else if name == "PKTLSB"@ || name == "RTTYR"@ {
        Some(Mode::Digl)
    } else if name == "SAM"@ {
        Some(Mode::Sam)
    } else {
        None
    }
}

/// Looks up a name in capitals.
pub fn mode_named(name: &[char]) -> (m: Option<Mode>)
    ensures
        m == mode_of_name(name@),
{
    if is_text(name, "LSB") {
        Some(Mode::Lsb)
    } else if is_text(name, "USB") {
        Some(Mode::Usb)
    } else if is_text(name, "DSB") {
        Some(Mode::Dsb)
    } else if is_text(name, "CWR") {
        Some(Mode::Cwl)
    } else if is_text(name, "CW") {
        Some(Mode::Cwu)
    } else if is_text(name, "FM") || is_text(name, "WFM") || is_text(name, "FMN") {
        Some(Mode::Fmn)
    } else if is_text(name, "AM") {
        Some(Mode::Am)
    } else if is_text(name, "PKTUSB") || is_text(name, "RTTY") {
        Some(Mode::Digu)
    } else if is_text(name, "PKTLSB") || is_text(name, "RTTYR") {
        Some(Mode::Digl)
    } else if is_text(name, "SAM") {
        Some(Mode::Sam)
    } else {
        None
    }
}

/// A text in capitals, by the rules of Unicode.
pub uninterp spec fn uppercase(s: Seq<char>) -> Seq<char>;

pub open spec fn ascii_text(s: Seq<char>) -> bool {
    forall|i: int| 0 <= i < s.len() ==> (#[trigger] s[i]) as int <= 0x7F
}

/// A text with its ASCII letters in capitals.
pub open spec fn ascii_capitals(s: Seq<char>) -> Seq<char> {
    s.map_values(|c: char| text::ascii_upper(c))
}

/// The mode that a name in any case stands for. Which case its ASCII
/// letters have makes no difference.
pub open spec fn mode_of_any(name: Seq<char>) -> Option<Mode> {
    if ascii_text(name) {
        mode_of_name(ascii_capitals(name))
    } else {
        mode_of_name(uppercase(ascii_capitals(name)))
    }
}

/// `str::to_uppercase` maps each character of a text to its capitals by the
/// rules of Unicode, a function of the text alone. That turns `a` to `z`
/// into `A` to `Z`, wherever they stand, and keeps the rest of ASCII; what
/// becomes of other characters is left to the name [`uppercase`].
#[verifier::external_body]
fn to_uppercase(s: &str) -> (u: String)
    ensures
        u@ == uppercase(s@),
        u@ == uppercase(ascii_capitals(s@)),
        ascii_text(s@) ==> u@ == ascii_capitals(s@),
{
    s.to_uppercase()
}

/// Looks up a name in any case.
pub fn hamlib_to_mode(s: &str) -> (m: Option<Mode>)
    ensures
        m == mode_of_any(s@),
        m == mode_of_name(uppercase(s@)),
{
    let u: String = to_uppercase(s);
    let name: Vec<char> = chars_of(u.as_str());
    mode_named(name.as_slice())
}

// ---------------------------------------------------------------------
// Commands
// ---------------------------------------------------------------------

pub open spec fn set_offset(arg: Option<i32>, xit: bool) -> RigCommand {
    match arg {
        Some(v) => if xit {
            RigCommand::SetXit(v)
        } else {
            RigCommand::SetRit(v)
        },
        None => RigCommand::Unsupported,
    }
}

/// The command that a line asks for. Most have a one-letter form and a long
/// one.
pub open spec fn command_of(line: Seq<char>) -> RigCommand {
    let op = text::word(line, 0);
    let arg = text::word(line, 1);
    if op == "f"@ || op == "\\get_freq"@ {
        RigCommand::GetFreq
    } else if op == "F"@ || op == "\\set_freq"@ {
        RigCommand::SetFreq
    } else if op == "j"@ || op == "\\get_rit"@ {
        RigCommand::GetRit
    } else if op == "J"@ || op == "\\set_rit"@ {
        set_offset(text::int32(arg), false)
    } else if op == "z"@ || op == "\\get_xit"@ {
        RigCommand::GetXit
    } else if op == "Z"@ || op == "\\set_xit"@ {
        set_offset(text::int32(arg), true)
    } else if op == "u"@ || op == "\\get_func"@ {
        if arg == "RIT"@ {
            RigCommand::GetRitOn
        } else if arg == "XIT"@ {
            RigCommand::GetXitOn
        } else {
            RigCommand::Unsupported
        }
    } else if op == "U"@ || op == "\\set_func"@ {
        match text::int32(text::word(line, 2)) {
            Some(v) => if arg == "RIT"@ {
                RigCommand::SetRitOn(v != 0)
            } else if arg == "XIT"@ {
                RigCommand::SetXitOn(v != 0)
            } else {
                RigCommand::Unsupported
            },
            None => RigCommand::Unsupported,
        }
    } else if op == "m"@ || op == "\\get_mode"@ {
        RigCommand::GetMode
    } else if op == "M"@ || op == "\\set_mode"@ {
        match mode_of_any(arg) {
            Some(m) => RigCommand::SetMode(m),
            None => RigCommand::Unsupported,
        }
    } else if op == "v"@ || op == "\\get_vfo"@ {
        RigCommand::GetVfo
    } else if op == "V"@ || op == "\\set_vfo"@ || op == "\\get_lock_mode"@ || op
        == "\\set_lock_mode"@ {
        RigCommand::Accept
    } else if op == "t"@ || op == "\\get_ptt"@ {
        RigCommand::GetPtt
    } else if op == "T"@ || op == "\\set_ptt"@ {
        match text::int32(arg) {
            Some(v) => RigCommand::SetPtt(v != 0),
            None => RigCommand::Unsupported,
        }
    } else if op == "b"@ || op == "\\send_morse"@ {
        RigCommand::SendMorse
    } else if op == "\\stop_morse"@ {
        RigCommand::StopMorse
    } else if op == "l"@ || op == "\\get_level"@ {
        if arg == "STRENGTH"@ {
            RigCommand::GetStrength
        } else {
            RigCommand::Unsupported
        }
    } else if op == "\\chk_vfo"@ {
        RigCommand::CheckVfo
    } else if op == "\\dump_state"@ {
        RigCommand::DumpState
    } else if op == "q"@ || op == "Q"@ || op == "\\quit"@ {
        RigCommand::Quit
    } else {
        RigCommand::Unsupported
    }
}

/// Bytes of the first word.
pub open spec fn op_bytes(line: Seq<char>) -> int {
    text::byte_len(text::word(line, 0))
}

/// The text to be keyed: the rest of the line after the command.
pub open spec fn morse_text(line: Seq<char>) -> Seq<char> {
    match text::skip_bytes(line, op_bytes(line)) {
        Some(rest) => text::trim(rest),
        None => Seq::empty(),
    }
}

pub open spec fn limited(v: i32) -> i32 {
    if v < -9999 {
        -9999i32
    } else if v > 9999 {
        9999i32
    } else {
        v
    }
}

/// What a command changes. The transmitter is keyed only where that is
/// allowed, and unkeyed always.
pub open spec fn effect(
    m: RigModel,
    c: RigCommand,
    text: Seq<char>,
    n: RigNumbers,
    tx_allowed: bool,
) -> RigModel {
    let s = m.settings;
    let changed = match c {
        RigCommand::SetFreq => match n.frequency_hz {
            Some(hz) => RigSettings { requested_frequency_hz: hz, ..s },
            None => s,
        },
        RigCommand::SetRit(v) => RigSettings { rit_offset_hz: limited(v), ..s },
        RigCommand::SetXit(v) => RigSettings { xit_offset_hz: limited(v), ..s },
        RigCommand::SetRitOn(on) => RigSettings { rit_enabled: on, ..s },
        RigCommand::SetXitOn(on) => RigSettings { xit_enabled: on, ..s },
        RigCommand::SetMode(mode) => match n.passband {
            Some(p) => RigSettings { mode, passband: p, ..s },
            None => RigSettings { mode, ..s },
        },
        RigCommand::SetPtt(on) => if !on || tx_allowed {
            RigSettings { mox: on, ..s }
        } else {
            s
        },
        RigCommand::StopMorse => RigSettings { cw_stop: true, ..s },
        _ => s,
    };
    RigModel {
        settings: changed,
        cw_pending: if c == RigCommand::SendMorse && text.len() > 0 {
            m.cw_pending.push(text)
        } else {
            m.cw_pending
        },
    }
}

pub open spec fn bool_text(b: bool) -> Seq<char> {
    if b {
        "1\n"@
    } else {
        "0\n"@
    }
}

/// The reply to a command; `None` ends the connection.
pub open spec fn reply(s: RigSettings, c: RigCommand, n: RigNumbers) -> Option<Seq<char>> {
    match c {
        RigCommand::GetFreq => Some(text::decimal(s.rx_frequency_hz as nat) + "\n"@),
        RigCommand::SetFreq => if n.frequency_hz is Some {
            Some("RPRT 0\n"@)
        } else {
            Some("RPRT -1\n"@)
        },
        RigCommand::GetRit => Some(text::decimal_signed(s.rit_offset_hz as int) + "\n"@),
        RigCommand::GetXit => Some(text::decimal_signed(s.xit_offset_hz as int) + "\n"@),
        RigCommand::GetRitOn => Some(bool_text(s.rit_enabled)),
        RigCommand::GetXitOn => Some(bool_text(s.xit_enabled)),
        RigCommand::GetMode => Some(
            mode_name(s.mode) + "\n"@ + text::decimal_signed(s.passband.rounded_hz as int) + "\n"@,
        ),
        RigCommand::GetVfo => Some("VFOA\n"@),
        RigCommand::GetPtt => Some(bool_text(s.mox)),
        RigCommand::GetStrength => Some(text::decimal_signed(n.strength_db as int) + "\n"@),
        RigCommand::CheckVfo => Some("CHKVFO 0\n"@),
        RigCommand::DumpState => Some(dump_state_text()),
        RigCommand::Quit => None,
        RigCommand::Unsupported => Some("RPRT -1\n"@),
        RigCommand::SetRit(_) | RigCommand::SetXit(_) | RigCommand::SetRitOn(_)
        | RigCommand::SetXitOn(_) | RigCommand::SetMode(_) | RigCommand::Accept
        | RigCommand::SetPtt(_) | RigCommand::SendMorse | RigCommand::StopMorse => Some(
            "RPRT 0\n"@,
        ),
    }
}

/// Capabilities: protocol 0, the dummy rig model, region 2, everything up to
/// 4 GHz for receiving and transmitting, one-hertz steps, a 2400 Hz filter,
/// receive and transmit offsets up to 9999 Hz, and nothing else.
pub open spec fn dump_state_text() -> Seq<char> {
    "0\n2\n2\n0 4000000000 -1 -1 -1 -1 0\n0 0 0 0 0 0 0\n0 4000000000 -1 0 100 -1 0\n0 0 0 0 0 0 0\n-1 1\n0 0\n-1 2400\n0 0\n9999\n9999\n0\n0\n0\n0\n0\n0\n0\n0\n0\n0\ndone\n"@
}

pub fn dump_state() -> (s: String)
    ensures
        s@ == dump_state_text(),
{
    "0\n2\n2\n0 4000000000 -1 -1 -1 -1 0\n0 0 0 0 0 0 0\n0 4000000000 -1 0 100 -1 0\n0 0 0 0 0 0 0\n-1 1\n0 0\n-1 2400\n0 0\n9999\n9999\n0\n0\n0\n0\n0\n0\n0\n0\n0\n0\ndone\n".to_owned()
}

/// Word `n` of a line, for the caller to read numbers from.
pub fn argument(line: &str, n: usize) -> (w: Option<String>)
    ensures
        match w {
            Some(s) => n < text::words(line@).len() && s@ == text::words(line@)[n as int],
            None => n >= text::words(line@).len(),
        },
{
    let v: Vec<char> = chars_of(line);
    let words: Vec<Vec<char>> = split_words(v.as_slice());
    if n < words.len() {
        Some(string_of(words[n].as_slice()))
    } else {
        None
    }
}

fn nth_word(words: &Vec<Vec<char>>, n: usize) -> (w: Vec<char>)
    ensures
        n < words@.len() ==> w@ == words@[n as int]@,
        n >= words@.len() ==> w@ == Seq::<char>::empty(),
{
    if n < words.len() {
        text::slice_of(words[n].as_slice(), 0, words[n].len())
    } else {
        Vec::new()
    }
}

fn either(w: &Vec<char>, short: &str, long: &str) -> (b: bool)
    ensures
        b == (w@ == short@ || w@ == long@),
{
    is_text(w.as_slice(), short) || is_text(w.as_slice(), long)
}

fn number(w: &Vec<char>) -> (n: Option<i32>)
    ensures
        n == text::int32(w@),
{
    parse_i32(w.as_slice())
}

/// Reads the command of a line.
pub fn parse_command(line: &str) -> (c: RigCommand)
    ensures
        c == command_of(line@),
{
    let v: Vec<char> = chars_of(line);
    let words: Vec<Vec<char>> = split_words(v.as_slice());
    let op: Vec<char> = nth_word(&words, 0);
    let arg: Vec<char> = nth_word(&words, 1);
    assert(op@ =~= text::word(line@, 0));
    assert(arg@ =~= text::word(line@, 1));
    if either(&op, "f", "\\get_freq") {
        RigCommand::GetFreq
    } else if either(&op, "F", "\\set_freq") {
        RigCommand::SetFreq
    } else if either(&op, "j", "\\get_rit") {
        RigCommand::GetRit
    } else if either(&op, "J", "\\set_rit") {
        match number(&arg) {
            Some(v) => RigCommand::SetRit(v),
            None => RigCommand::Unsupported,
        }
    } else if either(&op, "z", "\\get_xit") {
        RigCommand::GetXit
    } else if either(&op, "Z", "\\set_xit") {
        match number(&arg) {
            Some(v) => RigCommand::SetXit(v),
            None => RigCommand::Unsupported,
        }
    } else if either(&op, "u", "\\get_func") {
        if is_text(arg.as_slice(), "RIT") {
            RigCommand::GetRitOn
        } else if is_text(arg.as_slice(), "XIT") {
            RigCommand::GetXitOn
        } else {
            RigCommand::Unsupported
        }
    } else if either(&op, "U", "\\set_func") {
        let value: Vec<char> = nth_word(&words, 2);
        assert(value@ =~= text::word(line@, 2));
        match number(&value) {
            Some(v) => if is_text(arg.as_slice(), "RIT") {
                RigCommand::SetRitOn(v != 0)
            } else if is_text(arg.as_slice(), "XIT") {
                RigCommand::SetXitOn(v != 0)
            } else {
                RigCommand::Unsupported
            },
            None => RigCommand::Unsupported,
        }
    } else if either(&op, "m", "\\get_mode") {
        RigCommand::GetMode
    } else if either(&op, "M", "\\set_mode") {
        let name: String = string_of(arg.as_slice());
        match hamlib_to_mode(name.as_str()) {
            Some(m) => RigCommand::SetMode(m),
            None => RigCommand::Unsupported,
        }
    } else if either(&op, "v", "\\get_vfo") {
        RigCommand::GetVfo
    } else if either(&op, "V", "\\set_vfo") || either(&op, "\\get_lock_mode", "\\set_lock_mode") {
        RigCommand::Accept
    } else if either(&op, "t", "\\get_ptt") {
        RigCommand::GetPtt
    } else if either(&op, "T", "\\set_ptt") {
        match number(&arg) {
            Some(v) => RigCommand::SetPtt(v != 0),
            None => RigCommand::Unsupported,
        }
    } else if either(&op, "b", "\\send_morse") {
        RigCommand::SendMorse
    } else if is_text(op.as_slice(), "\\stop_morse") {
        RigCommand::StopMorse
    } else if either(&op, "l", "\\get_level") {
        if is_text(arg.as_slice(), "STRENGTH") {
            RigCommand::GetStrength
        } else {
            RigCommand::Unsupported
        }
    } else if is_text(op.as_slice(), "\\chk_vfo") {
        RigCommand::CheckVfo
    } else if is_text(op.as_slice(), "\\dump_state") {
        RigCommand::DumpState
    } else if either(&op, "q", "Q") || is_text(op.as_slice(), "\\quit") {
        RigCommand::Quit
    } else {
        RigCommand::Unsupported
    }
}

fn count_bytes(w: &Vec<char>) -> (n: usize)
    requires
        w@.len() <= 1000,
    ensures
        n == text::byte_len(w@),
{
    let mut n: usize = 0;
    for i in 0..w.len()
        invariant
            w@.len() <= 1000,
            n == text::byte_len(w@.take(i as int)),
            n <= 4 * i,
    {
        assert(w@.take(i + 1).drop_last() =~= w@.take(i as int));
        n = n + text::char_bytes(w[i]);
    }
    assert(w@.take(w@.len() as int) =~= w@);
    n
}

/// The text of a keying command.
fn text_to_key(line: &str) -> (t: Vec<char>)
    requires
        command_of(line@) == RigCommand::SendMorse,
    ensures
        t@ == morse_text(line@),
{
    let v: Vec<char> = chars_of(line);
    let words: Vec<Vec<char>> = split_words(v.as_slice());
    let op: Vec<char> = nth_word(&words, 0);
    assert(op@ =~= text::word(line@, 0));
    proof {
        reveal_strlit("b");
        reveal_strlit("\\send_morse");
        lemma_send_morse(line@);
    }
    match after_bytes(v.as_slice(), count_bytes(&op)) {
        Some(k) => {
            let rest: Vec<char> = text::slice_of(v.as_slice(), k, v.len());
            assert(rest@ =~= v@.skip(k as int));
            trimmed(rest.as_slice())
        },
        None => Vec::new(),
    }
}

/// Only two words ask for a text to be keyed.
proof fn lemma_send_morse(line: Seq<char>)
    requires
        command_of(line) == RigCommand::SendMorse,
    ensures
        text::word(line, 0) == "b"@ || text::word(line, 0) == "\\send_morse"@,
{
}

fn ok() -> (s: String)
    ensures
        s@ == "RPRT 0\n"@,
{
    "RPRT 0\n".to_owned()
}

fn refused() -> (s: String)
    ensures
        s@ == "RPRT -1\n"@,
{
    "RPRT -1\n".to_owned()
}

fn on_off(b: bool) -> (s: String)
    ensures
        s@ == bool_text(b),
{
    if b {
        "1\n".to_owned()
    } else {
        "0\n".to_owned()
    }
}

fn number_line(n: i64) -> (s: String)
    ensures
        s@ == text::decimal_signed(n as int) + "\n"@,
{
    let mut v: Vec<char> = Vec::new();
    push_signed(&mut v, n);
    push_str(&mut v, "\n");
    assert(v@ =~= text::decimal_signed(n as int) + "\n"@);
    string_of(v.as_slice())
}

fn limit(v: i32) -> (r: i32)
    ensures
        r == limited(v),
{
    if v < -MAX_OFFSET_HZ {
        -MAX_OFFSET_HZ
    } else if v > MAX_OFFSET_HZ {
        MAX_OFFSET_HZ
    } else {
        v
    }
}

/// The reply to a command.
pub fn reply_to(s: &RigSettings, c: RigCommand, n: &RigNumbers) -> (r: Option<String>)
    ensures
        match r {
            Some(t) => reply(*s, c, *n) == Some(t@),
            None => reply(*s, c, *n) is None,
        },
{
    match c {
        RigCommand::GetFreq => {
            let mut v: Vec<char> = Vec::new();
            push_decimal(&mut v, s.rx_frequency_hz as u64);
            push_str(&mut v, "\n");
            assert(v@ =~= text::decimal(s.rx_frequency_hz as nat) + "\n"@);
            Some(string_of(v.as_slice()))
        },
        RigCommand::SetFreq => if n.frequency_hz.is_some() {
            Some(ok())
        } else {
            Some(refused())
        },
        RigCommand::GetRit => Some(number_line(s.rit_offset_hz as i64)),
        RigCommand::GetXit => Some(number_line(s.xit_offset_hz as i64)),
        RigCommand::GetRitOn => Some(on_off(s.rit_enabled)),
        RigCommand::GetXitOn => Some(on_off(s.xit_enabled)),
        RigCommand::GetMode => {
            let mut v: Vec<char> = Vec::new();
            push_str(&mut v, mode_to_hamlib(s.mode));
            push_str(&mut v, "\n");
            push_signed(&mut v, s.passband.rounded_hz);
            push_str(&mut v, "\n");
            assert(v@ =~= mode_name(s.mode) + "\n"@ + text::decimal_signed(
                s.passband.rounded_hz as int,
            ) + "\n"@);
            Some(string_of(v.as_slice()))
        },
        RigCommand::GetVfo => Some("VFOA\n".to_owned()),
        RigCommand::GetPtt => Some(on_off(s.mox)),
        RigCommand::GetStrength => Some(number_line(n.strength_db as i64)),
        RigCommand::CheckVfo => Some("CHKVFO 0\n".to_owned()),
        RigCommand::DumpState => Some(dump_state()),
        RigCommand::Quit => None,
        RigCommand::Unsupported => Some(refused()),
        RigCommand::SetRit(_) | RigCommand::SetXit(_) | RigCommand::SetRitOn(_)
        | RigCommand::SetXitOn(_) | RigCommand::SetMode(_) | RigCommand::Accept
        | RigCommand::SetPtt(_) | RigCommand::SendMorse | RigCommand::StopMorse => Some(ok()),
    }
}

/// Carries out a line and returns the reply; `None` ends the connection.
pub fn handle_command(line: &str, n: &RigNumbers, tx_allowed: bool, rig: &mut RigState) -> (r: Option<
    String,
>)
    ensures
        match r {
            Some(t) => reply(old(rig)@.settings, command_of(line@), *n) == Some(t@),
            None => reply(old(rig)@.settings, command_of(line@), *n) is None,
        },
        final(rig)@ == effect(
            old(rig)@,
            command_of(line@),
            morse_text(line@),
            *n,
            tx_allowed,
        ),
{
    let c: RigCommand = parse_command(line);
    let r: Option<String> = reply_to(&rig.settings, c, n);
    match c {
        RigCommand::SetFreq => {
            if let Some(hz) = n.frequency_hz {
                rig.settings.requested_frequency_hz = hz;
            }
        },
        RigCommand::SetRit(v) => {
            rig.settings.rit_offset_hz = limit(v);
        },
        RigCommand::SetXit(v) => {
            rig.settings.xit_offset_hz = limit(v);
        },
        RigCommand::SetRitOn(on) => {
            rig.settings.rit_enabled = on;
        },
        RigCommand::SetXitOn(on) => {
            rig.settings.xit_enabled = on;
        },
        RigCommand::SetMode(mode) => {
            rig.settings.mode = mode;
            if let Some(p) = n.passband {
                rig.settings.passband = p;
            }
        },
        RigCommand::SetPtt(on) => {
            if !on || tx_allowed {
                rig.settings.mox = on;
            }
        },
        RigCommand::SendMorse => {
            let t: Vec<char> = text_to_key(line);
            if t.len() > 0 {
                rig.cw_pending.push_back(string_of(t.as_slice()));
            }
        },
        RigCommand::StopMorse => {
            rig.settings.cw_stop = true;
        },
        _ => {},
    }
    assert(rig@ =~= effect(old(rig)@, c, morse_text(line@), *n, tx_allowed));
    r
}

/// What to do about a received line.
pub enum LineStep {
    /// An empty line: nothing to do.
    Skip,
    /// A command, without the spaces around it.
    Run(String),
}

/// Looks at a line as it came in.
pub fn client_line(line: &str) -> (s: LineStep)
    ensures
        match s {
            LineStep::Skip => text::trim(line@).len() == 0,
            LineStep::Run(c) => c@ == text::trim(line@) && c@.len() > 0,
        },
{
    let v: Vec<char> = chars_of(line);
    let t: Vec<char> = trimmed(v.as_slice());
    if t.len() == 0 {
        LineStep::Skip
    } else {
        LineStep::Run(string_of(t.as_slice()))
    }
}

// ---------------------------------------------------------------------
// Laws
// ---------------------------------------------------------------------

/// Nothing but a request to key or unkey changes the key, an unkey request
/// always does, and no request keys the transmitter where that is not
/// allowed.
pub proof fn law_only_ptt_keys(
    m: RigModel,
    c: RigCommand,
    text: Seq<char>,
    n: RigNumbers,
    tx_allowed: bool,
)
    ensures
        !(c is SetPtt) ==> effect(m, c, text, n, tx_allowed).settings.mox == m.settings.mox,
        c == RigCommand::SetPtt(false) ==> !effect(m, c, text, n, tx_allowed).settings.mox,
        !tx_allowed && !m.settings.mox ==> !effect(m, c, text, n, tx_allowed).settings.mox,
        c == RigCommand::SetPtt(true) && tx_allowed ==> effect(
            m,
            c,
            text,
            n,
            tx_allowed,
        ).settings.mox,
{
}

/// What was set is what is read, the offsets within their limits.
pub proof fn law_set_then_get(m: RigModel, v: i32, on: bool, n: RigNumbers, mode: Mode)
    ensures
        reply(
            effect(m, RigCommand::SetRit(v), Seq::empty(), n, false).settings,
            RigCommand::GetRit,
            n,
        ) == Some(text::decimal_signed(limited(v) as int) + "\n"@),
        reply(
            effect(m, RigCommand::SetXit(v), Seq::empty(), n, false).settings,
            RigCommand::GetXit,
            n,
        ) == Some(text::decimal_signed(limited(v) as int) + "\n"@),
        reply(
            effect(m, RigCommand::SetRitOn(on), Seq::empty(), n, false).settings,
            RigCommand::GetRitOn,
            n,
        ) == Some(bool_text(on)),
        reply(
            effect(m, RigCommand::SetXitOn(on), Seq::empty(), n, false).settings,
            RigCommand::GetXitOn,
            n,
        ) == Some(bool_text(on)),
        reply(
            effect(m, RigCommand::SetPtt(on), Seq::empty(), n, true).settings,
            RigCommand::GetPtt,
            n,
        ) == Some(bool_text(on)),
        effect(m, RigCommand::SetMode(mode), Seq::empty(), n, false).settings.mode == mode,
{
}

/// A command that is not supported is refused and changes nothing.
pub proof fn law_unsupported_changes_nothing(
    m: RigModel,
    text: Seq<char>,
    n: RigNumbers,
    tx_allowed: bool,
)
    ensures
        effect(m, RigCommand::Unsupported, text, n, tx_allowed) == m,
        reply(m.settings, RigCommand::Unsupported, n) == Some("RPRT -1\n"@),
{
}

/// Only a request to quit ends the connection.
pub proof fn law_only_quit_ends(s: RigSettings, c: RigCommand, n: RigNumbers)
    ensures
        reply(s, c, n) is None <==> c == RigCommand::Quit,
{
}

/// Names that differ only in the case of ASCII letters stand for the same
/// mode.
pub proof fn law_mode_names_ignore_case(s: Seq<char>, t: Seq<char>)
    requires
        s.len() == t.len(),
        forall|i: int| 0 <= i < s.len() ==> text::ascii_upper(#[trigger] s[i]) == text::ascii_upper(t[i]),
    ensures
        mode_of_any(s) == mode_of_any(t),
{
    assert(ascii_capitals(s) =~= ascii_capitals(t));
    assert(ascii_text(s) <==> ascii_text(t)) by {
        assert forall|i: int| 0 <= i < s.len() implies ((#[trigger] s[i]) as int <= 0x7F <==> t[i]
            as int <= 0x7F) by {
            assert(text::ascii_upper(s[i]) == text::ascii_upper(t[i]));
        }
        if ascii_text(s) {
            assert forall|i: int| 0 <= i < t.len() implies (#[trigger] t[i]) as int <= 0x7F by {
                assert(s[i] as int <= 0x7F);
            }
        }
    }
}

/// The name of a mode, which is in capitals, stands for that mode. The two
/// modes without a name of their own are reported as amplitude modulation
/// and upper sideband. The empty name stands for none.
pub proof fn law_mode_names_round_trip(m: Mode)
    ensures
        m != Mode::Drm && m != Mode::Spec ==> mode_of_name(mode_name(m)) == Some(m),
        m == Mode::Drm ==> mode_of_name(mode_name(m)) == Some(Mode::Am),
        m == Mode::Spec ==> mode_of_name(mode_name(m)) == Some(Mode::Usb),
        ascii_text(mode_name(m)),
        ascii_capitals(mode_name(m)) == mode_name(m),
        mode_of_name(Seq::empty()) is None,
{
    reveal_strlit("LSB");
    reveal_strlit("USB");
    reveal_strlit("DSB");
    reveal_strlit("CWR");
    reveal_strlit("CW");
    reveal_strlit("FM");
    reveal_strlit("WFM");
    reveal_strlit("FMN");
    reveal_strlit("AM");
    reveal_strlit("PKTUSB");
    reveal_strlit("RTTY");
    reveal_strlit("PKTLSB");
    reveal_strlit("RTTYR");
    reveal_strlit("SAM");
    assert("LSB"@[0] == 'L' && "USB"@[0] == 'U' && "DSB"@[0] == 'D' && "AM"@[0] == 'A');
    assert("FM"@[0] == 'F' && "FMN"@[0] == 'F' && "WFM"@[0] == 'W' && "SAM"@[0] == 'S');
    assert("CWR"@[0] == 'C' && "CW"@[0] == 'C' && "CWR"@.len() == 3 && "CW"@.len() == 2);
    assert("RTTY"@[0] == 'R' && "RTTYR"@[0] == 'R');
    assert("PKTUSB"@[0] == 'P' && "PKTLSB"@[0] == 'P');
    assert("PKTUSB"@[3] == 'U' && "PKTLSB"@[3] == 'L');
    assert(ascii_capitals(mode_name(m)) =~= mode_name(m));
    assert("DSB"@.len() == 3 && "LSB"@.len() == 3 && "USB"@.len() == 3 && "AM"@.len() == 2);
    assert("FM"@.len() == 2 && "WFM"@.len() == 3 && "FMN"@.len() == 3 && "SAM"@.len() == 3);
    assert("PKTUSB"@.len() == 6 && "RTTY"@.len() == 4);
    assert("PKTLSB"@.len() == 6 && "RTTYR"@.len() == 5);
}

proof fn lemma_set_mode(line: Seq<char>)
    requires
        text::word(line, 0) == "M"@ || text::word(line, 0) == "\\set_mode"@,
    ensures
        command_of(line) == (match mode_of_any(text::word(line, 1)) {
            Some(m) => RigCommand::SetMode(m),
            None => RigCommand::Unsupported,
        }),
{
    lemma_command_words();
}

/// Asking for a mode by its name, in any case, sets that mode. Without a
/// name the request is refused.
pub proof fn law_mode_is_set_by_name(line: Seq<char>, m: Mode)
    requires
        text::word(line, 0) == "M"@ || text::word(line, 0) == "\\set_mode"@,
    ensures
        ascii_capitals(text::word(line, 1)) == mode_name(m) && m != Mode::Drm && m != Mode::Spec
            ==> command_of(line) == RigCommand::SetMode(m),
        text::word(line, 1).len() == 0 ==> command_of(line) == RigCommand::Unsupported,
{
    let arg = text::word(line, 1);
    law_mode_names_round_trip(m);
    lemma_set_mode(line);
    if ascii_capitals(arg) == mode_name(m) {
        assert forall|i: int| 0 <= i < arg.len() implies (#[trigger] arg[i]) as int <= 0x7F by {
            assert(ascii_capitals(arg)[i] == text::ascii_upper(arg[i]));
            assert(mode_name(m)[i] as int <= 0x7F);
        }
    }
    if arg.len() == 0 {
        assert(ascii_capitals(arg) =~= Seq::empty());
    }
}

/// Length and some characters of a word, by which commands are told apart.
spec fn shape(w: Seq<char>) -> (int, char, char, char, char, char) {
    if w.len() < 7 {
        (w.len() as int, w[0], ' ', ' ', ' ', ' ')
    } else {
        (w.len() as int, w[0], w[1], w[2], w[5], w[6])
    }
}

proof fn lemma_command_words()
    ensures
        shape("f"@) == (1int, 'f', ' ', ' ', ' ', ' '),
        shape("\\get_freq"@) == (9int, '\\', 'g', 'e', 'f', 'r'),
        shape("F"@) == (1int, 'F', ' ', ' ', ' ', ' '),
        shape("\\set_freq"@) == (9int, '\\', 's', 'e', 'f', 'r'),
        shape("j"@) == (1int, 'j', ' ', ' ', ' ', ' '),
        shape("\\get_rit"@) == (8int, '\\', 'g', 'e', 'r', 'i'),
        shape("J"@) == (1int, 'J', ' ', ' ', ' ', ' '),
        shape("\\set_rit"@) == (8int, '\\', 's', 'e', 'r', 'i'),
        shape("z"@) == (1int, 'z', ' ', ' ', ' ', ' '),
        shape("\\get_xit"@) == (8int, '\\', 'g', 'e', 'x', 'i'),
        shape("Z"@) == (1int, 'Z', ' ', ' ', ' ', ' '),
        shape("\\set_xit"@) == (8int, '\\', 's', 'e', 'x', 'i'),
        shape("u"@) == (1int, 'u', ' ', ' ', ' ', ' '),
        shape("\\get_func"@) == (9int, '\\', 'g', 'e', 'f', 'u'),
        shape("U"@) == (1int, 'U', ' ', ' ', ' ', ' '),
        shape("\\set_func"@) == (9int, '\\', 's', 'e', 'f', 'u'),
        shape("m"@) == (1int, 'm', ' ', ' ', ' ', ' '),
        shape("\\get_mode"@) == (9int, '\\', 'g', 'e', 'm', 'o'),
        shape("M"@) == (1int, 'M', ' ', ' ', ' ', ' '),
        shape("\\set_mode"@) == (9int, '\\', 's', 'e', 'm', 'o'),
        shape("v"@) == (1int, 'v', ' ', ' ', ' ', ' '),
        shape("\\get_vfo"@) == (8int, '\\', 'g', 'e', 'v', 'f'),
        shape("V"@) == (1int, 'V', ' ', ' ', ' ', ' '),
        shape("\\set_vfo"@) == (8int, '\\', 's', 'e', 'v', 'f'),
        shape("\\get_lock_mode"@) == (14int, '\\', 'g', 'e', 'l', 'o'),
        shape("\\set_lock_mode"@) == (14int, '\\', 's', 'e', 'l', 'o'),
        shape("t"@) == (1int, 't', ' ', ' ', ' ', ' '),
        shape("\\get_ptt"@) == (8int, '\\', 'g', 'e', 'p', 't'),
        shape("T"@) == (1int, 'T', ' ', ' ', ' ', ' '),
        shape("\\set_ptt"@) == (8int, '\\', 's', 'e', 'p', 't'),
        shape("b"@) == (1int, 'b', ' ', ' ', ' ', ' '),
        shape("\\send_morse"@) == (11int, '\\', 's', 'e', '_', 'm'),
        shape("\\stop_morse"@) == (11int, '\\', 's', 't', '_', 'm'),
        shape("l"@) == (1int, 'l', ' ', ' ', ' ', ' '),
        shape("\\get_level"@) == (10int, '\\', 'g', 'e', 'l', 'e'),
        shape("\\chk_vfo"@) == (8int, '\\', 'c', 'h', 'v', 'f'),
        shape("\\dump_state"@) == (11int, '\\', 'd', 'u', '_', 's'),
        shape("q"@) == (1int, 'q', ' ', ' ', ' ', ' '),
        shape("Q"@) == (1int, 'Q', ' ', ' ', ' ', ' '),
        shape("\\quit"@) == (5int, '\\', ' ', ' ', ' ', ' '),
{
    reveal_strlit("f");
    reveal_strlit("\\get_freq");
    reveal_strlit("F");
    reveal_strlit("\\set_freq");
    reveal_strlit("j");
    reveal_strlit("\\get_rit");
    reveal_strlit("J");
    reveal_strlit("\\set_rit");
    reveal_strlit("z");
    reveal_strlit("\\get_xit");
    reveal_strlit("Z");
    reveal_strlit("\\set_xit");
    reveal_strlit("u");
    reveal_strlit("\\get_func");
    reveal_strlit("U");
    reveal_strlit("\\set_func");
    reveal_strlit("m");
    reveal_strlit("\\get_mode");
    reveal_strlit("M");
    reveal_strlit("\\set_mode");
    reveal_strlit("v");
    reveal_strlit("\\get_vfo");
    reveal_strlit("V");
    reveal_strlit("\\set_vfo");
    reveal_strlit("\\get_lock_mode");
    reveal_strlit("\\set_lock_mode");
    reveal_strlit("t");
    reveal_strlit("\\get_ptt");
    reveal_strlit("T");
    reveal_strlit("\\set_ptt");
    reveal_strlit("b");
    reveal_strlit("\\send_morse");
    reveal_strlit("\\stop_morse");
    reveal_strlit("l");
    reveal_strlit("\\get_level");
    reveal_strlit("\\chk_vfo");
    reveal_strlit("\\dump_state");
    reveal_strlit("q");
    reveal_strlit("Q");
    reveal_strlit("\\quit");
}

/// Reading changes nothing, and answers with what is set: the frequency
/// listened to, the offsets, whether they are on, the mode with its filter
/// width, the key, the meter. Some requests have a fixed answer.
pub proof fn law_lines_that_read(m: RigModel, line: Seq<char>, n: RigNumbers, tx_allowed: bool)
    ensures
        ({
            let op = text::word(line, 0);
            let arg = text::word(line, 1);
            let s = m.settings;
            let same = effect(m, command_of(line), morse_text(line), n, tx_allowed) == m;
            let r = reply(s, command_of(line), n);
            &&& op == "f"@ || op == "\\get_freq"@ ==> same && r == Some(
                text::decimal(s.rx_frequency_hz as nat) + "\n"@,
            )
            &&& op == "j"@ || op == "\\get_rit"@ ==> same && r == Some(
                text::decimal_signed(s.rit_offset_hz as int) + "\n"@,
            )
            &&& op == "z"@ || op == "\\get_xit"@ ==> same && r == Some(
                text::decimal_signed(s.xit_offset_hz as int) + "\n"@,
            )
            &&& (op == "u"@ || op == "\\get_func"@) && arg == "RIT"@ ==> same && r == Some(
                if s.rit_enabled {
                    "1\n"@
                } else {
                    "0\n"@
                },
            )
            &&& (op == "u"@ || op == "\\get_func"@) && arg == "XIT"@ ==> same && r == Some(
                if s.xit_enabled {
                    "1\n"@
                } else {
                    "0\n"@
                },
            )
            &&& op == "m"@ || op == "\\get_mode"@ ==> same && r == Some(
                mode_name(s.mode) + "\n"@ + text::decimal_signed(s.passband.rounded_hz as int)
                    + "\n"@,
            )
            &&& op == "t"@ || op == "\\get_ptt"@ ==> same && r == Some(
                if s.mox {
                    "1\n"@
                } else {
                    "0\n"@
                },
            )
            &&& (op == "l"@ || op == "\\get_level"@) && arg == "STRENGTH"@ ==> same && r == Some(
                text::decimal_signed(n.strength_db as int) + "\n"@,
            )
            &&& op == "v"@ || op == "\\get_vfo"@ ==> same && r == Some("VFOA\n"@)
            &&& op == "\\chk_vfo"@ ==> same && r == Some("CHKVFO 0\n"@)
            &&& op == "\\dump_state"@ ==> same && r == Some(dump_state_text())
            &&& op == "V"@ || op == "\\set_vfo"@ || op == "\\get_lock_mode"@ || op
                == "\\set_lock_mode"@ ==> same && r == Some("RPRT 0\n"@)
            &&& op == "q"@ || op == "Q"@ || op == "\\quit"@ ==> same && r is None
        }),
{
    lemma_command_words();
    reveal_strlit("RIT");
    reveal_strlit("XIT");
    assert("RIT"@[0] != "XIT"@[0]);
    let after = effect(m, command_of(line), morse_text(line), n, tx_allowed);
    assert(after.settings == m.settings ==> after.cw_pending == m.cw_pending ==> after =~= m);
}

/// Setting changes what it names, and nothing else, and is acknowledged:
/// the frequency as the caller read it, an offset within 9999 Hz either
/// way, an offset on exactly where the number is not 0, the key likewise
/// where transmitting is allowed, and unkeying always. Without a number it
/// is refused.
pub proof fn law_lines_that_set(
    m: RigModel,
    line: Seq<char>,
    n: RigNumbers,
    tx_allowed: bool,
    v: i32,
)
    ensures
        ({
            let op = text::word(line, 0);
            let arg = text::word(line, 1);
            let value = text::word(line, 2);
            let s = m.settings;
            let after = effect(m, command_of(line), morse_text(line), n, tx_allowed);
            let r = reply(s, command_of(line), n);
            let within = if v > 9999 {
                9999i32
            } else if v < -9999 {
                -9999i32
            } else {
                v
            };
            &&& (op == "F"@ || op == "\\set_freq"@) && n.frequency_hz is Some ==> after == (
            RigModel {
                settings: RigSettings { requested_frequency_hz: n.frequency_hz->0, ..s },
                ..m
            }) && r == Some("RPRT 0\n"@)
            &&& (op == "J"@ || op == "\\set_rit"@) && arg == text::decimal_signed(v as int)
                ==> after == (RigModel {
                settings: RigSettings { rit_offset_hz: within, ..s },
                ..m
            }) && r == Some("RPRT 0\n"@)
            &&& (op == "Z"@ || op == "\\set_xit"@) && arg == text::decimal_signed(v as int)
                ==> after == (RigModel {
                settings: RigSettings { xit_offset_hz: within, ..s },
                ..m
            }) && r == Some("RPRT 0\n"@)
            &&& (op == "U"@ || op == "\\set_func"@) && arg == "RIT"@ && value
                == text::decimal_signed(v as int) ==> after == (RigModel {
                settings: RigSettings { rit_enabled: v != 0, ..s },
                ..m
            }) && r == Some("RPRT 0\n"@)
            &&& (op == "U"@ || op == "\\set_func"@) && arg == "XIT"@ && value
                == text::decimal_signed(v as int) ==> after == (RigModel {
                settings: RigSettings { xit_enabled: v != 0, ..s },
                ..m
            }) && r == Some("RPRT 0\n"@)
            &&& (op == "T"@ || op == "\\set_ptt"@) && arg == text::decimal_signed(v as int)
                ==> after == (RigModel {
                settings: RigSettings {
                    mox: if v == 0 {
                        false
                    } else {
                        tx_allowed || s.mox
                    },
                    ..s
                },
                ..m
            }) && r == Some("RPRT 0\n"@)
            &&& op == "\\stop_morse"@ ==> after == (RigModel {
                settings: RigSettings { cw_stop: true, ..s },
                ..m
            }) && r == Some("RPRT 0\n"@)
        }),
{
    lemma_command_words();
    text::law_decimal_round_trip(v as int);
    reveal_strlit("RIT");
    reveal_strlit("XIT");
    assert("RIT"@[0] != "XIT"@[0]);
}

/// What was turned on or off by a line is what the next line reads.
pub proof fn law_offsets_are_read_as_set(
    m: RigModel,
    set: Seq<char>,
    get: Seq<char>,
    n: RigNumbers,
    tx_allowed: bool,
    v: i32,
)
    requires
        text::word(set, 0) == "U"@ || text::word(set, 0) == "\\set_func"@,
        text::word(set, 2) == text::decimal_signed(v as int),
        text::word(get, 0) == "u"@ || text::word(get, 0) == "\\get_func"@,
        text::word(get, 1) == text::word(set, 1),
        text::word(set, 1) == "RIT"@ || text::word(set, 1) == "XIT"@,
    ensures
        reply(
            effect(m, command_of(set), morse_text(set), n, tx_allowed).settings,
            command_of(get),
            n,
        ) == Some(
            if v != 0 {
                "1\n"@
            } else {
                "0\n"@
            },
        ),
{
    law_lines_that_set(m, set, n, tx_allowed, v);
    law_lines_that_read(
        effect(m, command_of(set), morse_text(set), n, tx_allowed),
        get,
        n,
        tx_allowed,
    );
}

/// Setting the mode changes the mode, and the filter width where the caller
/// read one, and nothing else.
pub proof fn law_mode_lines(
    m: RigModel,
    line: Seq<char>,
    n: RigNumbers,
    tx_allowed: bool,
    mode: Mode,
)
    requires
        text::word(line, 0) == "M"@ || text::word(line, 0) == "\\set_mode"@,
        ascii_capitals(text::word(line, 1)) == mode_name(mode),
        mode != Mode::Drm && mode != Mode::Spec,
    ensures
        effect(m, command_of(line), morse_text(line), n, tx_allowed) == (RigModel {
            settings: RigSettings {
                mode,
                passband: match n.passband {
                    Some(p) => p,
                    None => m.settings.passband,
                },
                ..m.settings
            },
            ..m
        }),
        reply(m.settings, command_of(line), n) == Some("RPRT 0\n"@),
{
    law_mode_is_set_by_name(line, mode);
}

/// A request to key a text queues the rest of the line behind the command,
/// without the spaces around it; where nothing is left, nothing is queued.
/// Either way it is acknowledged.
pub proof fn law_morse_lines(
    m: RigModel,
    op: Seq<char>,
    rest: Seq<char>,
    n: RigNumbers,
    tx_allowed: bool,
)
    requires
        op == "b"@ || op == "\\send_morse"@,
        rest.len() > 0 ==> text::space(rest[0]),
    ensures
        ({
            let line = op + rest;
            let after = effect(m, command_of(line), morse_text(line), n, tx_allowed);
            &&& after.settings == m.settings
            &&& after.cw_pending == (if text::trim(rest).len() > 0 {
                m.cw_pending.push(text::trim(rest))
            } else {
                m.cw_pending
            })
            &&& reply(m.settings, command_of(line), n) == Some("RPRT 0\n"@)
        }),
{
    let line = op + rest;
    reveal_strlit("b");
    reveal_strlit("\\send_morse");
    assert forall|i: int| 0 <= i < op.len() implies !text::space(#[trigger] op[i]) by {
    }
    text::law_words_in_order(op, rest, ' ');
    assert(text::words(line)[0] == op);
    assert(text::word(line, 0) == op);
    lemma_command_words();
    text::law_skip_bytes(op, rest);
}

/// Every other line is refused and changes nothing: an unknown command, one
/// that lacks its number, and a function or level that there is not.
pub proof fn law_lines_that_are_refused(
    m: RigModel,
    line: Seq<char>,
    n: RigNumbers,
    tx_allowed: bool,
)
    ensures
        ({
            let op = text::word(line, 0);
            let arg = text::word(line, 1);
            let refused = effect(m, command_of(line), morse_text(line), n, tx_allowed) == m
                && reply(m.settings, command_of(line), n) == Some("RPRT -1\n"@);
            &&& (op == "F"@ || op == "\\set_freq"@) && n.frequency_hz is None ==> refused
            &&& (op == "J"@ || op == "\\set_rit"@ || op == "Z"@ || op == "\\set_xit"@ || op == "T"@
                || op == "\\set_ptt"@) && text::int32(arg) is None ==> refused
            &&& (op == "U"@ || op == "\\set_func"@) && text::int32(text::word(line, 2)) is None
                ==> refused
            &&& (op == "U"@ || op == "\\set_func"@ || op == "u"@ || op == "\\get_func"@) && arg
                != "RIT"@ && arg != "XIT"@ ==> refused
            &&& (op == "l"@ || op == "\\get_level"@) && arg != "STRENGTH"@ ==> refused
            &&& op == "L"@ || op == "\\set_level"@ ==> refused
            &&& op.len() == 0 ==> refused
        }),
{
    lemma_command_words();
    reveal_strlit("L");
    reveal_strlit("\\set_level");
    assert(shape("L"@) == (1int, 'L', ' ', ' ', ' ', ' '));
    assert(shape("\\set_level"@) == (10int, '\\', 's', 'e', 'l', 'e'));
    let after = effect(m, command_of(line), morse_text(line), n, tx_allowed);
    assert(after.settings == m.settings ==> after.cw_pending == m.cw_pending ==> after =~= m);
}

/// The modes go by these names, in capitals or not, and three of them by
/// further ones; a name of ASCII characters that is none of them stands for
/// no mode.
pub proof fn law_mode_table(name: Seq<char>, m: Mode)
    requires
        ascii_text(name),
    ensures
        ({
            let c = ascii_capitals(name);
            &&& mode_of_any(name) == Some(Mode::Lsb) <==> c == "LSB"@
            &&& mode_of_any(name) == Some(Mode::Usb) <==> c == "USB"@
            &&& mode_of_any(name) == Some(Mode::Dsb) <==> c == "DSB"@
            &&& mode_of_any(name) == Some(Mode::Cwl) <==> c == "CWR"@
            &&& mode_of_any(name) == Some(Mode::Cwu) <==> c == "CW"@
            &&& mode_of_any(name) == Some(Mode::Fmn) <==> c == "FM"@ || c == "WFM"@ || c == "FMN"@
            &&& mode_of_any(name) == Some(Mode::Am) <==> c == "AM"@
            &&& mode_of_any(name) == Some(Mode::Digu) <==> c == "PKTUSB"@ || c == "RTTY"@
            &&& mode_of_any(name) == Some(Mode::Digl) <==> c == "PKTLSB"@ || c == "RTTYR"@
            &&& mode_of_any(name) == Some(Mode::Sam) <==> c == "SAM"@
            &&& mode_of_any(name) != Some(Mode::Drm)
            &&& mode_of_any(name) != Some(Mode::Spec)
        }),
        mode_name(m) == "LSB"@ <==> m == Mode::Lsb,
        mode_name(m) == "USB"@ <==> m == Mode::Usb || m == Mode::Spec,
        mode_name(m) == "DSB"@ <==> m == Mode::Dsb,
        mode_name(m) == "CWR"@ <==> m == Mode::Cwl,
        mode_name(m) == "CW"@ <==> m == Mode::Cwu,
        mode_name(m) == "FM"@ <==> m == Mode::Fmn,
        mode_name(m) == "AM"@ <==> m == Mode::Am || m == Mode::Drm,
        mode_name(m) == "PKTUSB"@ <==> m == Mode::Digu,
        mode_name(m) == "PKTLSB"@ <==> m == Mode::Digl,
        mode_name(m) == "SAM"@ <==> m == Mode::Sam,
{
    lemma_mode_words();
}

proof fn lemma_mode_words()
    ensures
        "LSB"@.len() == 3 && "LSB"@[0] == 'L',
        "USB"@.len() == 3 && "USB"@[0] == 'U',
        "DSB"@.len() == 3 && "DSB"@[0] == 'D',
        "CWR"@.len() == 3 && "CWR"@[0] == 'C',
        "CW"@.len() == 2 && "CW"@[0] == 'C',
        "FM"@.len() == 2 && "FM"@[0] == 'F',
        "WFM"@.len() == 3 && "WFM"@[0] == 'W',
        "FMN"@.len() == 3 && "FMN"@[0] == 'F',
        "AM"@.len() == 2 && "AM"@[0] == 'A',
        "PKTUSB"@.len() == 6 && "PKTUSB"@[3] == 'U',
        "PKTLSB"@.len() == 6 && "PKTLSB"@[3] == 'L',
        "RTTY"@.len() == 4,
        "RTTYR"@.len() == 5,
        "SAM"@.len() == 3 && "SAM"@[0] == 'S',
{
    reveal_strlit("LSB");
    reveal_strlit("USB");
    reveal_strlit("DSB");
    reveal_strlit("CWR");
    reveal_strlit("CW");
    reveal_strlit("FM");
    reveal_strlit("WFM");
    reveal_strlit("FMN");
    reveal_strlit("AM");
    reveal_strlit("PKTUSB");
    reveal_strlit("PKTLSB");
    reveal_strlit("RTTY");
    reveal_strlit("RTTYR");
    reveal_strlit("SAM");
}

/// The words that are commands.
pub open spec fn is_command_word(w: Seq<char>) -> bool {
    ||| w == "f"@ || w == "\\get_freq"@
    ||| w == "F"@ || w == "\\set_freq"@
    ||| w == "j"@ || w == "\\get_rit"@
    ||| w == "J"@ || w == "\\set_rit"@
    ||| w == "z"@ || w == "\\get_xit"@
    ||| w == "Z"@ || w == "\\set_xit"@
    ||| w == "u"@ || w == "\\get_func"@
    ||| w == "U"@ || w == "\\set_func"@
    ||| w == "m"@ || w == "\\get_mode"@
    ||| w == "M"@ || w == "\\set_mode"@
    ||| w == "v"@ || w == "\\get_vfo"@
    ||| w == "V"@ || w == "\\set_vfo"@
    ||| w == "\\get_lock_mode"@ || w == "\\set_lock_mode"@
    ||| w == "t"@ || w == "\\get_ptt"@
    ||| w == "T"@ || w == "\\set_ptt"@
    ||| w == "b"@ || w == "\\send_morse"@
    ||| w == "\\stop_morse"@
    ||| w == "l"@ || w == "\\get_level"@
    ||| w == "\\chk_vfo"@ || w == "\\dump_state"@
    ||| w == "q"@ || w == "Q"@
    ||| w == "\\quit"@
}

/// A line whose first word is no command is refused and changes nothing.
pub proof fn law_unknown_lines_are_refused(
    m: RigModel,
    line: Seq<char>,
    n: RigNumbers,
    tx_allowed: bool,
)
    requires
        !is_command_word(text::word(line, 0)),
    ensures
        effect(m, command_of(line), morse_text(line), n, tx_allowed) == m,
        reply(m.settings, command_of(line), n) == Some("RPRT -1\n"@),
{
    let after = effect(m, command_of(line), morse_text(line), n, tx_allowed);
    assert(after =~= m);
}

/// The capabilities, in their order: protocol, rig model and region; one
/// receive and one transmit range, both up to 4 GHz, each list with its
/// end; tuning steps of 1 Hz; a filter of 2400 Hz; the largest offsets; ten
/// lines of nothing; and the end.
pub proof fn law_capabilities()
    ensures
        dump_state_text() == "0\n2\n2\n"@
            + "0 4000000000 -1 -1 -1 -1 0\n"@
            + "0 0 0 0 0 0 0\n"@
            + "0 4000000000 -1 0 100 -1 0\n"@
            + "0 0 0 0 0 0 0\n"@
            + "-1 1\n0 0\n"@
            + "-1 2400\n0 0\n"@
            + "9999\n9999\n"@
            + "0\n0\n0\n0\n0\n0\n0\n0\n0\n0\n"@
            + "done\n"@,
{
    reveal_strlit("0\n2\n2\n0 4000000000 -1 -1 -1 -1 0\n0 0 0 0 0 0 0\n0 4000000000 -1 0 100 -1 0\n0 0 0 0 0 0 0\n-1 1\n0 0\n-1 2400\n0 0\n9999\n9999\n0\n0\n0\n0\n0\n0\n0\n0\n0\n0\ndone\n");
    reveal_strlit("0\n2\n2\n");
    reveal_strlit("0 4000000000 -1 -1 -1 -1 0\n");
    reveal_strlit("0 0 0 0 0 0 0\n");
    reveal_strlit("0 4000000000 -1 0 100 -1 0\n");
    reveal_strlit("-1 1\n0 0\n");
    reveal_strlit("-1 2400\n0 0\n");
    reveal_strlit("9999\n9999\n");
    reveal_strlit("0\n0\n0\n0\n0\n0\n0\n0\n0\n0\n");
    reveal_strlit("done\n");
    assert(dump_state_text() =~= "0\n2\n2\n"@
        + "0 4000000000 -1 -1 -1 -1 0\n"@
        + "0 0 0 0 0 0 0\n"@
        + "0 4000000000 -1 0 100 -1 0\n"@
        + "0 0 0 0 0 0 0\n"@
        + "-1 1\n0 0\n"@
        + "-1 2400\n0 0\n"@
        + "9999\n9999\n"@
        + "0\n0\n0\n0\n0\n0\n0\n0\n0\n0\n"@
        + "done\n"@);
}

} // verus!
