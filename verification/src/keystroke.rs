//! Classification of raw input bytes as key presses.
//!
//! A single byte is either a printable character, one of the thirty-three
//! control characters, or a byte with no meaning here; a run of bytes that
//! begins with the escape byte may form one of the recognised ANSI escape
//! sequences (arrows, editing keys, function keys).

use vstd::prelude::*;

verus! {

/// Relies on `String::push`: appends the given character to the end of the
/// string.
pub assume_specification[ String::push ](s: &mut String, ch: char)
    ensures
        final(s)@ == old(s)@.push(ch),
;

/// One decoded unit of input: a plain key press or an escape sequence.
pub enum InputType {
    Ascii(AsciiKey),
    Ansi(EscapeSequence),
}

/// A single key press, except for the keys that send escape sequences.
/// The thirty-two low control characters and delete have a variant each;
/// any other printable character is `Char`; a byte that stands for no key
/// is `NoOp`.
#[derive(Clone, Copy, PartialEq, Eq, Structural, Debug)]
pub enum AsciiKey {
    NullCharacter,
    StartOfHeader,
    StartOfText,
    EndOfText,
    EndOfTransmission,
    Enquiry,
    Acknowledge,
    Bell,
    Backspace,
    HorizontalTab,
    LineFeed,
    VerticalTab,
    FormFeed,
    CarriageReturn,
    ShiftOut,
    ShiftIn,
    DataLinkEscape,
    TransmitOn,
    DeviceControl2,
    TransmitOff,
    DeviceControl4,
    NegativeAcknowledge,
    SynchronousIdle,
    EndOfTransmissionBlock,
    Cancel,
    EndOfMedium,
    Substitute,
    Escape,
    FileSeparator,
    GroupSeparator,
    RecordSeparator,
    UnitSeparator,
    Space,
    /// Some terminals send 0x7f for backspace, others 0x08.
    Delete,
    /// Any other printable character.
    Char(char),
    /// A byte that stands for no key.
    NoOp(char),
}

/// Which key a single input byte stands for: a printable byte is its
/// character, the low control bytes and delete are their control keys, and
/// the remaining control bytes stand for no key.
pub open spec fn ascii_key_of(b: u8) -> AsciiKey {
    if !(b <= 0x1f || (0x7f <= b && b <= 0x9f)) {
        AsciiKey::Char(b as char)
    } else if b == 0x00 {
        AsciiKey::NullCharacter
    } else if b == 0x01 {
        AsciiKey::StartOfHeader
    } else if b == 0x02 {
        AsciiKey::StartOfText
    } else if b == 0x03 {
        AsciiKey::EndOfText
    } else if b == 0x04 {
        AsciiKey::EndOfTransmission
    } else if b == 0x05 {
        AsciiKey::Enquiry
    } else if b == 0x06 {
        AsciiKey::Acknowledge
    } else if b == 0x07 {
        AsciiKey::Bell
    } else if b == 0x08 {
        AsciiKey::Backspace
    } else if b == 0x09 {
        AsciiKey::HorizontalTab
    } else if b == 0x0a {
        AsciiKey::LineFeed
    } else if b == 0x0b {
        AsciiKey::VerticalTab
    } else if b == 0x0c {
        AsciiKey::FormFeed
    } else if b == 0x0d {
        AsciiKey::CarriageReturn
    } else if b == 0x0e {
        AsciiKey::ShiftOut
    } else if b == 0x0f {
        AsciiKey::ShiftIn
    } else if b == 0x10 {
        AsciiKey::DataLinkEscape
    } else if b == 0x11 {
        AsciiKey::TransmitOn
    } else if b == 0x12 {
        AsciiKey::DeviceControl2
    } else if b == 0x13 {
        AsciiKey::TransmitOff
    } else if b == 0x14 {
        AsciiKey::DeviceControl4
    } else if b == 0x15 {
        AsciiKey::NegativeAcknowledge
    } else if b == 0x16 {
        AsciiKey::SynchronousIdle
    } else if b == 0x17 {
        AsciiKey::EndOfTransmissionBlock
    } else if b == 0x18 {
        AsciiKey::Cancel
    } else if b == 0x19 {
        AsciiKey::EndOfMedium
    } else if b == 0x1a {
        AsciiKey::Substitute
    } else if b == 0x1b {
        AsciiKey::Escape
    } else if b == 0x1c {
        AsciiKey::FileSeparator
    } else if b == 0x1d {
        AsciiKey::GroupSeparator
    } else if b == 0x1e {
        AsciiKey::RecordSeparator
    } else if b == 0x1f {
        AsciiKey::UnitSeparator
    } else if b == 0x7f {
        AsciiKey::Delete
    } else {
        AsciiKey::NoOp(b as char)
    }
}

/// The text that `AsciiKey::to_string` renders: the hexadecimal code of a
/// control key, or the character itself.
pub open spec fn ascii_key_text(k: AsciiKey) -> Seq<char> {
    match k {
        AsciiKey::NullCharacter => "0x00"@,
        AsciiKey::StartOfHeader => "0x01"@,
        AsciiKey::StartOfText => "0x02"@,
        AsciiKey::EndOfText => "0x03"@,
        AsciiKey::EndOfTransmission => "0x04"@,
        AsciiKey::Enquiry => "0x05"@,
        AsciiKey::Acknowledge => "0x06"@,
        AsciiKey::Bell => "0x07"@,
        AsciiKey::Backspace => "0x08"@,
        AsciiKey::HorizontalTab => "0x09"@,
        AsciiKey::LineFeed => "0x0a"@,
        AsciiKey::VerticalTab => "0x0b"@,
        AsciiKey::FormFeed => "0x0c"@,
        AsciiKey::CarriageReturn => "0x0d"@,
        AsciiKey::ShiftOut => "0x0e"@,
        AsciiKey::ShiftIn => "0x0f"@,
        AsciiKey::DataLinkEscape => "0x10"@,
        AsciiKey::TransmitOn => "0x11"@,
        AsciiKey::DeviceControl2 => "0x12"@,
        AsciiKey::TransmitOff => "0x13"@,
        AsciiKey::DeviceControl4 => "0x14"@,
        AsciiKey::NegativeAcknowledge => "0x15"@,
        AsciiKey::SynchronousIdle => "0x16"@,
        AsciiKey::EndOfTransmissionBlock => "0x17"@,
        AsciiKey::Cancel => "0x18"@,
        AsciiKey::EndOfMedium => "0x19"@,
        AsciiKey::Substitute => "0x1a"@,
        AsciiKey::Escape => "0x1b"@,
        AsciiKey::FileSeparator => "0x1c"@,
        AsciiKey::GroupSeparator => "0x1d"@,
        AsciiKey::RecordSeparator => "0x1e"@,
        AsciiKey::UnitSeparator => "0x1f"@,
        AsciiKey::Space => "0x20"@,
        AsciiKey::Delete => "0x7f"@,
        AsciiKey::Char(c) => seq![c],
        AsciiKey::NoOp(c) => seq![c],
    }
}

impl AsciiKey {
    /// Classify a one-byte key press.
    pub fn new(c: &[u8]) -> (r: AsciiKey)
        requires
            c@.len() == 1,
        ensures
            r == ascii_key_of(c@[0]),
    {
        let b = c[0];
        if !(b <= 0x1f || (0x7f <= b && b <= 0x9f)) {
            return AsciiKey::Char(b as char);
        }
        match b {
            0x00 => AsciiKey::NullCharacter,
            0x01 => AsciiKey::StartOfHeader,
            0x02 => AsciiKey::StartOfText,
            0x03 => AsciiKey::EndOfText,
            0x04 => AsciiKey::EndOfTransmission,
            0x05 => AsciiKey::Enquiry,
            0x06 => AsciiKey::Acknowledge,
            0x07 => AsciiKey::Bell,
            0x08 => AsciiKey::Backspace,
            0x09 => AsciiKey::HorizontalTab,
            0x0a => AsciiKey::LineFeed,
            0x0b => AsciiKey::VerticalTab,
            0x0c => AsciiKey::FormFeed,
            0x0d => AsciiKey::CarriageReturn,
            0x0e => AsciiKey::ShiftOut,
            0x0f => AsciiKey::ShiftIn,
            0x10 => AsciiKey::DataLinkEscape,
            0x11 => AsciiKey::TransmitOn,
            0x12 => AsciiKey::DeviceControl2,
            0x13 => AsciiKey::TransmitOff,
            0x14 => AsciiKey::DeviceControl4,
            0x15 => AsciiKey::NegativeAcknowledge,
            0x16 => AsciiKey::SynchronousIdle,
            0x17 => AsciiKey::EndOfTransmissionBlock,
            0x18 => AsciiKey::Cancel,
            0x19 => AsciiKey::EndOfMedium,
            0x1a => AsciiKey::Substitute,
            0x1b => AsciiKey::Escape,
            0x1c => AsciiKey::FileSeparator,
            0x1d => AsciiKey::GroupSeparator,
            0x1e => AsciiKey::RecordSeparator,
            0x1f => AsciiKey::UnitSeparator,
            0x7f => AsciiKey::Delete,
            _ => AsciiKey::NoOp(b as char),
        }
    }

    /// Render the key press: a control key as its hexadecimal code, any
    /// other as its character.
    pub fn to_string(&self) -> (r: String)
        ensures
            r@ == ascii_key_text(*self),
    {
        match *self {
            AsciiKey::NullCharacter => String::from_str("0x00"),
            AsciiKey::StartOfHeader => String::from_str("0x01"),
            AsciiKey::StartOfText => String::from_str("0x02"),
            AsciiKey::EndOfText => String::from_str("0x03"),
            AsciiKey::EndOfTransmission => String::from_str("0x04"),
            AsciiKey::Enquiry => String::from_str("0x05"),
            AsciiKey::Acknowledge => String::from_str("0x06"),
            AsciiKey::Bell => String::from_str("0x07"),
            AsciiKey::Backspace => String::from_str("0x08"),
            AsciiKey::HorizontalTab => String::from_str("0x09"),
            AsciiKey::LineFeed => String::from_str("0x0a"),
            AsciiKey::VerticalTab => String::from_str("0x0b"),
            AsciiKey::FormFeed => String::from_str("0x0c"),
            AsciiKey::CarriageReturn => String::from_str("0x0d"),
            AsciiKey::ShiftOut => String::from_str("0x0e"),
            AsciiKey::ShiftIn => String::from_str("0x0f"),
            AsciiKey::DataLinkEscape => String::from_str("0x10"),
            AsciiKey::TransmitOn => String::from_str("0x11"),
            AsciiKey::DeviceControl2 => String::from_str("0x12"),
            AsciiKey::TransmitOff => String::from_str("0x13"),
            AsciiKey::DeviceControl4 => String::from_str("0x14"),
            AsciiKey::NegativeAcknowledge => String::from_str("0x15"),
            AsciiKey::SynchronousIdle => String::from_str("0x16"),
            AsciiKey::EndOfTransmissionBlock => String::from_str("0x17"),
            AsciiKey::Cancel => String::from_str("0x18"),
            AsciiKey::EndOfMedium => String::from_str("0x19"),
            AsciiKey::Substitute => String::from_str("0x1a"),
            AsciiKey::Escape => String::from_str("0x1b"),
            AsciiKey::FileSeparator => String::from_str("0x1c"),
            AsciiKey::GroupSeparator => String::from_str("0x1d"),
            AsciiKey::RecordSeparator => String::from_str("0x1e"),
            AsciiKey::UnitSeparator => String::from_str("0x1f"),
            AsciiKey::Space => String::from_str("0x20"),
            AsciiKey::Delete => String::from_str("0x7f"),
            AsciiKey::Char(c) => char_string(c),
            AsciiKey::NoOp(c) => char_string(c),
        }
    }

    /// Whether the key press stands for a key at all.
    pub fn is_valid(&self) -> (r: bool)
        ensures
            r == !(*self matches AsciiKey::NoOp(_)),
    {
        if let AsciiKey::NoOp(_) = *self {
            false
        } else {
            true
        }
    }
}

/// The one-character string of `c`.
fn char_string(c: char) -> (r: String)
    ensures
        r@ == seq![c],
{
    let mut s = String::new();
    s.push(c);
    proof {
        assert(s@ =~= seq![c]);
    }
    s
}

/// The escape sequences that are recognised: cursor keys, editing keys and
/// function keys, each a fixed byte run beginning with the escape byte.
#[derive(Clone, Copy, PartialEq, Eq, Structural, Debug)]
pub enum EscapeSequence {
    ArrowUp,
    ArrowDown,
    ArrowRight,
    ArrowLeft,
    Delete,
    Home,
    End,
    PageUp,
    PageDown,
    Insert,
    F1,
    F2,
    F3,
    F4,
    F5,
    F6,
    F7,
    F8,
    F9,
    F10,
    F11,
    F12,
    /// Any other escape sequence.
    NoOp,
}

/// Which escape sequence a byte run stands for; any unrecognised run stands
/// for none.
pub open spec fn escape_seq_of(bytes: Seq<u8>) -> EscapeSequence {
    if bytes == seq![0x1bu8, 0x5bu8, 0x41u8] {
        EscapeSequence::ArrowUp
    } else if bytes == seq![0x1bu8, 0x5bu8, 0x42u8] {
        EscapeSequence::ArrowDown
    } else if bytes == seq![0x1bu8, 0x5bu8, 0x43u8] {
        EscapeSequence::ArrowRight
    } else if bytes == seq![0x1bu8, 0x5bu8, 0x44u8] {
        EscapeSequence::ArrowLeft
    } else if bytes == seq![0x1bu8, 0x5bu8, 0x33u8, 0x7eu8] {
        EscapeSequence::Delete
    } else if bytes == seq![0x1bu8, 0x5bu8, 0x48u8] {
        EscapeSequence::Home
    } else if bytes == seq![0x1bu8, 0x5bu8, 0x46u8] {
        EscapeSequence::End
    } else if bytes == seq![0x1bu8, 0x5bu8, 0x35u8, 0x7eu8] {
        EscapeSequence::PageUp
    } else if bytes == seq![0x1bu8, 0x5bu8, 0x36u8, 0x7eu8] {
        EscapeSequence::PageDown
    } else if bytes == seq![0x1bu8, 0x5bu8, 0x32u8, 0x7eu8] {
        EscapeSequence::Insert
    } else if bytes == seq![0x1bu8, 0x4fu8, 0x50u8] {
        EscapeSequence::F1
    } else if bytes == seq![0x1bu8, 0x4fu8, 0x51u8] {
        EscapeSequence::F2
    } else if bytes == seq![0x1bu8, 0x4fu8, 0x52u8] {
        EscapeSequence::F3
    } else if bytes == seq![0x1bu8, 0x4fu8, 0x53u8] {
        EscapeSequence::F4
    } else if bytes == seq![0x1bu8, 0x5bu8, 0x31u8, 0x35u8, 0x7eu8] {
        EscapeSequence::F5
    } else if bytes == seq![0x1bu8, 0x5bu8, 0x31u8, 0x37u8, 0x7eu8] {
        EscapeSequence::F6
    } else if bytes == seq![0x1bu8, 0x5bu8, 0x31u8, 0x38u8, 0x7eu8] {
        EscapeSequence::F7
    } else if bytes == seq![0x1bu8, 0x5bu8, 0x31u8, 0x39u8, 0x7eu8] {
        EscapeSequence::F8
    } else if bytes == seq![0x1bu8, 0x5bu8, 0x32u8, 0x30u8, 0x7eu8] {
        EscapeSequence::F9
    } else if bytes == seq![0x1bu8, 0x5bu8, 0x32u8, 0x31u8, 0x7eu8] {
        EscapeSequence::F10
    } else if bytes == seq![0x1bu8, 0x5bu8, 0x32u8, 0x33u8, 0x7eu8] {
        EscapeSequence::F11
    } else if bytes == seq![0x1bu8, 0x5bu8, 0x32u8, 0x34u8, 0x7eu8] {
        EscapeSequence::F12
    } else {
        EscapeSequence::NoOp
    }
}

/// The byte run of an escape sequence, as the characters it is written
/// with; the unrecognised sequence has none.
pub open spec fn escape_text(e: EscapeSequence) -> Seq<char> {
    match e {
        EscapeSequence::ArrowUp => "\x1b[A"@,
        EscapeSequence::ArrowDown => "\x1b[B"@,
        EscapeSequence::ArrowRight => "\x1b[C"@,
        EscapeSequence::ArrowLeft => "\x1b[D"@,
        EscapeSequence::Delete => "\x1b[3~"@,
        EscapeSequence::Home => "\x1b[H"@,
        EscapeSequence::End => "\x1b[F"@,
        EscapeSequence::PageUp => "\x1b[5~"@,
        EscapeSequence::PageDown => "\x1b[6~"@,
        EscapeSequence::Insert => "\x1b[2~"@,
        EscapeSequence::F1 => "\x1bOP"@,
        EscapeSequence::F2 => "\x1bOQ"@,
        EscapeSequence::F3 => "\x1bOR"@,
        EscapeSequence::F4 => "\x1bOS"@,
        EscapeSequence::F5 => "\x1b[15~"@,
        EscapeSequence::F6 => "\x1b[17~"@,
        EscapeSequence::F7 => "\x1b[18~"@,
        EscapeSequence::F8 => "\x1b[19~"@,
        EscapeSequence::F9 => "\x1b[20~"@,
        EscapeSequence::F10 => "\x1b[21~"@,
        EscapeSequence::F11 => "\x1b[23~"@,
        EscapeSequence::F12 => "\x1b[24~"@,
        EscapeSequence::NoOp => Seq::empty(),
    }
}

/// Whether `c` is the three-byte run `0x1b b1 b2`.
fn run_eq3(c: &[u8], b1: u8, b2: u8) -> (r: bool)
    ensures
        r == (c@ == seq![0x1bu8, b1, b2]),
{
    let ghost t = seq![0x1bu8, b1, b2];
    if c.len() != 3 {
        assert(c@.len() != t.len());
        return false;
    }
    if c[0] != 0x1b || c[1] != b1 || c[2] != b2 {
        return false;
    }
    proof {
        assert(c@ =~= t);
    }
    true
}

/// Whether `c` is the four-byte run `0x1b b1 b2 b3`.
fn run_eq4(c: &[u8], b1: u8, b2: u8, b3: u8) -> (r: bool)
    ensures
        r == (c@ == seq![0x1bu8, b1, b2, b3]),
{
    let ghost t = seq![0x1bu8, b1, b2, b3];
    if c.len() != 4 {
        assert(c@.len() != t.len());
        return false;
    }
    if c[0] != 0x1b || c[1] != b1 || c[2] != b2 || c[3] != b3 {
        return false;
    }
    proof {
        assert(c@ =~= t);
    }
    true
}

/// Whether `c` is the five-byte run `0x1b b1 b2 b3 b4`.
fn run_eq5(c: &[u8], b1: u8, b2: u8, b3: u8, b4: u8) -> (r: bool)
    ensures
        r == (c@ == seq![0x1bu8, b1, b2, b3, b4]),
{
    let ghost t = seq![0x1bu8, b1, b2, b3, b4];
    if c.len() != 5 {
        assert(c@.len() != t.len());
        return false;
    }
    if c[0] != 0x1b || c[1] != b1 || c[2] != b2 || c[3] != b3 || c[4] != b4 {
        return false;
    }
    proof {
        assert(c@ =~= t);
    }
    true
}

impl EscapeSequence {
    /// Classify a byte run as an escape sequence; an unrecognised run, of
    /// any length, stands for none.
    pub fn new(c: &[u8]) -> (r: EscapeSequence)
        ensures
            r == escape_seq_of(c@),
    {
        if run_eq3(c, 0x5b, 0x41) {
            EscapeSequence::ArrowUp
        } else if run_eq3(c, 0x5b, 0x42) {
            EscapeSequence::ArrowDown
        } else if run_eq3(c, 0x5b, 0x43) {
            EscapeSequence::ArrowRight
        } else if run_eq3(c, 0x5b, 0x44) {
            EscapeSequence::ArrowLeft
        } else if run_eq4(c, 0x5b, 0x33, 0x7e) {
            EscapeSequence::Delete
        } else if run_eq3(c, 0x5b, 0x48) {
            EscapeSequence::Home
        } else if run_eq3(c, 0x5b, 0x46) {
            EscapeSequence::End
        } else if run_eq4(c, 0x5b, 0x35, 0x7e) {
            EscapeSequence::PageUp
        } else if run_eq4(c, 0x5b, 0x36, 0x7e) {
            EscapeSequence::PageDown
        } else if run_eq4(c, 0x5b, 0x32, 0x7e) {
            EscapeSequence::Insert
        } else if run_eq3(c, 0x4f, 0x50) {
            EscapeSequence::F1
        } else if run_eq3(c, 0x4f, 0x51) {
            EscapeSequence::F2
        } else if run_eq3(c, 0x4f, 0x52) {
            EscapeSequence::F3
        } else if run_eq3(c, 0x4f, 0x53) {
            EscapeSequence::F4
        } else if run_eq5(c, 0x5b, 0x31, 0x35, 0x7e) {
            EscapeSequence::F5
        } else if run_eq5(c, 0x5b, 0x31, 0x37, 0x7e) {
            EscapeSequence::F6
        } else if run_eq5(c, 0x5b, 0x31, 0x38, 0x7e) {
            EscapeSequence::F7
        } else if run_eq5(c, 0x5b, 0x31, 0x39, 0x7e) {
            EscapeSequence::F8
        } else if run_eq5(c, 0x5b, 0x32, 0x30, 0x7e) {
            EscapeSequence::F9
        } else if run_eq5(c, 0x5b, 0x32, 0x31, 0x7e) {
            EscapeSequence::F10
        } else if run_eq5(c, 0x5b, 0x32, 0x33, 0x7e) {
            EscapeSequence::F11
        } else if run_eq5(c, 0x5b, 0x32, 0x34, 0x7e) {
            EscapeSequence::F12
        } else {
            EscapeSequence::NoOp
        }
    }

    /// The characters an escape sequence is written with.
    pub fn to_string(&self) -> (r: String)
        requires
            !(*self matches EscapeSequence::NoOp),
        ensures
            r@ == escape_text(*self),
    {
        match *self {
            EscapeSequence::ArrowUp => String::from_str("\x1b[A"),
            EscapeSequence::ArrowDown => String::from_str("\x1b[B"),
            EscapeSequence::ArrowRight => String::from_str("\x1b[C"),
            EscapeSequence::ArrowLeft => String::from_str("\x1b[D"),
            EscapeSequence::Delete => String::from_str("\x1b[3~"),
            EscapeSequence::Home => String::from_str("\x1b[H"),
            EscapeSequence::End => String::from_str("\x1b[F"),
            EscapeSequence::PageUp => String::from_str("\x1b[5~"),
            EscapeSequence::PageDown => String::from_str("\x1b[6~"),
            EscapeSequence::Insert => String::from_str("\x1b[2~"),
            EscapeSequence::F1 => String::from_str("\x1bOP"),
            EscapeSequence::F2 => String::from_str("\x1bOQ"),
            EscapeSequence::F3 => String::from_str("\x1bOR"),
            EscapeSequence::F4 => String::from_str("\x1bOS"),
            EscapeSequence::F5 => String::from_str("\x1b[15~"),
            EscapeSequence::F6 => String::from_str("\x1b[17~"),
            EscapeSequence::F7 => String::from_str("\x1b[18~"),
            EscapeSequence::F8 => String::from_str("\x1b[19~"),
            EscapeSequence::F9 => String::from_str("\x1b[20~"),
            EscapeSequence::F10 => String::from_str("\x1b[21~"),
            EscapeSequence::F11 => String::from_str("\x1b[23~"),
            EscapeSequence::F12 => String::from_str("\x1b[24~"),
            EscapeSequence::NoOp => String::new(),
        }
    }

    /// Whether the byte run stood for a recognised sequence.
    pub fn is_valid(&self) -> (r: bool)
        ensures
            r == !(*self matches EscapeSequence::NoOp),
    {
        if let EscapeSequence::NoOp = *self {
            false
        } else {
            true
        }
    }
}

} // verus!
