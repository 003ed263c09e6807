use rsh::dimensions::Dimensions;
use rsh::keystroke::{AsciiKey, EscapeSequence, InputType};
use rsh::linefeed::{ComponentState, LineFeed};
use rsh::term_interface::TermInterface;

#[test]
fn test_ascii_key_printable() {
    assert_eq!(AsciiKey::new(&[b'a']), AsciiKey::Char('a'));
    assert_eq!(AsciiKey::new(&[b' ']), AsciiKey::Char(' '));
    assert_eq!(AsciiKey::new(&[b'Z']), AsciiKey::Char('Z'));
}

#[test]
fn test_ascii_key_controls() {
    assert_eq!(AsciiKey::new(&[0x00]), AsciiKey::NullCharacter);
    assert_eq!(AsciiKey::new(&[0x03]), AsciiKey::EndOfText);
    assert_eq!(AsciiKey::new(&[0x08]), AsciiKey::Backspace);
    assert_eq!(AsciiKey::new(&[0x0a]), AsciiKey::LineFeed);
    assert_eq!(AsciiKey::new(&[0x1b]), AsciiKey::Escape);
    assert_eq!(AsciiKey::new(&[0x7f]), AsciiKey::Delete);
    assert_eq!(AsciiKey::new(&[0x85]), AsciiKey::NoOp(0x85 as char));
}

#[test]
fn test_ascii_key_to_string() {
    assert_eq!(AsciiKey::EndOfText.to_string(), "0x03");
    assert_eq!(AsciiKey::Escape.to_string(), "0x1b");
    assert_eq!(AsciiKey::Char('q').to_string(), "q");
}

#[test]
fn test_ascii_key_is_valid() {
    assert!(AsciiKey::Char('a').is_valid());
    assert!(AsciiKey::Backspace.is_valid());
    assert!(!AsciiKey::NoOp('\u{85}').is_valid());
}

#[test]
fn test_escape_sequence_new() {
    assert_eq!(EscapeSequence::new(b"\x1b[A"), EscapeSequence::ArrowUp);
    assert_eq!(EscapeSequence::new(b"\x1b[B"), EscapeSequence::ArrowDown);
    assert_eq!(EscapeSequence::new(b"\x1b[C"), EscapeSequence::ArrowRight);
    assert_eq!(EscapeSequence::new(b"\x1b[D"), EscapeSequence::ArrowLeft);
    assert_eq!(EscapeSequence::new(b"\x1b[3~"), EscapeSequence::Delete);
    assert_eq!(EscapeSequence::new(b"\x1bOP"), EscapeSequence::F1);
    assert_eq!(EscapeSequence::new(b"\x1b[15~"), EscapeSequence::F5);
    assert_eq!(EscapeSequence::new(b"\x1b[24~"), EscapeSequence::F12);
    assert_eq!(EscapeSequence::new(b"\x1b[9~"), EscapeSequence::NoOp);
    assert_eq!(EscapeSequence::new(b"xy"), EscapeSequence::NoOp);
}

#[test]
fn test_escape_sequence_to_string() {
    assert_eq!(EscapeSequence::ArrowUp.to_string(), "\x1b[A");
    assert_eq!(EscapeSequence::F12.to_string(), "\x1b[24~");
}

#[test]
fn test_escape_sequence_is_valid() {
    assert!(EscapeSequence::Home.is_valid());
    assert!(!EscapeSequence::NoOp.is_valid());
}

#[test]
fn test_dimensions() {
    let empty = Dimensions::empty();
    assert_eq!(empty.rows, 0);
    assert_eq!(empty.cols, 0);
    let mut d = Dimensions::new(24, 80);
    assert_eq!(d.rows, 24);
    assert_eq!(d.cols, 80);
    d.resize(50, 132);
    assert_eq!(d.rows, 50);
    assert_eq!(d.cols, 132);
}

fn type_line(lf: &mut LineFeed, text: &str) {
    for c in text.chars() {
        let state = lf.handle_key_press(InputType::Ascii(AsciiKey::Char(c)));
        assert!(matches!(state, ComponentState::Continue));
    }
}

#[test]
fn test_linefeed_typing() {
    let mut lf = LineFeed::new(Dimensions::new(24, 80));
    type_line(&mut lf, "ls -l");
    assert_eq!(lf.get_buffer_as_str(), "ls -l");
    assert_eq!(lf.get_buffer(), vec!['l', 's', ' ', '-', 'l']);
}

#[test]
fn test_linefeed_stop_on_end_of_text() {
    let mut lf = LineFeed::new(Dimensions::new(24, 80));
    type_line(&mut lf, "ls");
    let state = lf.handle_key_press(InputType::Ascii(AsciiKey::EndOfText));
    assert!(matches!(state, ComponentState::Stop));
    assert_eq!(lf.get_buffer_as_str(), "ls");
}

#[test]
fn test_linefeed_delete() {
    let mut lf = LineFeed::new(Dimensions::new(24, 80));
    type_line(&mut lf, "lss");
    let state = lf.handle_key_press(InputType::Ascii(AsciiKey::Delete));
    assert!(matches!(state, ComponentState::Continue));
    assert_eq!(lf.get_buffer_as_str(), "ls");
}

#[test]
fn test_linefeed_arrows_edit_in_middle() {
    let mut lf = LineFeed::new(Dimensions::new(24, 80));
    type_line(&mut lf, "ac");
    let state = lf.handle_key_press(InputType::Ansi(EscapeSequence::ArrowLeft));
    assert!(matches!(state, ComponentState::Continue));
    type_line(&mut lf, "b");
    assert_eq!(lf.get_buffer_as_str(), "abc");
}

#[test]
fn test_linefeed_overflow_wraps_to_next_row() {
    let mut lf = LineFeed::new(Dimensions::new(4, 4));
    type_line(&mut lf, "abcde");
    assert_eq!(lf.get_buffer_as_str(), "abcde");
}

#[test]
fn test_linefeed_output_is_queued() {
    let mut lf = LineFeed::new(Dimensions::new(24, 80));
    type_line(&mut lf, "x");
    let bytes = lf.take_output();
    assert!(!bytes.is_empty());
    // the queue drains
    let empty = lf.take_output();
    assert!(empty.is_empty());
    // a render addresses the first row: escape, '[', '1', ';', '1', 'H' occurs
    let text: Vec<u8> = bytes.clone();
    assert!(text.windows(2).any(|w| w == [0x1b, b'[']));
    assert!(text.contains(&b'x'));
}

#[test]
fn test_linefeed_render_bytes_exact() {
    let mut lf = LineFeed::new(Dimensions::new(24, 80));
    let state = lf.handle_key_press(InputType::Ascii(AsciiKey::Char('x')));
    assert!(matches!(state, ComponentState::Continue));
    let bytes = lf.take_output();
    let expected: Vec<u8> = vec![
        0x1b, 0x5b, 0x3f, 0x32, 0x35, 0x6c, // hide the cursor
        0x1b, 0x5b, b'1', 0x3b, b'1', 0x48, // address row 1, column 1
        0x1b, 0x5b, 0x4b, // erase the row
        b'x', // the row's text
        0x1b, 0x5b, b'1', 0x3b, b'2', 0x48, // restore the cursor
        0x1b, 0x5b, 0x3f, 0x32, 0x35, 0x68, // show the cursor
    ];
    assert_eq!(bytes, expected);
}

#[test]
fn test_term_interface_plain_line() {
    let mut term = TermInterface::new("> ");
    term.handle_chars("ls -l");
    assert!(term.is_terminated());
    assert_eq!(term.buffer_contents(), "ls -l");
}

#[test]
fn test_term_interface_open_quote_continues() {
    let mut term = TermInterface::new("> ");
    term.handle_chars("echo \"hello");
    assert!(!term.is_terminated());
    term.handle_chars(" world\"");
    assert!(term.is_terminated());
    assert_eq!(term.buffer_contents(), "echo hello world");
}

#[test]
fn test_term_interface_escape() {
    let mut term = TermInterface::new("> ");
    term.handle_chars("a\\");
    assert!(!term.is_terminated());
    term.handle_chars("\"b");
    assert!(term.is_terminated());
    assert_eq!(term.buffer_contents(), "a\"b");
}

#[test]
fn test_term_interface_mixed_quotes() {
    let mut term = TermInterface::new("> ");
    term.handle_chars("echo '\"'");
    assert!(term.is_terminated());
    assert_eq!(term.buffer_contents(), "echo \"");
}

#[test]
fn test_term_interface_reset() {
    let mut term = TermInterface::new("> ");
    term.handle_chars("ls");
    term.update_prompt();
    term.reset_state();
    assert_eq!(term.buffer_contents(), "");
}
