use ske_rs::console::format_console_line;
use ske_rs::console::trim_name;

fn padded_name(name: &[u8], width: usize) -> Vec<u8> {
    let mut field = name.to_vec();
    while field.len() < width {
        field.push(0);
    }
    field
}

#[test]
fn empty_message_yields_prefix_only() {
    let name = padded_name(b"P1", 32);
    let message: Vec<u8> = Vec::new();
    let line = format_console_line(&name, &message);
    assert_eq!(line, b"P1: ".to_vec());
}

#[test]
fn embedded_newline_indents_continuation() {
    let name = padded_name(b"P1", 32);
    let message = b"line1\nline2".to_vec();
    let line = format_console_line(&name, &message);
    assert_eq!(line, b"P1: line1\n    line2".to_vec());
}

#[test]
fn trailing_newline_is_stripped() {
    let name = padded_name(b"P1", 32);
    let message = b"hello\n".to_vec();
    let line = format_console_line(&name, &message);
    assert_eq!(line, b"P1: hello".to_vec());
}

#[test]
fn one_trailing_newline_goes_the_rest_stay() {
    let name = padded_name(b"P1", 32);
    let message = b"hi\n\n".to_vec();
    let line = format_console_line(&name, &message);
    assert_eq!(line, b"P1: hi\n    ".to_vec());
}

#[test]
fn longer_name_widens_indentation() {
    let name = padded_name(b"Flight", 32);
    let message = b"a\nb\nc".to_vec();
    let line = format_console_line(&name, &message);
    assert_eq!(line, b"Flight: a\n        b\n        c".to_vec());
}

#[test]
fn unpadded_name_is_kept_whole() {
    let name = b"P1".to_vec();
    let message = b"x".to_vec();
    let line = format_console_line(&name, &message);
    assert_eq!(line, b"P1: x".to_vec());
}

#[test]
fn fully_padded_name_gives_bare_separator() {
    let name = padded_name(b"", 32);
    let message = b"orphan".to_vec();
    let line = format_console_line(&name, &message);
    assert_eq!(line, b": orphan".to_vec());
}

#[test]
fn trim_name_removes_only_trailing_padding() {
    let mut field = b"A".to_vec();
    field.push(0);
    field.push(0);
    assert_eq!(trim_name(&field), b"A".to_vec());

    let mut inner = b"A".to_vec();
    inner.push(0);
    inner.push(b'B');
    inner.push(0);
    assert_eq!(trim_name(&inner), {
        let mut expected = b"A".to_vec();
        expected.push(0);
        expected.push(b'B');
        expected
    });

    let empty: Vec<u8> = Vec::new();
    assert_eq!(trim_name(&empty), Vec::<u8>::new());
}
