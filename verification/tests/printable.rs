use lib::editor::{is_printable_ascii, is_printable_ascii_char};

#[test]
fn test_is_printable_ascii() {
    assert!(is_printable_ascii(b' ')); // 0x20 lower bound
    assert!(is_printable_ascii(b'~')); // 0x7E upper bound
    assert!(is_printable_ascii(b'A'));
    assert!(!is_printable_ascii(0x19)); // below range
    assert!(!is_printable_ascii(0x7F)); // DEL
    assert!(!is_printable_ascii(0x00)); // NUL
}

#[test]
fn test_is_printable_ascii_char() {
    assert!(is_printable_ascii_char(' '));
    assert!(is_printable_ascii_char('~'));
    assert!(is_printable_ascii_char('A'));
    assert!(!is_printable_ascii_char('\t'));
    assert!(!is_printable_ascii_char('\n'));
    assert!(!is_printable_ascii_char('\x7F'));
}
