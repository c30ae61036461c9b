use lib::editor::go_to_offset::{parse_offset, GoToOffsetState};

#[test]
fn test_parse_decimal() {
    assert_eq!(parse_offset("0"), Ok(0));
    assert_eq!(parse_offset("1024"), Ok(1024));
    assert_eq!(parse_offset("  1024  "), Ok(1024)); // with whitespace
}

#[test]
fn test_parse_hex() {
    assert_eq!(parse_offset("0x0"), Ok(0));
    assert_eq!(parse_offset("0x400"), Ok(1024));
    assert_eq!(parse_offset("0X400"), Ok(1024)); // uppercase X
    assert_eq!(parse_offset("0xFF"), Ok(255));
    assert_eq!(parse_offset("0xff"), Ok(255)); // lowercase
    assert_eq!(parse_offset("0xABCD"), Ok(0xABCD));
    assert_eq!(parse_offset("  0x400  "), Ok(1024)); // with whitespace
}

#[test]
fn test_parse_invalid() {
    assert!(parse_offset("").is_err());
    assert!(parse_offset("   ").is_err());
    assert!(parse_offset("abc").is_err());
    assert!(parse_offset("0x").is_err());
    assert!(parse_offset("0xGGG").is_err());
    assert!(parse_offset("-1").is_err());
}

#[test]
fn test_dialog_state() {
    let mut state = GoToOffsetState::default();

    // Initially closed
    assert!(!state.dialog_open);
    assert!(state.input_text.is_empty());
    assert!(state.error.is_none());

    // Open dialog
    state.input_text = "old value".to_string();
    state.error = Some("old error".to_string());
    state.open_dialog();

    assert!(state.dialog_open);
    assert!(state.input_text.is_empty()); // cleared
    assert!(state.error.is_none()); // cleared

    // Close dialog
    state.close_dialog();
    assert!(!state.dialog_open);
}
