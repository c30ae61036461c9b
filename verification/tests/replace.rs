use lib::editor::buffer::EditorState;
use lib::editor::search::{execute_search, SearchMessage, SearchMode, SearchState};
use lib::formats::traits::{FileSection, RiskLevel};
use lib::ui::search_dialog::{next_unprotected_match, replace_all, replace_current, ReplaceOutcome};

struct Setup {
    editor: EditorState,
    search: SearchState,
    sections: Vec<FileSection>,
}

fn setup(data: &[u8], sections: Vec<FileSection>, query: &str, replace: &str) -> Setup {
    let editor = EditorState::new(data.to_vec());
    let mut search = SearchState::default();
    search.mode = SearchMode::Hex;
    search.query = query.to_string();
    search.replace_with = replace.to_string();
    execute_search(&mut search, editor.working());
    Setup { editor, search, sections }
}

fn header_and_data() -> Vec<FileSection> {
    vec![
        FileSection::new("Header", 0, 10, RiskLevel::High),
        FileSection::new("Data", 10, 20, RiskLevel::Safe),
    ]
}

#[test]
fn test_replace_current_errors_when_only_match_is_protected() {
    let mut data = vec![0u8; 20];
    data[5] = 0xFF;
    let mut s = setup(&data, header_and_data(), "FF", "00");
    s.search.current_match = Some(0);

    let result = replace_current(&mut s.search, &mut s.editor, &s.sections, true);
    assert!(result.is_err());
    assert!(result.unwrap_err().contains("protected header region"));
    assert_eq!(s.editor.working()[5], 0xFF);
}

#[test]
fn test_replace_current_allowed_in_safe_region() {
    let mut data = vec![0u8; 20];
    data[15] = 0xFF;
    let mut s = setup(&data, header_and_data(), "FF", "00");
    s.search.current_match = Some(0);

    let result = replace_current(&mut s.search, &mut s.editor, &s.sections, true);
    assert!(matches!(result, Ok(ReplaceOutcome::Replaced { offset: 15 })));
    assert_eq!(s.editor.working()[15], 0x00);
}

#[test]
fn test_replace_current_errors_when_single_match_spans_boundary() {
    let mut data = vec![0u8; 20];
    data[9] = 0xAA;
    data[10] = 0xBB;
    let sections = vec![
        FileSection::new("Safe", 0, 10, RiskLevel::Safe),
        FileSection::new("High", 10, 20, RiskLevel::High),
    ];
    let mut s = setup(&data, sections, "AA BB", "00 00");
    s.search.current_match = Some(0);

    let result = replace_current(&mut s.search, &mut s.editor, &s.sections, true);
    assert!(result.is_err());
    assert!(result.unwrap_err().contains("protected header region"));
    assert_eq!(s.editor.working()[9], 0xAA);
    assert_eq!(s.editor.working()[10], 0xBB);
}

#[test]
fn test_replace_current_skips_to_next_unprotected_match() {
    let mut data = vec![0u8; 20];
    data[5] = 0xFF;
    data[15] = 0xFF;
    let mut s = setup(&data, header_and_data(), "FF", "00");
    s.search.current_match = Some(0);

    let result = replace_current(&mut s.search, &mut s.editor, &s.sections, true);
    match result {
        Ok(ReplaceOutcome::SkippedToUnprotected { skipped_offset }) => {
            assert_eq!(skipped_offset, 5);
        }
        other => panic!("Expected SkippedToUnprotected, got {:?}", other),
    }
    assert_eq!(s.search.current_match, Some(1));
    assert_eq!(s.editor.cursor(), 15);
    assert_eq!(s.editor.working()[5], 0xFF);
    assert_eq!(s.editor.working()[15], 0xFF);
}

#[test]
fn test_replace_all_skips_protected_replaces_safe() {
    let mut data = vec![0u8; 20];
    data[5] = 0xFF;
    data[15] = 0xFF;
    let mut s = setup(&data, header_and_data(), "FF", "00");

    let result = replace_all(&mut s.search, &mut s.editor, &s.sections, true);
    assert!(result.is_ok());
    assert_eq!(result.unwrap(), 1);
    assert_eq!(s.editor.working()[5], 0xFF);
    assert_eq!(s.editor.working()[15], 0x00);
    match s.search.message.as_ref().unwrap() {
        SearchMessage::Info(msg) => {
            assert!(msg.contains("1 skipped"));
            assert!(msg.contains("Replaced 1 of 2"));
        }
        SearchMessage::Error(_) => panic!("Expected Info, got Error"),
    }
}

#[test]
fn test_replace_all_errors_when_all_protected() {
    let mut data = vec![0u8; 20];
    data[5] = 0xFF;
    let mut s = setup(&data, header_and_data(), "FF", "00");

    let result = replace_all(&mut s.search, &mut s.editor, &s.sections, true);
    assert!(result.is_err());
    assert!(result.unwrap_err().contains("All 1 matches are in protected"));
    assert_eq!(s.editor.working()[5], 0xFF);
}

#[test]
fn test_replace_all_replaces_everything_when_protection_disabled() {
    let mut data = vec![0u8; 20];
    data[5] = 0xFF;
    data[15] = 0xFF;
    let mut s = setup(&data, header_and_data(), "FF", "00");

    let result = replace_all(&mut s.search, &mut s.editor, &s.sections, false);
    assert!(result.is_ok());
    assert_eq!(result.unwrap(), 2);
    assert_eq!(s.editor.working()[5], 0x00);
    assert_eq!(s.editor.working()[15], 0x00);
    assert!(s.search.message.is_none());
}

#[test]
fn test_replace_current_validates_replacement_before_protected_skip() {
    let mut data = vec![0u8; 20];
    data[5] = 0xFF;
    data[15] = 0xFF;
    let mut s = setup(&data, header_and_data(), "FF", "00 00");
    s.search.current_match = Some(0);

    let result = replace_current(&mut s.search, &mut s.editor, &s.sections, true);
    let err = result.unwrap_err();
    assert!(err.contains("must match search pattern length"), "expected length error, got: {err}");
    assert_eq!(s.search.current_match, Some(0));
    assert_eq!(s.editor.working()[5], 0xFF);
    assert_eq!(s.editor.working()[15], 0xFF);
}

#[test]
fn test_replace_all_atomic_undo() {
    let mut data = vec![0u8; 20];
    data[5] = 0xFF;
    data[15] = 0xFF;
    let mut s = setup(&data, vec![], "FF", "00");

    let result = replace_all(&mut s.search, &mut s.editor, &s.sections, false);
    assert!(result.is_ok());
    assert_eq!(result.unwrap(), 2);
    assert_eq!(s.editor.working()[5], 0x00);
    assert_eq!(s.editor.working()[15], 0x00);

    assert!(s.editor.undo());
    assert_eq!(s.editor.working()[5], 0xFF);
    assert_eq!(s.editor.working()[15], 0xFF);
    assert!(!s.editor.can_undo());
}

#[test]
fn replace_errors_name_their_numbers() {
    let mut data = vec![0u8; 20];
    data[15] = 0xFF;
    let mut s = setup(&data, header_and_data(), "FF", "00 00");
    s.search.current_match = Some(0);
    let err = replace_current(&mut s.search, &mut s.editor, &s.sections, false).unwrap_err();
    assert_eq!(err, "Replace pattern length (2) must match search pattern length (1)");

    s.search.current_match = None;
    let err = replace_current(&mut s.search, &mut s.editor, &s.sections, false).unwrap_err();
    assert_eq!(err, "No current match");

    // A match list that no longer fits the buffer.
    let mut s = setup(&data, vec![], "FF", "00");
    s.search.current_match = Some(0);
    let _ = s.editor.delete_byte(0);
    let _ = s.editor.delete_byte(0);
    let _ = s.editor.delete_byte(0);
    let _ = s.editor.delete_byte(0);
    let _ = s.editor.delete_byte(0);
    let _ = s.editor.delete_byte(0);
    let err = replace_current(&mut s.search, &mut s.editor, &s.sections, false).unwrap_err();
    assert_eq!(err, "Match at 0x0000000F is out of range \u{2014} the buffer changed; search again");
}

#[test]
fn replace_in_ascii_mode_writes_the_text_bytes() {
    let mut s = setup(b"say hi, hi!", vec![], "", "yo");
    s.search.mode = SearchMode::Ascii;
    s.search.query = "hi".to_string();
    execute_search(&mut s.search, s.editor.working());
    assert_eq!(replace_all(&mut s.search, &mut s.editor, &s.sections, false), Ok(2));
    assert_eq!(s.editor.working(), b"say yo, yo!");
}

#[test]
fn next_unprotected_match_wraps_round() {
    let sections = header_and_data();
    // Matches at 12 (safe), 3 and 5 (protected); from index 1 the next safe
    // one is index 0, after wrapping.
    let matches = [12usize, 3, 5];
    assert_eq!(next_unprotected_match(&matches, 1, &sections, true, 1), Some(0));
    assert_eq!(next_unprotected_match(&matches, 0, &sections, true, 1), Some(0));
    assert_eq!(next_unprotected_match(&[3usize, 5], 0, &sections, true, 1), None);
    assert_eq!(next_unprotected_match(&[3usize, 5], 0, &sections, false, 1), Some(1));
}
