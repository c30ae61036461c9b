use lib::editor::bookmarks::BookmarkManager;
use lib::editor::history::{EditOperation, History};
use lib::editor::search::{execute_search, SearchMode, SearchState};
use lib::editor::buffer::EditorState;
use lib::formats::png::PngParser;
use lib::formats::traits::{FileSection, ImageFormat, RiskLevel};
use lib::formats::{detect_format, fill_gaps, parse_file};
use lib::settings::RecentFiles;

fn covered(sections: &[FileSection], offset: usize) -> bool {
    sections.iter().any(|s| s.start <= offset && offset < s.end)
}

#[test]
fn fill_gaps_covers_every_byte_and_sorts() {
    // Unsorted, overlapping, with gaps at the start, middle and end.
    let mut sections = vec![
        FileSection::new("C", 30, 40, RiskLevel::Safe),
        FileSection::new("A", 5, 12, RiskLevel::High),
        FileSection::new("B", 8, 20, RiskLevel::Caution),
    ];
    fill_gaps(&mut sections, 50);
    for offset in 0..50 {
        assert!(covered(&sections, offset), "offset {} not covered", offset);
    }
    for pair in sections.windows(2) {
        assert!(pair[0].start <= pair[1].start);
    }
    let names: Vec<&str> = sections.iter().map(|s| s.name.as_str()).collect();
    assert_eq!(names, vec!["Unknown", "A", "B", "Unknown", "C", "Unknown"]);
    assert_eq!((sections[3].start, sections[3].end), (20, 30));
    assert_eq!((sections[5].start, sections[5].end), (40, 50));
}

#[test]
fn fill_gaps_sort_is_stable() {
    let mut sections = vec![
        FileSection::new("first", 0, 4, RiskLevel::Safe),
        FileSection::new("second", 0, 2, RiskLevel::High),
    ];
    fill_gaps(&mut sections, 4);
    assert_eq!(sections.len(), 2);
    assert_eq!(sections[0].name, "first");
    assert_eq!(sections[1].name, "second");
}

#[test]
fn png_is_not_detected_and_its_parse_fills_to_a_cover() {
    let mut png = vec![0x89, 0x50, 0x4E, 0x47, 0x0D, 0x0A, 0x1A, 0x0A];
    png.extend_from_slice(&[0, 0, 0, 2]);
    png.extend_from_slice(b"tEXt");
    png.extend_from_slice(&[b'h', b'i']);
    png.extend_from_slice(&[0; 4]);
    png.extend_from_slice(&[0, 0, 0, 0]);
    png.extend_from_slice(b"IEND");
    png.extend_from_slice(&[0; 4]);
    png.extend_from_slice(b"junk");
    assert!(detect_format(&png).is_none());
    assert!(parse_file(&png).is_none());
    let mut sections = PngParser.parse(&png).unwrap();
    fill_gaps(&mut sections, png.len());
    for offset in 0..png.len() {
        assert!(covered(&sections, offset));
    }
    assert_eq!(sections.last().unwrap().name, "Unknown");
}

#[test]
fn undo_then_redo_restores_each_state() {
    let mut editor = EditorState::new(vec![1, 2, 3, 4]);
    editor.insert_bytes(2, &[9, 9]);
    editor.delete_byte(0);
    let after = editor.working().to_vec();
    assert!(editor.undo());
    assert_eq!(editor.working(), &[1, 2, 9, 9, 3, 4]);
    assert!(editor.undo());
    assert_eq!(editor.working(), &[1, 2, 3, 4]);
    assert!(!editor.undo());
    assert!(editor.redo());
    assert!(editor.redo());
    assert_eq!(editor.working(), after.as_slice());
    assert!(!editor.redo());
}

#[test]
fn bookmarks_insert_then_delete_restores_offsets() {
    let mut manager = BookmarkManager::new();
    manager.add(3, "a".to_string());
    manager.add(10, "b".to_string());
    manager.add(20, "c".to_string());
    manager.adjust_offsets_after_insert(10, 5);
    manager.adjust_offsets_after_delete(10, 5);
    let offsets: Vec<usize> = manager.all().iter().map(|b| b.offset).collect();
    assert_eq!(offsets, vec![3, 10, 20]);
}

#[test]
fn recent_files_list_each_path_once() {
    let mut recent = RecentFiles::new();
    for name in ["a", "b", "a", "c", "b", "a"] {
        recent.add_recent_file(name.to_string());
    }
    assert_eq!(recent.recent_files(), &["a".to_string(), "b".to_string(), "c".to_string()]);
}

#[test]
fn next_then_prev_returns_to_the_match() {
    let mut state = SearchState::default();
    state.mode = SearchMode::Hex;
    state.query = "AB".to_string();
    execute_search(&mut state, &[0xAB, 0x00, 0xAB, 0xAB]);
    assert_eq!(state.matches, vec![0, 2, 3]);
    assert_eq!(state.pattern_length(), 1);
    assert!(state.is_within_match(2));
    assert!(!state.is_within_match(1));
    for start in 0..3 {
        state.current_match = Some(start);
        state.next_match();
        state.prev_match();
        assert_eq!(state.current_match, Some(start));
        state.prev_match();
        state.next_match();
        assert_eq!(state.current_match, Some(start));
    }
    state.set_searched_generation(4);
    assert!(!state.matches_may_be_stale(4));
    assert!(state.matches_may_be_stale(5));
}

#[test]
fn restore_is_undone_in_one_step() {
    let mut editor = EditorState::new(vec![0, 0, 0]);
    let id = editor.create_save_point("zero".to_string());
    editor.edit_byte(0, 1);
    editor.edit_byte(1, 2);
    assert!(editor.restore_save_point(id));
    assert_eq!(editor.working(), &[0, 0, 0]);
    assert!(editor.undo());
    assert_eq!(editor.working(), &[1, 2, 0]);
    assert!(editor.can_redo());
}

#[test]
fn history_counts_follow_undo_and_redo() {
    let mut history = History::new();
    history.push(EditOperation::InsertBytes { offset: 0, values: vec![1] });
    history.push(EditOperation::DeleteBytes { offset: 0, values: vec![1] });
    assert_eq!((history.undo_count(), history.redo_count()), (2, 0));
    history.undo();
    assert_eq!((history.undo_count(), history.redo_count()), (1, 1));
    history.redo();
    assert_eq!((history.undo_count(), history.redo_count()), (2, 0));
    history.clear();
    assert_eq!((history.undo_count(), history.redo_count()), (0, 0));
}

#[test]
fn editor_reports_bookmarked_offsets() {
    let mut editor = EditorState::new(vec![0; 8]);
    editor.add_bookmark(5, "five".to_string());
    assert!(editor.has_bookmark_at(5));
    assert!(!editor.has_bookmark_at(4));
}
