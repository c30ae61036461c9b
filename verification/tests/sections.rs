use lib::dialogs::DialogState;
use lib::formats::traits::{FileSection, RiskLevel};
use lib::sections::{
    get_high_risk_level, is_offset_protected, is_range_protected, section_at_offset,
    should_warn_for_edit,
};

#[test]
fn app_test_section_at_offset_simple() {
    let sections = vec![
        FileSection::new("Header", 0, 14, RiskLevel::Critical),
        FileSection::new("Data", 14, 100, RiskLevel::Safe),
    ];

    let section = section_at_offset(&sections, 5);
    assert!(section.is_some());
    assert_eq!(section.unwrap().name, "Header");

    let section = section_at_offset(&sections, 50);
    assert!(section.is_some());
    assert_eq!(section.unwrap().name, "Data");

    let section = section_at_offset(&sections, 200);
    assert!(section.is_none());
}

#[test]
fn app_test_section_at_offset_nested() {
    let parent = FileSection::new("Header", 0, 54, RiskLevel::Caution)
        .with_child(FileSection::new("Magic", 0, 2, RiskLevel::Critical))
        .with_child(FileSection::new("Size", 2, 6, RiskLevel::High));

    let sections = vec![parent, FileSection::new("Data", 54, 100, RiskLevel::Safe)];

    let section = section_at_offset(&sections, 0);
    assert_eq!(section.unwrap().name, "Magic");

    let section = section_at_offset(&sections, 4);
    assert_eq!(section.unwrap().name, "Size");

    let section = section_at_offset(&sections, 10);
    assert_eq!(section.unwrap().name, "Header");
}

#[test]
fn app_test_section_at_offset_boundary() {
    let sections = vec![
        FileSection::new("First", 0, 10, RiskLevel::Safe),
        FileSection::new("Second", 10, 20, RiskLevel::Caution),
    ];

    let section = section_at_offset(&sections, 9);
    assert_eq!(section.unwrap().name, "First");

    let section = section_at_offset(&sections, 10);
    assert_eq!(section.unwrap().name, "Second");
}

#[test]
fn app_test_section_at_offset_no_sections() {
    let sections: Vec<FileSection> = Vec::new();

    assert!(section_at_offset(&sections, 0).is_none());
}

#[test]
fn app_test_header_protection() {
    let sections = vec![
        FileSection::new("Safe", 0, 10, RiskLevel::Safe),
        FileSection::new("Caution", 10, 20, RiskLevel::Caution),
        FileSection::new("High", 20, 30, RiskLevel::High),
        FileSection::new("Critical", 30, 40, RiskLevel::Critical),
    ];
    let mut header_protection = false;

    // Header protection disabled - nothing protected
    assert!(!is_offset_protected(&sections, header_protection, 5));
    assert!(!is_offset_protected(&sections, header_protection, 15));
    assert!(!is_offset_protected(&sections, header_protection, 25));
    assert!(!is_offset_protected(&sections, header_protection, 35));

    // Enable header protection
    header_protection = true;

    // Safe and Caution still not protected
    assert!(!is_offset_protected(&sections, header_protection, 5));
    assert!(!is_offset_protected(&sections, header_protection, 15));

    // High and Critical are now protected
    assert!(is_offset_protected(&sections, header_protection, 25));
    assert!(is_offset_protected(&sections, header_protection, 35));

    // Offset outside any section is not protected
    assert!(!is_offset_protected(&sections, header_protection, 100));
}

#[test]
fn app_test_high_risk_warnings() {
    let sections = vec![
        FileSection::new("Safe", 0, 10, RiskLevel::Safe),
        FileSection::new("Caution", 10, 20, RiskLevel::Caution),
        FileSection::new("High", 20, 30, RiskLevel::High),
        FileSection::new("Critical", 30, 40, RiskLevel::Critical),
    ];
    let mut dialogs = DialogState::default();

    // Warnings not suppressed by default
    assert!(!dialogs.suppress_high_risk_warnings);

    // Safe and Caution should not trigger warnings
    assert!(!should_warn_for_edit(&sections, dialogs.suppress_high_risk_warnings, 5));
    assert!(!should_warn_for_edit(&sections, dialogs.suppress_high_risk_warnings, 15));

    // High and Critical should trigger warnings
    assert!(should_warn_for_edit(&sections, dialogs.suppress_high_risk_warnings, 25));
    assert!(should_warn_for_edit(&sections, dialogs.suppress_high_risk_warnings, 35));

    // get_high_risk_level returns correct levels
    assert!(get_high_risk_level(&sections, 5).is_none());
    assert!(get_high_risk_level(&sections, 15).is_none());
    assert_eq!(get_high_risk_level(&sections, 25), Some(RiskLevel::High));
    assert_eq!(get_high_risk_level(&sections, 35), Some(RiskLevel::Critical));

    // Suppress warnings
    dialogs.suppress_high_risk_warnings = true;

    // No warnings when suppressed
    assert!(!should_warn_for_edit(&sections, dialogs.suppress_high_risk_warnings, 25));
    assert!(!should_warn_for_edit(&sections, dialogs.suppress_high_risk_warnings, 35));
}

#[test]
fn app_test_is_range_protected() {
    let sections = vec![
        FileSection::new("Safe", 0, 10, RiskLevel::Safe),
        FileSection::new("High", 10, 20, RiskLevel::High),
        FileSection::new("Critical", 20, 30, RiskLevel::Critical),
    ];
    let mut header_protection = true;

    // Entirely in safe region — not protected
    assert!(!is_range_protected(&sections, header_protection, 0, 10));

    // Entirely in protected region
    assert!(is_range_protected(&sections, header_protection, 10, 5));
    assert!(is_range_protected(&sections, header_protection, 20, 5));

    // Spanning safe-to-protected boundary
    assert!(is_range_protected(&sections, header_protection, 8, 4)); // bytes 8..12, crosses into High at 10

    // Zero length — never protected
    assert!(!is_range_protected(&sections, header_protection, 15, 0));

    // Protection disabled — nothing protected
    header_protection = false;
    assert!(!is_range_protected(&sections, header_protection, 10, 5));
    assert!(!is_range_protected(&sections, header_protection, 20, 5));
}

#[test]
fn sections_test_section_at_offset_simple() {
    let sections = vec![
        FileSection::new("Header", 0, 14, RiskLevel::Critical),
        FileSection::new("Data", 14, 100, RiskLevel::Safe),
    ];

    let section = section_at_offset(&sections, 5);
    assert!(section.is_some());
    assert_eq!(section.unwrap().name, "Header");

    let section = section_at_offset(&sections, 50);
    assert!(section.is_some());
    assert_eq!(section.unwrap().name, "Data");

    let section = section_at_offset(&sections, 200);
    assert!(section.is_none());
}

#[test]
fn sections_test_section_at_offset_nested() {
    let parent = FileSection::new("Header", 0, 54, RiskLevel::Caution)
        .with_child(FileSection::new("Magic", 0, 2, RiskLevel::Critical))
        .with_child(FileSection::new("Size", 2, 6, RiskLevel::High));

    let sections = vec![parent, FileSection::new("Data", 54, 100, RiskLevel::Safe)];

    let section = section_at_offset(&sections, 0);
    assert_eq!(section.unwrap().name, "Magic");

    let section = section_at_offset(&sections, 4);
    assert_eq!(section.unwrap().name, "Size");

    let section = section_at_offset(&sections, 10);
    assert_eq!(section.unwrap().name, "Header");
}

#[test]
fn sections_test_section_at_offset_boundary() {
    let sections = vec![
        FileSection::new("First", 0, 10, RiskLevel::Safe),
        FileSection::new("Second", 10, 20, RiskLevel::Caution),
    ];

    let section = section_at_offset(&sections, 9);
    assert_eq!(section.unwrap().name, "First");

    let section = section_at_offset(&sections, 10);
    assert_eq!(section.unwrap().name, "Second");
}

#[test]
fn sections_test_section_at_offset_no_sections() {
    let sections: Vec<FileSection> = Vec::new();

    assert!(section_at_offset(&sections, 0).is_none());
}

#[test]
fn sections_test_header_protection() {
    let sections = vec![
        FileSection::new("Safe", 0, 10, RiskLevel::Safe),
        FileSection::new("Caution", 10, 20, RiskLevel::Caution),
        FileSection::new("High", 20, 30, RiskLevel::High),
        FileSection::new("Critical", 30, 40, RiskLevel::Critical),
    ];
    let mut header_protection = false;

    // Header protection disabled - nothing protected
    assert!(!is_offset_protected(&sections, header_protection, 5));
    assert!(!is_offset_protected(&sections, header_protection, 15));
    assert!(!is_offset_protected(&sections, header_protection, 25));
    assert!(!is_offset_protected(&sections, header_protection, 35));

    // Enable header protection
    header_protection = true;

    // Safe and Caution still not protected
    assert!(!is_offset_protected(&sections, header_protection, 5));
    assert!(!is_offset_protected(&sections, header_protection, 15));

    // High and Critical are now protected
    assert!(is_offset_protected(&sections, header_protection, 25));
    assert!(is_offset_protected(&sections, header_protection, 35));

    // Offset outside any section is not protected
    assert!(!is_offset_protected(&sections, header_protection, 100));
}

#[test]
fn sections_test_high_risk_warnings() {
    let sections = vec![
        FileSection::new("Safe", 0, 10, RiskLevel::Safe),
        FileSection::new("Caution", 10, 20, RiskLevel::Caution),
        FileSection::new("High", 20, 30, RiskLevel::High),
        FileSection::new("Critical", 30, 40, RiskLevel::Critical),
    ];
    let mut dialogs = DialogState::default();

    // Warnings not suppressed by default
    assert!(!dialogs.suppress_high_risk_warnings);

    // Safe and Caution should not trigger warnings
    assert!(!should_warn_for_edit(&sections, dialogs.suppress_high_risk_warnings, 5));
    assert!(!should_warn_for_edit(&sections, dialogs.suppress_high_risk_warnings, 15));

    // High and Critical should trigger warnings
    assert!(should_warn_for_edit(&sections, dialogs.suppress_high_risk_warnings, 25));
    assert!(should_warn_for_edit(&sections, dialogs.suppress_high_risk_warnings, 35));

    // get_high_risk_level returns correct levels
    assert!(get_high_risk_level(&sections, 5).is_none());
    assert!(get_high_risk_level(&sections, 15).is_none());
    assert_eq!(get_high_risk_level(&sections, 25), Some(RiskLevel::High));
    assert_eq!(get_high_risk_level(&sections, 35), Some(RiskLevel::Critical));

    // Suppress warnings
    dialogs.suppress_high_risk_warnings = true;

    // No warnings when suppressed
    assert!(!should_warn_for_edit(&sections, dialogs.suppress_high_risk_warnings, 25));
    assert!(!should_warn_for_edit(&sections, dialogs.suppress_high_risk_warnings, 35));
}

#[test]
fn sections_test_is_range_protected() {
    let sections = vec![
        FileSection::new("Safe", 0, 10, RiskLevel::Safe),
        FileSection::new("High", 10, 20, RiskLevel::High),
        FileSection::new("Critical", 20, 30, RiskLevel::Critical),
    ];
    let mut header_protection = true;

    // Entirely in safe region — not protected
    assert!(!is_range_protected(&sections, header_protection, 0, 10));

    // Entirely in protected region
    assert!(is_range_protected(&sections, header_protection, 10, 5));
    assert!(is_range_protected(&sections, header_protection, 20, 5));

    // Spanning safe-to-protected boundary
    assert!(is_range_protected(&sections, header_protection, 8, 4)); // bytes 8..12, crosses into High at 10

    // Zero length — never protected
    assert!(!is_range_protected(&sections, header_protection, 15, 0));

    // Protection disabled — nothing protected
    header_protection = false;
    assert!(!is_range_protected(&sections, header_protection, 10, 5));
    assert!(!is_range_protected(&sections, header_protection, 20, 5));
}

#[test]
fn test_unknown_risk_not_protected() {
    let sections = vec![
        FileSection::new("Unknown", 0, 50, RiskLevel::Unknown),
        FileSection::new("Header", 50, 60, RiskLevel::Critical),
    ];
    let header_protection = true;

    assert!(!is_offset_protected(&sections, header_protection, 10));
    assert!(!is_offset_protected(&sections, header_protection, 40));
    assert!(is_offset_protected(&sections, header_protection, 55));
}

#[test]
fn test_unknown_risk_no_warnings() {
    let sections = vec![
        FileSection::new("Unknown", 0, 50, RiskLevel::Unknown),
        FileSection::new("High", 50, 60, RiskLevel::High),
    ];
    let dialogs = DialogState::default();

    assert!(!should_warn_for_edit(&sections, dialogs.suppress_high_risk_warnings, 10));
    assert!(get_high_risk_level(&sections, 10).is_none());

    assert!(should_warn_for_edit(&sections, dialogs.suppress_high_risk_warnings, 55));
}

#[test]
fn range_protection_follows_nested_children() {
    // The innermost section decides: a Safe child inside a Critical parent
    // is not protected, the parent's other bytes are.
    let parent = FileSection::new("Header", 0, 20, RiskLevel::Critical)
        .with_child(FileSection::new("Reserved", 4, 8, RiskLevel::Safe));
    let sections = vec![parent];
    assert!(!is_range_protected(&sections, true, 4, 4));
    assert!(is_range_protected(&sections, true, 4, 5));
    assert!(is_offset_protected(&sections, true, 3));
}
