use lib::formats::{detect_format, fill_gaps, parse_file, Format};
use lib::formats::traits::{FileSection, RiskLevel};

#[test]
fn test_fill_gaps_no_gaps() {
    let mut sections = vec![
        FileSection::new("A", 0, 10, RiskLevel::Safe),
        FileSection::new("B", 10, 20, RiskLevel::Safe),
    ];
    fill_gaps(&mut sections, 20);
    assert_eq!(sections.len(), 2);
}

#[test]
fn test_fill_gaps_leading_gap() {
    let mut sections = vec![FileSection::new("A", 5, 10, RiskLevel::Safe)];
    fill_gaps(&mut sections, 10);
    assert_eq!(sections.len(), 2);
    assert_eq!(sections[0].name, "Unknown");
    assert_eq!(sections[0].start, 0);
    assert_eq!(sections[0].end, 5);
    assert_eq!(sections[0].risk, RiskLevel::Unknown);
}

#[test]
fn test_fill_gaps_trailing_gap() {
    let mut sections = vec![FileSection::new("A", 0, 10, RiskLevel::Safe)];
    fill_gaps(&mut sections, 20);
    assert_eq!(sections.len(), 2);
    assert_eq!(sections[1].name, "Unknown");
    assert_eq!(sections[1].start, 10);
    assert_eq!(sections[1].end, 20);
}

#[test]
fn test_fill_gaps_middle_gap() {
    let mut sections = vec![
        FileSection::new("A", 0, 5, RiskLevel::Safe),
        FileSection::new("B", 15, 20, RiskLevel::Safe),
    ];
    fill_gaps(&mut sections, 20);
    assert_eq!(sections.len(), 3);
    assert_eq!(sections[1].name, "Unknown");
    assert_eq!(sections[1].start, 5);
    assert_eq!(sections[1].end, 15);
}

#[test]
fn test_fill_gaps_empty_sections() {
    let mut sections = Vec::new();
    fill_gaps(&mut sections, 100);
    assert_eq!(sections.len(), 1);
    assert_eq!(sections[0].name, "Unknown");
    assert_eq!(sections[0].start, 0);
    assert_eq!(sections[0].end, 100);
}

#[test]
fn test_fill_gaps_multiple_gaps() {
    let mut sections = vec![
        FileSection::new("A", 5, 10, RiskLevel::Safe),
        FileSection::new("B", 20, 30, RiskLevel::Safe),
    ];
    fill_gaps(&mut sections, 40);
    // Should have: Unknown(0-5), A(5-10), Unknown(10-20), B(20-30), Unknown(30-40)
    assert_eq!(sections.len(), 5);
    assert_eq!(sections[0].name, "Unknown");
    assert_eq!(sections[2].name, "Unknown");
    assert_eq!(sections[4].name, "Unknown");
}

#[test]
fn test_parse_file_unrecognized_format_returns_none() {
    // Random bytes that don't match BMP or JPEG
    let data = vec![0x00, 0x01, 0x02, 0x03];
    assert!(parse_file(&data).is_none());
}

#[test]
fn test_parse_file_bmp_truncated_returns_partial_with_unknown() {
    // Valid BMP signature but truncated (only 10 bytes — not enough for full header)
    let mut data = vec![0u8; 10];
    data[0] = b'B';
    data[1] = b'M';
    let sections = parse_file(&data);
    assert!(sections.is_some());
    let sections = sections.unwrap();
    // Should have at least an Unknown section covering the file
    assert!(sections.iter().any(|s| s.risk == RiskLevel::Unknown));
}

#[test]
fn test_parse_file_bmp_truncated_dib_returns_partial() {
    // BMP with valid file header but DIB header extends beyond file
    let mut data = vec![0u8; 20];
    data[0] = b'B';
    data[1] = b'M';
    // File size
    data[2] = 20;
    // Pixel data offset = 54
    data[10] = 54;
    // DIB header size = 40 (but file is only 20 bytes, so DIB extends beyond)
    data[14] = 40;

    let sections = parse_file(&data);
    assert!(sections.is_some());
    let sections = sections.unwrap();
    // Should have File Header (0-14) + Unknown (14-20) from fill_gaps
    assert!(sections.iter().any(|s| s.name == "File Header"));
    assert!(sections.iter().any(|s| s.name == "Unknown"));
}

#[test]
fn detect_format_knows_bmp_jpeg_and_gif_only() {
    assert_eq!(detect_format(b"BM\x00\x00"), Some(Format::Bmp));
    assert_eq!(detect_format(&[0xFF, 0xD8, 0xFF, 0xE0]), Some(Format::Jpeg));
    assert_eq!(detect_format(b"GIF89a\x00"), Some(Format::Gif));
    assert_eq!(detect_format(b"GIF87a\x00"), Some(Format::Gif));
    assert_eq!(detect_format(&[0x89, 0x50, 0x4E, 0x47, 0x0D, 0x0A, 0x1A, 0x0A]), None);
    assert_eq!(detect_format(&[0x00, 0x01, 0x02, 0x03]), None);
}
