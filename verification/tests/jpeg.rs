use lib::formats::jpeg::JpegParser;
use lib::formats::traits::ImageFormat;

#[test]
fn test_can_parse_jpeg() {
    let parser = JpegParser;

    // Valid JPEG signature
    assert!(parser.can_parse(&[0xFF, 0xD8, 0xFF, 0xE0]));

    // Invalid signatures
    assert!(!parser.can_parse(&[]));
    assert!(!parser.can_parse(&[0xFF]));
    assert!(!parser.can_parse(&[0xFF, 0xD8]));
    assert!(!parser.can_parse(b"BMP"));
}

#[test]
fn test_parse_minimal_jpeg() {
    let parser = JpegParser;

    // Minimal JPEG: SOI + APP0 + EOI
    let jpeg = vec![
        0xFF, 0xD8,             // SOI
        0xFF, 0xE0, 0x00, 0x10, // APP0 marker with length 16
        0x4A, 0x46, 0x49, 0x46, 0x00, // "JFIF\0"
        0x01, 0x01, 0x00, 0x00, 0x01, 0x00, 0x01, 0x00, 0x00, // JFIF data
        0xFF, 0xD9,             // EOI
    ];

    let sections = parser.parse(&jpeg).unwrap();

    assert!(sections.len() >= 2); // At least SOI and APP0
    assert_eq!(sections[0].name, "SOI (Start of Image)");
    assert!(sections[1].name.contains("APP0"));
}
