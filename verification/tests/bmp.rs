use lib::formats::bmp::BmpParser;
use lib::formats::traits::{ImageFormat, RiskLevel};

#[test]
fn test_can_parse_bmp() {
    let parser = BmpParser;

    // Valid BMP signature
    assert!(parser.can_parse(b"BM\x00\x00\x00\x00"));

    // Invalid signatures
    assert!(!parser.can_parse(b""));
    assert!(!parser.can_parse(b"B"));
    assert!(!parser.can_parse(b"PNG"));
}

#[test]
fn test_parse_minimal_bmp() {
    let parser = BmpParser;

    // Minimal BMP header (14 bytes file header + 40 bytes DIB header)
    let mut bmp = vec![0u8; 54 + 4]; // Header + 1 pixel

    // File header
    bmp[0] = b'B';
    bmp[1] = b'M';
    // File size
    bmp[2] = 58;
    bmp[3] = 0;
    bmp[4] = 0;
    bmp[5] = 0;
    // Pixel data offset
    bmp[10] = 54;
    bmp[11] = 0;
    bmp[12] = 0;
    bmp[13] = 0;

    // DIB header
    bmp[14] = 40;
    bmp[15] = 0;
    bmp[16] = 0;
    bmp[17] = 0; // Header size

    let sections = parser.parse(&bmp).unwrap();

    assert_eq!(sections.len(), 3); // File header, DIB header, pixel data
    assert_eq!(sections[0].name, "File Header");
    assert!(sections[1].name.contains("BITMAPINFOHEADER"));
    assert_eq!(sections[2].name, "Pixel Data");
}
