use lib::formats::png::PngParser;
use lib::formats::traits::{ImageFormat, RiskLevel};
use lib::formats::fill_gaps;

/// PNG signature bytes
const PNG_SIGNATURE: [u8; 8] = [0x89, 0x50, 0x4E, 0x47, 0x0D, 0x0A, 0x1A, 0x0A];

/// Build a minimal PNG with signature + given chunks.
/// Uses zero-filled CRC placeholders (not real checksums). This is acceptable
/// because the parser intentionally skips CRC validation for glitch art use.
fn build_png(chunks: &[(&[u8; 4], &[u8])]) -> Vec<u8> {
    let mut data = PNG_SIGNATURE.to_vec();
    for (chunk_type, chunk_data) in chunks {
        let len = (chunk_data.len() as u32).to_be_bytes();
        data.extend_from_slice(&len);
        data.extend_from_slice(*chunk_type);
        data.extend_from_slice(chunk_data);
        data.extend_from_slice(&[0u8; 4]); // CRC placeholder
    }
    data
}

/// Standard 13-byte IHDR data
fn ihdr_data() -> Vec<u8> {
    let mut d = Vec::new();
    d.extend_from_slice(&100u32.to_be_bytes()); // width
    d.extend_from_slice(&80u32.to_be_bytes()); // height
    d.push(8); // bit depth
    d.push(2); // color type (truecolor)
    d.push(0); // compression
    d.push(0); // filter
    d.push(0); // interlace
    d
}

#[test]
fn test_can_parse_png() {
    let parser = PngParser;

    // Valid PNG signature
    assert!(parser.can_parse(&PNG_SIGNATURE));
    assert!(parser.can_parse(&[0x89, 0x50, 0x4E, 0x47, 0x0D, 0x0A, 0x1A, 0x0A, 0x00]));

    // Invalid signatures
    assert!(!parser.can_parse(&[]));
    assert!(!parser.can_parse(&[0x89, 0x50]));
    assert!(!parser.can_parse(b"BM\x00\x00\x00\x00"));
    assert!(!parser.can_parse(&[0xFF, 0xD8, 0xFF, 0xE0]));
}

#[test]
fn test_parse_minimal_png() {
    let parser = PngParser;
    let ihdr = ihdr_data();
    let png = build_png(&[(b"IHDR", &ihdr), (b"IEND", &[])]);

    let sections = parser.parse(&png).unwrap();

    assert!(sections.len() >= 3); // Signature + IHDR + IEND
    assert_eq!(sections[0].name, "PNG Signature");
    assert_eq!(sections[0].risk, RiskLevel::Critical);
    assert!(sections[1].name.contains("IHDR"));
    assert_eq!(sections[1].risk, RiskLevel::Critical);
    assert!(sections[2].name.contains("IEND"));
    assert_eq!(sections[2].risk, RiskLevel::Critical);
}

#[test]
fn test_ihdr_has_children() {
    let parser = PngParser;
    let ihdr = ihdr_data();
    let png = build_png(&[(b"IHDR", &ihdr), (b"IEND", &[])]);

    let sections = parser.parse(&png).unwrap();
    let ihdr_section = &sections[1];

    // IHDR should have children: Length, Type, Data, CRC
    assert!(ihdr_section.children.len() >= 4);
    assert_eq!(ihdr_section.children[0].name, "Length");
    assert_eq!(ihdr_section.children[1].name, "Type");
    assert_eq!(ihdr_section.children[2].name, "Data");
    assert_eq!(ihdr_section.children[3].name, "CRC");

    // Data child should have IHDR-specific children
    let data_child = &ihdr_section.children[2];
    assert!(data_child.children.len() >= 7);
    let child_names: Vec<&str> = data_child
        .children
        .iter()
        .map(|c| c.name.as_str())
        .collect();
    assert!(child_names.contains(&"Width"));
    assert!(child_names.contains(&"Height"));
    assert!(child_names.contains(&"Bit Depth"));
    assert!(child_names.contains(&"Color Type"));
    assert!(child_names.contains(&"Compression"));
    assert!(child_names.contains(&"Filter Method"));
    assert!(child_names.contains(&"Interlace"));
}

#[test]
fn test_ihdr_child_risk_levels() {
    let parser = PngParser;
    let ihdr = ihdr_data();
    let png = build_png(&[(b"IHDR", &ihdr), (b"IEND", &[])]);

    let sections = parser.parse(&png).unwrap();
    let data_child = &sections[1].children[2]; // IHDR -> Data

    // Width, Height, Bit Depth, Color Type should be Critical
    assert_eq!(data_child.children[0].risk, RiskLevel::Critical); // Width
    assert_eq!(data_child.children[1].risk, RiskLevel::Critical); // Height
    assert_eq!(data_child.children[2].risk, RiskLevel::Critical); // Bit Depth
    assert_eq!(data_child.children[3].risk, RiskLevel::Critical); // Color Type

    // Compression, Filter, Interlace should be High (interesting glitch targets)
    assert_eq!(data_child.children[4].risk, RiskLevel::High); // Compression
    assert_eq!(data_child.children[5].risk, RiskLevel::High); // Filter Method
    assert_eq!(data_child.children[6].risk, RiskLevel::High); // Interlace
}

#[test]
fn test_parse_not_png_returns_error() {
    let parser = PngParser;
    assert!(parser.parse(&[0x00, 0x01, 0x02, 0x03]).is_err());
    assert!(parser.parse(b"BM\x00\x00\x00\x00").is_err());
    assert!(parser.parse(&[0xFF, 0xD8, 0xFF]).is_err());
}

#[test]
fn test_parse_truncated_png() {
    let parser = PngParser;
    // Only the signature, no chunks
    let png = PNG_SIGNATURE.to_vec();
    let sections = parser.parse(&png).unwrap();

    // Should have just the signature section
    assert_eq!(sections.len(), 1);
    assert_eq!(sections[0].name, "PNG Signature");
}

#[test]
fn test_parse_truncated_mid_length() {
    let parser = PngParser;
    // Signature + only 2 bytes of a chunk length field (truncated mid-length)
    let mut png = PNG_SIGNATURE.to_vec();
    png.extend_from_slice(&[0x00, 0x00]);

    let sections = parser.parse(&png).unwrap();

    // Should have just the signature — can't read 4-byte length, so loop breaks
    assert_eq!(sections.len(), 1);
    assert_eq!(sections[0].name, "PNG Signature");
}

#[test]
fn test_parse_truncated_mid_type() {
    let parser = PngParser;
    // Signature + 4 bytes length + only 2 bytes of type (truncated mid-type)
    let mut png = PNG_SIGNATURE.to_vec();
    png.extend_from_slice(&0u32.to_be_bytes()); // length = 0
    png.extend_from_slice(&[b'I', b'H']); // partial type

    let sections = parser.parse(&png).unwrap();

    // Should have just the signature — can't read 4-byte type, so loop breaks
    assert_eq!(sections.len(), 1);
    assert_eq!(sections[0].name, "PNG Signature");
}

#[test]
fn test_chunk_risk_levels() {
    // Critical
    assert_eq!(PngParser::chunk_risk(b"IHDR"), RiskLevel::Critical);
    assert_eq!(PngParser::chunk_risk(b"IEND"), RiskLevel::Critical);
    // High
    assert_eq!(PngParser::chunk_risk(b"PLTE"), RiskLevel::High);
    assert_eq!(PngParser::chunk_risk(b"acTL"), RiskLevel::High);
    assert_eq!(PngParser::chunk_risk(b"fcTL"), RiskLevel::High);
    assert_eq!(PngParser::chunk_risk(b"dSIG"), RiskLevel::High);
    // Caution
    assert_eq!(PngParser::chunk_risk(b"IDAT"), RiskLevel::Caution);
    assert_eq!(PngParser::chunk_risk(b"fdAT"), RiskLevel::Caution);
    assert_eq!(PngParser::chunk_risk(b"gAMA"), RiskLevel::Caution);
    assert_eq!(PngParser::chunk_risk(b"cHRM"), RiskLevel::Caution);
    assert_eq!(PngParser::chunk_risk(b"sRGB"), RiskLevel::Caution);
    assert_eq!(PngParser::chunk_risk(b"iCCP"), RiskLevel::Caution);
    assert_eq!(PngParser::chunk_risk(b"bKGD"), RiskLevel::Caution);
    assert_eq!(PngParser::chunk_risk(b"tRNS"), RiskLevel::Caution);
    assert_eq!(PngParser::chunk_risk(b"sBIT"), RiskLevel::Caution);
    assert_eq!(PngParser::chunk_risk(b"cICP"), RiskLevel::Caution);
    assert_eq!(PngParser::chunk_risk(b"mDCv"), RiskLevel::Caution);
    assert_eq!(PngParser::chunk_risk(b"cLLi"), RiskLevel::Caution);
    // Safe
    assert_eq!(PngParser::chunk_risk(b"tEXt"), RiskLevel::Safe);
    assert_eq!(PngParser::chunk_risk(b"zTXt"), RiskLevel::Safe);
    assert_eq!(PngParser::chunk_risk(b"iTXt"), RiskLevel::Safe);
    assert_eq!(PngParser::chunk_risk(b"tIME"), RiskLevel::Safe);
    assert_eq!(PngParser::chunk_risk(b"pHYs"), RiskLevel::Safe);
    assert_eq!(PngParser::chunk_risk(b"eXIf"), RiskLevel::Safe);
    assert_eq!(PngParser::chunk_risk(b"hIST"), RiskLevel::Safe);
    assert_eq!(PngParser::chunk_risk(b"sPLT"), RiskLevel::Safe);
    assert_eq!(PngParser::chunk_risk(b"oFFs"), RiskLevel::Safe);
    assert_eq!(PngParser::chunk_risk(b"pCAL"), RiskLevel::Safe);
    assert_eq!(PngParser::chunk_risk(b"sCAL"), RiskLevel::Safe);
    assert_eq!(PngParser::chunk_risk(b"gIFg"), RiskLevel::Safe);
    assert_eq!(PngParser::chunk_risk(b"gIFx"), RiskLevel::Safe);
    assert_eq!(PngParser::chunk_risk(b"sTER"), RiskLevel::Safe);
    assert_eq!(PngParser::chunk_risk(b"caBX"), RiskLevel::Safe);
    // Fallback: ancillary (lowercase first byte) defaults to Safe
    assert_eq!(PngParser::chunk_risk(b"xYzW"), RiskLevel::Safe);
    // Fallback: critical (uppercase first byte) defaults to High
    assert_eq!(PngParser::chunk_risk(b"XYZW"), RiskLevel::High);
}

#[test]
fn test_parse_png_with_idat() {
    let parser = PngParser;
    let ihdr = ihdr_data();
    let idat_data = vec![0x78, 0x9C, 0x01, 0x02]; // fake compressed data
    let png = build_png(&[(b"IHDR", &ihdr), (b"IDAT", &idat_data), (b"IEND", &[])]);

    let sections = parser.parse(&png).unwrap();

    // Signature + IHDR + IDAT + IEND
    assert_eq!(sections.len(), 4);
    assert!(sections[2].name.contains("IDAT"));
    assert_eq!(sections[2].risk, RiskLevel::Caution);

    // IDAT should have children: Length, Type, Data, CRC
    assert_eq!(sections[2].children.len(), 4);
    assert_eq!(sections[2].children[0].name, "Length");
    assert_eq!(sections[2].children[1].name, "Type");
    assert_eq!(sections[2].children[2].name, "Data");
    assert_eq!(sections[2].children[3].name, "CRC");
}

#[test]
fn test_parse_truncated_chunk() {
    let parser = PngParser;
    // Signature + partial chunk (length says 100 bytes but we only provide 4)
    let mut png = PNG_SIGNATURE.to_vec();
    png.extend_from_slice(&100u32.to_be_bytes()); // length = 100
    png.extend_from_slice(b"IHDR"); // type
    png.extend_from_slice(&[0u8; 4]); // only 4 bytes of data (not 100)

    let sections = parser.parse(&png).unwrap();

    // Signature + truncated IHDR
    assert_eq!(sections.len(), 2);
    assert_eq!(sections[0].name, "PNG Signature");
    assert!(sections[1].name.contains("IHDR"));
    // Truncated chunk end should be clamped to file size
    assert_eq!(sections[1].end, png.len());
}

#[test]
fn test_parse_png_with_ancillary_chunk() {
    let parser = PngParser;
    let ihdr = ihdr_data();
    let text_data = b"Comment\x00Hello, world!";
    let png = build_png(&[(b"IHDR", &ihdr), (b"tEXt", text_data), (b"IEND", &[])]);

    let sections = parser.parse(&png).unwrap();

    // Signature + IHDR + tEXt + IEND
    assert_eq!(sections.len(), 4);

    let text_section = &sections[2];
    assert!(text_section.name.contains("tEXt"));
    assert_eq!(text_section.risk, RiskLevel::Safe);

    // Should have children: Length, Type, Data, CRC
    assert_eq!(text_section.children.len(), 4);
    assert_eq!(text_section.children[0].name, "Length");
    assert_eq!(text_section.children[1].name, "Type");
    assert_eq!(text_section.children[2].name, "Data");
    assert_eq!(text_section.children[3].name, "CRC");
}

#[test]
fn test_crc_risk_varies_by_chunk_type() {
    let parser = PngParser;
    let ihdr = ihdr_data();
    let text_data = b"Comment\x00Hello!";
    let png = build_png(&[(b"IHDR", &ihdr), (b"tEXt", text_data), (b"IEND", &[])]);

    let sections = parser.parse(&png).unwrap();

    // IHDR CRC should be Critical (matches IHDR risk)
    let ihdr_crc = &sections[1].children[3];
    assert_eq!(ihdr_crc.name, "CRC");
    assert_eq!(ihdr_crc.risk, RiskLevel::Critical);

    // tEXt CRC should be Safe (matches tEXt risk)
    let text_crc = &sections[2].children[3];
    assert_eq!(text_crc.name, "CRC");
    assert_eq!(text_crc.risk, RiskLevel::Safe);

    // IEND CRC should be Critical (matches IEND risk)
    // IEND has no Data child (zero-length), so CRC is at index 2
    let iend_crc = sections[3]
        .children
        .iter()
        .find(|c| c.name == "CRC")
        .expect("IEND should have a CRC child");
    assert_eq!(iend_crc.risk, RiskLevel::Critical);
}

#[test]
fn test_iend_zero_length_has_no_data_child() {
    let parser = PngParser;
    let ihdr = ihdr_data();
    let png = build_png(&[(b"IHDR", &ihdr), (b"IEND", &[])]);

    let sections = parser.parse(&png).unwrap();
    let iend_section = &sections[2];

    assert!(iend_section.name.contains("IEND"));
    // IEND (zero-length data) should have: Length, Type, CRC — but no Data child
    assert_eq!(iend_section.children.len(), 3);
    assert_eq!(iend_section.children[0].name, "Length");
    assert_eq!(iend_section.children[1].name, "Type");
    assert_eq!(iend_section.children[2].name, "CRC");
}

#[test]
fn test_trailing_data_after_iend() {
    let parser = PngParser;
    let ihdr = ihdr_data();
    let mut png = build_png(&[(b"IHDR", &ihdr), (b"IEND", &[])]);
    // Append trailing garbage after IEND (simulates metadata appended by tools)
    png.extend_from_slice(b"TRAILING GARBAGE DATA");

    let sections = parser.parse(&png).unwrap();

    // Parser stops at IEND — should have Signature + IHDR + IEND
    assert_eq!(sections.len(), 3);
    assert!(sections[2].name.contains("IEND"));

    // The IEND section should end before the trailing data
    let iend_end = sections[2].end;
    assert!(iend_end < png.len());

    // When used via parse_file, fill_gaps should label the trailing bytes as Unknown
    let mut all_sections = sections;
    fill_gaps(&mut all_sections, png.len());
    let unknown_sections: Vec<_> = all_sections
        .iter()
        .filter(|s| s.name == "Unknown")
        .collect();
    assert_eq!(unknown_sections.len(), 1);
    assert_eq!(unknown_sections[0].start, iend_end);
    assert_eq!(unknown_sections[0].end, png.len());
}

#[test]
fn test_non_ascii_chunk_type() {
    let parser = PngParser;
    // Build a PNG with a non-ASCII chunk type (0xFF bytes)
    let mut png = PNG_SIGNATURE.to_vec();
    let chunk_data = [0x01, 0x02];
    let len = (chunk_data.len() as u32).to_be_bytes();
    png.extend_from_slice(&len);
    png.extend_from_slice(&[0xFF, 0xFF, 0xFF, 0xFF]); // invalid chunk type
    png.extend_from_slice(&chunk_data);
    png.extend_from_slice(&[0u8; 4]); // CRC

    let sections = parser.parse(&png).unwrap();

    // Should use fallback labeling; 0xFF has bit 5 set = ancillary + private
    assert_eq!(sections.len(), 2); // Signature + unknown chunk
    assert_eq!(sections[1].name, "???? (Private Ancillary Chunk)");
    assert_eq!(sections[1].risk, RiskLevel::Safe);
}

#[test]
fn test_fallback_chunk_name_conventions() {
    // Ancillary (lowercase byte 0) + private (lowercase byte 1)
    assert_eq!(
        PngParser::chunk_name(b"xyzw"),
        "xyzw (Private Ancillary Chunk)"
    );
    // Critical (uppercase byte 0) + public (uppercase byte 1)
    assert_eq!(
        PngParser::chunk_name(b"XYZW"),
        "XYZW (Public Critical Chunk)"
    );
    // Ancillary + public (uppercase byte 1)
    assert_eq!(
        PngParser::chunk_name(b"xYZW"),
        "xYZW (Public Ancillary Chunk)"
    );
    // Critical + private (lowercase byte 1)
    assert_eq!(
        PngParser::chunk_name(b"XyZW"),
        "XyZW (Private Critical Chunk)"
    );
}

#[test]
fn test_common_private_chunks() {
    // Apple iDOT — most common private chunk on macOS
    assert!(PngParser::chunk_name(b"iDOT").contains("Apple"));
    assert_eq!(PngParser::chunk_risk(b"iDOT"), RiskLevel::Safe);

    // Apple CgBI — iOS optimized PNGs
    assert!(PngParser::chunk_name(b"CgBI").contains("Apple"));
    assert_eq!(PngParser::chunk_risk(b"CgBI"), RiskLevel::High);

    // vpAg, orNT — ImageMagick and other tools
    assert_eq!(PngParser::chunk_risk(b"vpAg"), RiskLevel::Safe);
    assert_eq!(PngParser::chunk_risk(b"orNT"), RiskLevel::Safe);
}

#[test]
fn test_parse_multiple_idat_chunks() {
    let parser = PngParser;
    let ihdr = ihdr_data();
    let idat1 = vec![0x78, 0x9C]; // first IDAT
    let idat2 = vec![0x01, 0x02, 0x03]; // second IDAT
    let png = build_png(&[
        (b"IHDR", &ihdr),
        (b"IDAT", &idat1),
        (b"IDAT", &idat2),
        (b"IEND", &[]),
    ]);

    let sections = parser.parse(&png).unwrap();

    // Signature + IHDR + IDAT + IDAT + IEND
    assert_eq!(sections.len(), 5);

    // Both IDAT sections should be present with correct names and contiguous ranges
    let idat_sections: Vec<_> = sections
        .iter()
        .filter(|s| s.name.contains("IDAT"))
        .collect();
    assert_eq!(idat_sections.len(), 2);
    assert_eq!(idat_sections[0].risk, RiskLevel::Caution);
    assert_eq!(idat_sections[1].risk, RiskLevel::Caution);

    // Second IDAT starts where first IDAT ends
    assert_eq!(idat_sections[1].start, idat_sections[0].end);
}

#[test]
fn test_overflow_chunk_length_handled() {
    let parser = PngParser;
    // Build a PNG with a chunk whose data_length is u32::MAX.
    // The parser should not panic — checked_add detects the overflow and breaks.
    let mut png = PNG_SIGNATURE.to_vec();
    png.extend_from_slice(&u32::MAX.to_be_bytes()); // length = u32::MAX
    png.extend_from_slice(b"IDAT"); // type
    png.extend_from_slice(&[0xAA; 8]); // some data (nowhere near u32::MAX)

    let sections = parser.parse(&png).unwrap();

    // Parser should produce the Signature section. The IDAT chunk's
    // data_start + data_length + 4 overflows, so the loop breaks cleanly.
    assert!(sections.len() >= 1);
    assert_eq!(sections[0].name, "PNG Signature");
}
