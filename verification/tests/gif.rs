use lib::formats::gif::{skip_sub_blocks, GifParser};
use lib::formats::traits::{FileSection, ImageFormat, RiskLevel};

/// Build a minimal valid GIF89a with a single 1x1 frame.
/// Returns a byte vector that is a valid, parseable GIF.
fn minimal_gif89a() -> Vec<u8> {
    let mut gif = Vec::new();

    // Header
    gif.extend_from_slice(b"GIF89a");

    // Logical Screen Descriptor
    gif.extend_from_slice(&[
        0x01, 0x00, // width = 1
        0x01, 0x00, // height = 1
        0x80, // packed: GCT flag=1, color res=0, sort=0, GCT size=0 (2 entries)
        0x00, // background color index
        0x00, // pixel aspect ratio
    ]);

    // Global Color Table (2 entries × 3 bytes = 6 bytes)
    gif.extend_from_slice(&[
        0x00, 0x00, 0x00, // color 0: black
        0xFF, 0xFF, 0xFF, // color 1: white
    ]);

    // Image Descriptor
    gif.extend_from_slice(&[
        0x2C, // image separator
        0x00, 0x00, // left = 0
        0x00, 0x00, // top = 0
        0x01, 0x00, // width = 1
        0x01, 0x00, // height = 1
        0x00, // packed: no LCT, not interlaced
    ]);

    // Image Data
    gif.push(0x02); // LZW minimum code size
    gif.push(0x02); // sub-block size = 2
    gif.extend_from_slice(&[0x4C, 0x01]); // compressed data for 1 pixel
    gif.push(0x00); // sub-block terminator

    // Trailer
    gif.push(0x3B);

    gif
}

/// Build a minimal 2-frame animated GIF89a.
fn minimal_animated_gif() -> Vec<u8> {
    let mut gif = Vec::new();

    // Header
    gif.extend_from_slice(b"GIF89a");

    // Logical Screen Descriptor
    gif.extend_from_slice(&[
        0x01, 0x00, // width = 1
        0x01, 0x00, // height = 1
        0x80, // packed: GCT flag=1, color res=0, sort=0, GCT size=0
        0x00, 0x00,
    ]);

    // Global Color Table (2 entries)
    gif.extend_from_slice(&[0x00, 0x00, 0x00, 0xFF, 0xFF, 0xFF]);

    // Application Extension (NETSCAPE2.0 for looping)
    gif.extend_from_slice(&[
        0x21, 0xFF, 0x0B, // extension introducer, app label, block size
    ]);
    gif.extend_from_slice(b"NETSCAPE2.0");
    gif.extend_from_slice(&[
        0x03, // sub-block size
        0x01, // sub-block ID
        0x00, 0x00, // loop count = 0 (infinite)
        0x00, // terminator
    ]);

    // --- Frame 1 ---
    // Graphics Control Extension
    gif.extend_from_slice(&[
        0x21, 0xF9, 0x04, // introducer, label, block size
        0x00, // packed
        0x0A, 0x00, // delay = 10 centiseconds
        0x00, // transparent color index
        0x00, // terminator
    ]);

    // Image Descriptor
    gif.extend_from_slice(&[0x2C, 0x00, 0x00, 0x00, 0x00, 0x01, 0x00, 0x01, 0x00, 0x00]);
    // Image Data
    gif.push(0x02);
    gif.push(0x02);
    gif.extend_from_slice(&[0x4C, 0x01]);
    gif.push(0x00);

    // --- Frame 2 ---
    // Graphics Control Extension
    gif.extend_from_slice(&[0x21, 0xF9, 0x04, 0x00, 0x14, 0x00, 0x00, 0x00]);

    // Image Descriptor
    gif.extend_from_slice(&[0x2C, 0x00, 0x00, 0x00, 0x00, 0x01, 0x00, 0x01, 0x00, 0x00]);
    // Image Data
    gif.push(0x02);
    gif.push(0x02);
    gif.extend_from_slice(&[0x4C, 0x01]);
    gif.push(0x00);

    // Trailer
    gif.push(0x3B);

    gif
}

#[test]
fn test_can_parse_gif87a() {
    let parser = GifParser;
    let mut data = b"GIF87a".to_vec();
    data.extend_from_slice(&[0; 20]);
    assert!(parser.can_parse(&data));
}

#[test]
fn test_can_parse_gif89a() {
    let parser = GifParser;
    let mut data = b"GIF89a".to_vec();
    data.extend_from_slice(&[0; 20]);
    assert!(parser.can_parse(&data));
}

#[test]
fn test_cannot_parse_invalid() {
    let parser = GifParser;
    assert!(!parser.can_parse(b"PNG"));
    assert!(!parser.can_parse(b"BM"));
    assert!(!parser.can_parse(b"GIF"));
    assert!(!parser.can_parse(b"GIF90a"));
    assert!(!parser.can_parse(&[]));
}

#[test]
fn test_parse_minimal_gif() {
    let parser = GifParser;
    let data = minimal_gif89a();
    let sections = parser.parse(&data).unwrap();

    // Should have: Header, LSD, GCT, Frame 1 (with Image Descriptor + Image Data), Trailer
    let names: Vec<&str> = sections.iter().map(|s| s.name.as_str()).collect();
    assert!(names.contains(&"Header"));
    assert!(names.contains(&"Logical Screen Descriptor"));
    assert!(names.contains(&"Global Color Table"));
    assert!(names.contains(&"Frame 1"));
    assert!(names.contains(&"Trailer"));
}

#[test]
fn test_parse_header_children() {
    let parser = GifParser;
    let data = minimal_gif89a();
    let sections = parser.parse(&data).unwrap();

    let header = sections.iter().find(|s| s.name == "Header").unwrap();
    assert_eq!(header.start, 0);
    assert_eq!(header.end, 6);
    assert_eq!(header.children.len(), 2);
    assert_eq!(header.children[0].name, "Signature");
    assert_eq!(header.children[1].name, "Version");
}

#[test]
fn test_parse_lsd_children() {
    let parser = GifParser;
    let data = minimal_gif89a();
    let sections = parser.parse(&data).unwrap();

    let lsd = sections
        .iter()
        .find(|s| s.name == "Logical Screen Descriptor")
        .unwrap();
    assert_eq!(lsd.start, 6);
    assert_eq!(lsd.end, 13);
    assert_eq!(lsd.children.len(), 5);

    let child_names: Vec<&str> = lsd.children.iter().map(|c| c.name.as_str()).collect();
    assert!(child_names.contains(&"Canvas Width"));
    assert!(child_names.contains(&"Canvas Height"));
    assert!(child_names.contains(&"Packed Byte"));
    assert!(child_names.contains(&"Background Color Index"));
    assert!(child_names.contains(&"Pixel Aspect Ratio"));
}

#[test]
fn test_parse_global_color_table() {
    let parser = GifParser;
    let data = minimal_gif89a();
    let sections = parser.parse(&data).unwrap();

    let gct = sections
        .iter()
        .find(|s| s.name == "Global Color Table")
        .unwrap();
    // 2 entries × 3 bytes = 6 bytes, starting after LSD at offset 13
    assert_eq!(gct.start, 13);
    assert_eq!(gct.end, 19);
    assert_eq!(gct.risk, RiskLevel::Safe);
}

#[test]
fn test_parse_animated_gif_frames() {
    let parser = GifParser;
    let data = minimal_animated_gif();
    let sections = parser.parse(&data).unwrap();

    let frame_sections: Vec<&FileSection> = sections
        .iter()
        .filter(|s| s.name.starts_with("Frame"))
        .collect();
    assert_eq!(frame_sections.len(), 2);
    assert_eq!(frame_sections[0].name, "Frame 1");
    assert_eq!(frame_sections[1].name, "Frame 2");

    // Each frame should have GCE, Image Descriptor, and Image Data as children
    for frame in &frame_sections {
        let child_names: Vec<&str> = frame.children.iter().map(|c| c.name.as_str()).collect();
        assert!(
            child_names.contains(&"Graphics Control Extension"),
            "Frame {} missing GCE",
            frame.name
        );
        assert!(
            child_names.contains(&"Image Descriptor"),
            "Frame {} missing Image Descriptor",
            frame.name
        );
        assert!(
            child_names.contains(&"Image Data"),
            "Frame {} missing Image Data",
            frame.name
        );
    }
}

#[test]
fn test_parse_application_extension() {
    let parser = GifParser;
    let data = minimal_animated_gif();
    let sections = parser.parse(&data).unwrap();

    let app_ext = sections.iter().find(|s| s.name == "Application Extension");
    assert!(app_ext.is_some());
    let app_ext = app_ext.unwrap();
    assert_eq!(app_ext.risk, RiskLevel::Caution);

    // Should have children for app identifier and auth code
    let child_names: Vec<&str> = app_ext.children.iter().map(|c| c.name.as_str()).collect();
    assert!(child_names.contains(&"Application Identifier"));
    assert!(child_names.contains(&"Authentication Code"));
}

#[test]
fn test_parse_trailer() {
    let parser = GifParser;
    let data = minimal_gif89a();
    let sections = parser.parse(&data).unwrap();

    let trailer = sections.iter().find(|s| s.name == "Trailer").unwrap();
    assert_eq!(trailer.end - trailer.start, 1);
    assert_eq!(trailer.risk, RiskLevel::Critical);
}

#[test]
fn test_truncated_header_only() {
    let parser = GifParser;
    // Only the 6-byte header, no LSD
    let data = b"GIF89a";
    let sections = parser.parse(data).unwrap();
    // Should get Header but nothing else
    assert_eq!(sections.len(), 1);
    assert_eq!(sections[0].name, "Header");
}

#[test]
fn test_truncated_after_lsd() {
    let parser = GifParser;
    let mut data = b"GIF89a".to_vec();
    data.extend_from_slice(&[0x01, 0x00, 0x01, 0x00, 0x00, 0x00, 0x00]); // LSD, no GCT
                                                                         // Should parse Header + LSD, then stop
    let sections = parser.parse(&data).unwrap();
    assert_eq!(sections.len(), 2);
}

#[test]
fn test_truncated_gct() {
    let parser = GifParser;
    let mut data = b"GIF89a".to_vec();
    data.extend_from_slice(&[
        0x01, 0x00, 0x01, 0x00, 0x80, // GCT flag set, size = 0 (2 entries, need 6 bytes)
        0x00, 0x00,
    ]);
    // Only 2 bytes of GCT instead of 6
    data.extend_from_slice(&[0x00, 0x00]);
    let sections = parser.parse(&data).unwrap();
    let gct = sections
        .iter()
        .find(|s| s.name == "Global Color Table")
        .unwrap();
    // Should clamp to data.len()
    assert_eq!(gct.end, data.len());
}

#[test]
fn test_no_gct() {
    let parser = GifParser;
    let mut data = b"GIF89a".to_vec();
    data.extend_from_slice(&[
        0x01, 0x00, 0x01, 0x00, 0x00, // no GCT flag
        0x00, 0x00,
    ]);
    data.push(0x3B); // trailer
    let sections = parser.parse(&data).unwrap();
    assert!(sections.iter().all(|s| s.name != "Global Color Table"));
}

#[test]
fn test_comment_extension() {
    let parser = GifParser;
    let mut data = b"GIF89a".to_vec();
    data.extend_from_slice(&[0x01, 0x00, 0x01, 0x00, 0x00, 0x00, 0x00]); // LSD, no GCT

    // Comment extension
    data.push(0x21); // extension introducer
    data.push(0xFE); // comment label
    data.push(0x05); // sub-block size
    data.extend_from_slice(b"Hello");
    data.push(0x00); // terminator

    data.push(0x3B); // trailer

    let sections = parser.parse(&data).unwrap();
    let comment = sections.iter().find(|s| s.name == "Comment Extension");
    assert!(comment.is_some());
    assert_eq!(comment.unwrap().risk, RiskLevel::Safe);
}

#[test]
fn test_skip_sub_blocks() {
    // Two sub-blocks followed by terminator
    let data = [
        0x03, 0xAA, 0xBB, 0xCC, // block 1: size=3, 3 data bytes
        0x02, 0xDD, 0xEE, // block 2: size=2, 2 data bytes
        0x00, // terminator
    ];
    assert_eq!(skip_sub_blocks(&data, 0), Some(8));

    // Empty (just terminator)
    let data2 = [0x00];
    assert_eq!(skip_sub_blocks(&data2, 0), Some(1));

    // Truncated
    let data3 = [0x05, 0xAA]; // says 5 bytes but only 1 available
    assert_eq!(skip_sub_blocks(&data3, 0), None);
}

#[test]
fn test_frame_without_gce() {
    // GIF87a style: image descriptor without preceding GCE
    let parser = GifParser;
    let mut data = b"GIF87a".to_vec();
    data.extend_from_slice(&[0x01, 0x00, 0x01, 0x00, 0x00, 0x00, 0x00]); // LSD

    // Image Descriptor (no GCE before it)
    data.extend_from_slice(&[0x2C, 0x00, 0x00, 0x00, 0x00, 0x01, 0x00, 0x01, 0x00, 0x00]);
    // Image Data
    data.push(0x02);
    data.push(0x02);
    data.extend_from_slice(&[0x4C, 0x01]);
    data.push(0x00);

    data.push(0x3B); // trailer

    let sections = parser.parse(&data).unwrap();
    let frames: Vec<_> = sections
        .iter()
        .filter(|s| s.name.starts_with("Frame"))
        .collect();
    assert_eq!(frames.len(), 1);
    assert_eq!(frames[0].name, "Frame 1");
}

#[test]
fn test_image_descriptor_children() {
    let parser = GifParser;
    let data = minimal_gif89a();
    let sections = parser.parse(&data).unwrap();

    let frame = sections.iter().find(|s| s.name == "Frame 1").unwrap();
    let img_desc = frame
        .children
        .iter()
        .find(|c| c.name == "Image Descriptor")
        .unwrap();

    let child_names: Vec<&str> = img_desc.children.iter().map(|c| c.name.as_str()).collect();
    assert!(child_names.contains(&"Image Separator"));
    assert!(child_names.contains(&"Left Position"));
    assert!(child_names.contains(&"Top Position"));
    assert!(child_names.contains(&"Frame Width"));
    assert!(child_names.contains(&"Frame Height"));
    assert!(child_names.contains(&"Packed Byte"));
}

#[test]
fn test_gce_children() {
    let parser = GifParser;
    let data = minimal_animated_gif();
    let sections = parser.parse(&data).unwrap();

    let frame1 = sections.iter().find(|s| s.name == "Frame 1").unwrap();
    let gce = frame1
        .children
        .iter()
        .find(|c| c.name == "Graphics Control Extension")
        .unwrap();

    let child_names: Vec<&str> = gce.children.iter().map(|c| c.name.as_str()).collect();
    assert!(child_names.contains(&"Delay Time"));
    assert!(child_names.contains(&"Packed Byte"));
    assert!(child_names.contains(&"Transparent Color Index"));
}
