//! PNG file format parser.
//!
//! PNG structure:
//! - Signature: 8 bytes (89 50 4E 47 0D 0A 1A 0A)
//! - Chunks: Length (4 bytes) + Type (4 bytes) + Data (Length bytes) + CRC (4 bytes)
//! - Critical chunks: IHDR (must be first), PLTE, IDAT, IEND (must be last)
//! - Ancillary chunks: tEXt, zTXt, iTXt, gAMA, cHRM, sRGB, iCCP, bKGD, pHYs, tIME, tRNS,
//!   sBIT, hIST, sPLT, eXIf, cICP, mDCv, cLLi, caBX
//! - APNG chunks: acTL, fcTL, fdAT
//! - Registered extensions: oFFs, pCAL, sCAL, gIFg, gIFx, sTER, dSIG

use vstd::prelude::*;
use super::bytes::{be32, read_u32_be};
use super::traits::{FileSection, ImageFormat, ParseError, RiskLevel, SectionView, described, leaf, views};
use crate::text::{owned, push_char};

verus! {

/// PNG format parser.
pub struct PngParser;

/// Whether `data` starts with the PNG signature 89 50 4E 47 0D 0A 1A 0A.
pub open spec fn is_png(data: Seq<u8>) -> bool {
    &&& data.len() >= 8
    &&& data[0] == 0x89 && data[1] == 0x50 && data[2] == 0x4E && data[3] == 0x47
    &&& data[4] == 0x0D && data[5] == 0x0A && data[6] == 0x1A && data[7] == 0x0A
}

/// Whether the four bytes `t` are `a b c d`.
pub open spec fn tag_is(t: Seq<u8>, a: u8, b: u8, c: u8, d: u8) -> bool {
    t.len() == 4 && t[0] == a && t[1] == b && t[2] == c && t[3] == d
}

/// What is known of a chunk type: its name, risk level and description.
pub ghost struct ChunkEntry {
    pub name: Seq<char>,
    pub risk: RiskLevel,
    pub description: Seq<char>,
}

/// The table of known chunk types.
pub open spec fn known_chunk(t: Seq<u8>) -> Option<ChunkEntry> {
    if tag_is(t, 0x49, 0x48, 0x44, 0x52) {
        Some(ChunkEntry {
            name: "IHDR (Image Header)"@,
            risk: RiskLevel::Critical,
            description: "Image dimensions, bit depth, and color type"@,
        })
    } else if tag_is(t, 0x50, 0x4C, 0x54, 0x45) {
        Some(ChunkEntry {
            name: "PLTE (Palette)"@,
            risk: RiskLevel::High,
            description: "Palette data for indexed-color images"@,
        })
    } else if tag_is(t, 0x49, 0x44, 0x41, 0x54) {
        Some(ChunkEntry {
            name: "IDAT (Image Data)"@,
            risk: RiskLevel::Caution,
            description: "Compressed image data - the fun part to glitch"@,
        })
    } else if tag_is(t, 0x49, 0x45, 0x4E, 0x44) {
        Some(ChunkEntry {
            name: "IEND (Image End)"@,
            risk: RiskLevel::Critical,
            description: "End of PNG data stream"@,
        })
    } else if tag_is(t, 0x74, 0x45, 0x58, 0x74) {
        Some(ChunkEntry {
            name: "tEXt (Text)"@,
            risk: RiskLevel::Safe,
            description: "Uncompressed text metadata - safe to edit"@,
        })
    } else if tag_is(t, 0x7A, 0x54, 0x58, 0x74) {
        Some(ChunkEntry {
            name: "zTXt (Compressed Text)"@,
            risk: RiskLevel::Safe,
            description: "Compressed text metadata"@,
        })
    } else if tag_is(t, 0x69, 0x54, 0x58, 0x74) {
        Some(ChunkEntry {
            name: "iTXt (International Text)"@,
            risk: RiskLevel::Safe,
            description: "International text metadata"@,
        })
    } else if tag_is(t, 0x67, 0x41, 0x4D, 0x41) {
        Some(ChunkEntry {
            name: "gAMA (Gamma)"@,
            risk: RiskLevel::Caution,
            description: "Image gamma value"@,
        })
    } else if tag_is(t, 0x63, 0x48, 0x52, 0x4D) {
        Some(ChunkEntry {
            name: "cHRM (Chromaticities)"@,
            risk: RiskLevel::Caution,
            description: "Primary chromaticities and white point"@,
        })
    } else if tag_is(t, 0x73, 0x52, 0x47, 0x42) {
        Some(ChunkEntry {
            name: "sRGB (Standard RGB)"@,
            risk: RiskLevel::Caution,
            description: "Standard RGB color space indicator"@,
        })
    } else if tag_is(t, 0x69, 0x43, 0x43, 0x50) {
        Some(ChunkEntry {
            name: "iCCP (ICC Profile)"@,
            risk: RiskLevel::Caution,
            description: "Embedded ICC profile"@,
        })
    } else if tag_is(t, 0x62, 0x4B, 0x47, 0x44) {
        Some(ChunkEntry {
            name: "bKGD (Background)"@,
            risk: RiskLevel::Caution,
            description: "Default background color"@,
        })
    } else if tag_is(t, 0x70, 0x48, 0x59, 0x73) {
        Some(ChunkEntry {
            name: "pHYs (Physical Dimensions)"@,
            risk: RiskLevel::Safe,
            description: "Physical pixel dimensions"@,
        })
    } else if tag_is(t, 0x74, 0x49, 0x4D, 0x45) {
        Some(ChunkEntry {
            name: "tIME (Timestamp)"@,
            risk: RiskLevel::Safe,
            description: "Last modification time"@,
        })
    } else if tag_is(t, 0x74, 0x52, 0x4E, 0x53) {
        Some(ChunkEntry {
            name: "tRNS (Transparency)"@,
            risk: RiskLevel::Caution,
            description: "Transparency information"@,
        })
    } else if tag_is(t, 0x73, 0x42, 0x49, 0x54) {
        Some(ChunkEntry {
            name: "sBIT (Significant Bits)"@,
            risk: RiskLevel::Caution,
            description: "Number of significant bits per channel"@,
        })
    } else if tag_is(t, 0x68, 0x49, 0x53, 0x54) {
        Some(ChunkEntry {
            name: "hIST (Histogram)"@,
            risk: RiskLevel::Safe,
            description: "Frequency of each palette color"@,
        })
    } else if tag_is(t, 0x73, 0x50, 0x4C, 0x54) {
        Some(ChunkEntry {
            name: "sPLT (Suggested Palette)"@,
            risk: RiskLevel::Safe,
            description: "Suggested palette for display"@,
        })
    } else if tag_is(t, 0x65, 0x58, 0x49, 0x66) {
        Some(ChunkEntry {
            name: "eXIf (Exif Metadata)"@,
            risk: RiskLevel::Safe,
            description: "Exchangeable image file (Exif) metadata"@,
        })
    } else if tag_is(t, 0x61, 0x63, 0x54, 0x4C) {
        Some(ChunkEntry {
            name: "acTL (Animation Control)"@,
            risk: RiskLevel::High,
            description: "APNG animation control - frame count and loop info"@,
        })
    } else if tag_is(t, 0x66, 0x63, 0x54, 0x4C) {
        Some(ChunkEntry {
            name: "fcTL (Frame Control)"@,
            risk: RiskLevel::High,
            description: "APNG frame control - dimensions, offsets, timing"@,
        })
    } else if tag_is(t, 0x66, 0x64, 0x41, 0x54) {
        Some(ChunkEntry {
            name: "fdAT (Frame Data)"@,
            risk: RiskLevel::Caution,
            description: "APNG frame data - compressed frame image data"@,
        })
    } else if tag_is(t, 0x63, 0x49, 0x43, 0x50) {
        Some(ChunkEntry {
            name: "cICP (Coding-Independent Code Points)"@,
            risk: RiskLevel::Caution,
            description: "HDR color space via coding-independent code points"@,
        })
    } else if tag_is(t, 0x6D, 0x44, 0x43, 0x76) {
        Some(ChunkEntry {
            name: "mDCv (Mastering Display Color Volume)"@,
            risk: RiskLevel::Caution,
            description: "HDR mastering display color volume"@,
        })
    } else if tag_is(t, 0x63, 0x4C, 0x4C, 0x69) {
        Some(ChunkEntry {
            name: "cLLi (Content Light Level)"@,
            risk: RiskLevel::Caution,
            description: "HDR content light level information"@,
        })
    } else if tag_is(t, 0x63, 0x61, 0x42, 0x58) {
        Some(ChunkEntry {
            name: "caBX (Content Credentials Box)"@,
            risk: RiskLevel::Safe,
            description: "Content credentials (C2PA) provenance box"@,
        })
    } else if tag_is(t, 0x6F, 0x46, 0x46, 0x73) {
        Some(ChunkEntry {
            name: "oFFs (Image Offset)"@,
            risk: RiskLevel::Safe,
            description: "Image offset from page origin"@,
        })
    } else if tag_is(t, 0x70, 0x43, 0x41, 0x4C) {
        Some(ChunkEntry {
            name: "pCAL (Pixel Calibration)"@,
            risk: RiskLevel::Safe,
            description: "Calibration of pixel values to physical units"@,
        })
    } else if tag_is(t, 0x73, 0x43, 0x41, 0x4C) {
        Some(ChunkEntry {
            name: "sCAL (Physical Scale)"@,
            risk: RiskLevel::Safe,
            description: "Physical scale of image subject"@,
        })
    } else if tag_is(t, 0x67, 0x49, 0x46, 0x67) {
        Some(ChunkEntry {
            name: "gIFg (GIF Graphic Control)"@,
            risk: RiskLevel::Safe,
            description: "GIF graphic control extension data"@,
        })
    } else if tag_is(t, 0x67, 0x49, 0x46, 0x78) {
        Some(ChunkEntry {
            name: "gIFx (GIF Application Extension)"@,
            risk: RiskLevel::Safe,
            description: "GIF application extension data"@,
        })
    } else if tag_is(t, 0x73, 0x54, 0x45, 0x52) {
        Some(ChunkEntry {
            name: "sTER (Stereo Image)"@,
            risk: RiskLevel::Safe,
            description: "Stereo image indicator"@,
        })
    } else if tag_is(t, 0x64, 0x53, 0x49, 0x47) {
        Some(ChunkEntry {
            name: "dSIG (Digital Signature)"@,
            risk: RiskLevel::High,
            description: "Digital signature for integrity verification"@,
        })
    } else if tag_is(t, 0x69, 0x44, 0x4F, 0x54) {
        Some(ChunkEntry {
            name: "iDOT (Apple Optimization Data)"@,
            risk: RiskLevel::Safe,
            description: "Apple PNG optimization hints"@,
        })
    } else if tag_is(t, 0x43, 0x67, 0x42, 0x49) {
        Some(ChunkEntry {
            name: "CgBI (Apple CoreGraphics)"@,
            risk: RiskLevel::High,
            description: "Apple CoreGraphics premultiplied BGR format marker"@,
        })
    } else if tag_is(t, 0x76, 0x70, 0x41, 0x67) {
        Some(ChunkEntry {
            name: "vpAg (Virtual Page)"@,
            risk: RiskLevel::Safe,
            description: "Virtual page size information"@,
        })
    } else if tag_is(t, 0x6F, 0x72, 0x4E, 0x54) {
        Some(ChunkEntry {
            name: "orNT (Orientation)"@,
            risk: RiskLevel::Safe,
            description: "Image orientation metadata"@,
        })
    } else {
        None
    }
}

/// The character shown for a byte of a chunk type: itself when it is a
/// printable ASCII character other than space, `?` otherwise.
pub open spec fn type_char(b: u8) -> char {
    if 0x21 <= b <= 0x7E {
        b as char
    } else {
        '?'
    }
}

/// The convention kind of a chunk type: bit 5 of byte 0 set means ancillary,
/// bit 5 of byte 1 set means private.
pub open spec fn chunk_kind(t: Seq<u8>) -> Seq<char> {
    let ancillary = t[0] & 0x20 != 0;
    let private = t[1] & 0x20 != 0;
    if ancillary && private {
        "Private Ancillary"@
    } else if ancillary {
        "Public Ancillary"@
    } else if private {
        "Private Critical"@
    } else {
        "Public Critical"@
    }
}

/// The label of an unrecognized chunk type, such as `xyzw (Private Ancillary Chunk)`.
pub open spec fn fallback_name(t: Seq<u8>) -> Seq<char> {
    t.map_values(|b: u8| type_char(b)) + " ("@ + chunk_kind(t) + " Chunk)"@
}

/// The name of a chunk type.
pub open spec fn chunk_name_spec(t: Seq<u8>) -> Seq<char> {
    match known_chunk(t) {
        Some(e) => e.name,
        None => fallback_name(t),
    }
}

/// The risk level of a chunk type: from the table, else Safe for ancillary
/// chunks and High for critical ones.
pub open spec fn chunk_risk_spec(t: Seq<u8>) -> RiskLevel {
    match known_chunk(t) {
        Some(e) => e.risk,
        None => if t[0] & 0x20 != 0 {
            RiskLevel::Safe
        } else {
            RiskLevel::High
        },
    }
}

/// The description of a chunk type (empty when unknown).
pub open spec fn chunk_description_spec(t: Seq<u8>) -> Seq<char> {
    match known_chunk(t) {
        Some(e) => e.description,
        None => Seq::empty(),
    }
}

/// The fields of IHDR chunk data starting at `s` (none when shorter than 13 bytes).
pub open spec fn ihdr_children_spec(s: int, len: int) -> Seq<SectionView> {
    if len < 13 {
        Seq::empty()
    } else {
        seq![
            leaf("Width"@, s, s + 4, RiskLevel::Critical),
            leaf("Height"@, s + 4, s + 8, RiskLevel::Critical),
            leaf("Bit Depth"@, s + 8, s + 9, RiskLevel::Critical),
            leaf("Color Type"@, s + 9, s + 10, RiskLevel::Critical),
            leaf("Compression"@, s + 10, s + 11, RiskLevel::High),
            leaf("Filter Method"@, s + 11, s + 12, RiskLevel::High),
            leaf("Interlace"@, s + 12, s + 13, RiskLevel::High),
        ]
    }
}

/// The section of the chunk at `start` with data length `dl`, ending at
/// `end`; `trunc` when the file ends before the chunk does.
pub open spec fn chunk_section(
    data: Seq<u8>,
    start: int,
    dl: int,
    trunc: bool,
    end: int,
) -> SectionView {
    let t = data.subrange(start + 4, start + 8);
    let risk = chunk_risk_spec(t);
    let desc = chunk_description_spec(t);
    let ds = start + 8;
    let actual = if trunc {
        end - ds
    } else {
        dl
    };
    let description = if trunc {
        if desc.len() == 0 {
            Some("(truncated)"@)
        } else {
            Some(desc + " (truncated)"@)
        }
    } else if desc.len() > 0 {
        Some(desc)
    } else {
        None
    };
    let data_child = if actual > 0 {
        seq![
            SectionView {
                children: if tag_is(t, 0x49, 0x48, 0x44, 0x52) {
                    ihdr_children_spec(ds, actual)
                } else {
                    Seq::empty()
                },
                ..leaf("Data"@, ds, ds + actual, risk)
            },
        ]
    } else {
        Seq::empty()
    };
    let crc = if trunc {
        Seq::empty()
    } else {
        seq![leaf("CRC"@, ds + dl, ds + dl + 4, risk)]
    };
    SectionView {
        name: chunk_name_spec(t),
        start,
        end,
        risk,
        description,
        children: seq![
            leaf("Length"@, start, start + 4, RiskLevel::Critical),
            leaf("Type"@, start + 4, start + 8, RiskLevel::Critical),
        ] + data_child + crc,
    }
}

/// The chunk sections found from `pos` on: chunks follow one another until
/// one cannot be read whole up to its type, one is cut short by the end of
/// the file, or IEND.
pub open spec fn png_from(data: Seq<u8>, pos: int) -> Seq<SectionView>
    decreases data.len() - pos,
{
    if pos < 0 || pos + 8 > data.len() {
        Seq::empty()
    } else {
        let dl = be32(data, pos);
        let ds = pos + 8;
        if ds + dl + 4 > usize::MAX {
            Seq::empty()
        } else {
            let trunc = ds + dl + 4 > data.len();
            let end = if trunc {
                data.len() as int
            } else {
                ds + dl + 4
            };
            let sec = chunk_section(data, pos, dl, trunc, end);
            if trunc || tag_is(data.subrange(pos + 4, pos + 8), 0x49, 0x45, 0x4E, 0x44) {
                seq![sec]
            } else {
                seq![sec] + png_from(data, end)
            }
        }
    }
}

/// The signature section.
pub open spec fn png_signature_section() -> SectionView {
    described(leaf("PNG Signature"@, 0, 8, RiskLevel::Critical), "PNG magic bytes"@)
}

/// The sections of a PNG file (one that starts with the signature).
pub open spec fn png_sections(data: Seq<u8>) -> Seq<SectionView> {
    seq![png_signature_section()] + png_from(data, 8)
}

/// Metadata of a known chunk type.
struct ChunkInfo {
    name: &'static str,
    risk: RiskLevel,
    description: &'static str,
}

impl ChunkInfo {
    spec fn entry(self) -> ChunkEntry {
        ChunkEntry { name: self.name@, risk: self.risk, description: self.description@ }
    }
}

fn tag_eq(t: &[u8; 4], a: u8, b: u8, c: u8, d: u8) -> (r: bool)
    ensures
        r == tag_is(t@, a, b, c, d),
{
    t[0] == a && t[1] == b && t[2] == c && t[3] == d
}

/// Look up a known chunk type.
fn chunk_info(t: &[u8; 4]) -> (r: Option<ChunkInfo>)
    ensures
        match r {
            Some(i) => known_chunk(t@) == Some(i.entry()),
            None => known_chunk(t@) is None,
        },
{
    if tag_eq(t, 0x49, 0x48, 0x44, 0x52) {
        Some(ChunkInfo {
            name: "IHDR (Image Header)",
            risk: RiskLevel::Critical,
            description: "Image dimensions, bit depth, and color type",
        })
    } else if tag_eq(t, 0x50, 0x4C, 0x54, 0x45) {
        Some(ChunkInfo {
            name: "PLTE (Palette)",
            risk: RiskLevel::High,
            description: "Palette data for indexed-color images",
        })
    } else if tag_eq(t, 0x49, 0x44, 0x41, 0x54) {
        Some(ChunkInfo {
            name: "IDAT (Image Data)",
            risk: RiskLevel::Caution,
            description: "Compressed image data - the fun part to glitch",
        })
    } else if tag_eq(t, 0x49, 0x45, 0x4E, 0x44) {
        Some(ChunkInfo {
            name: "IEND (Image End)",
            risk: RiskLevel::Critical,
            description: "End of PNG data stream",
        })
    } else if tag_eq(t, 0x74, 0x45, 0x58, 0x74) {
        Some(ChunkInfo {
            name: "tEXt (Text)",
            risk: RiskLevel::Safe,
            description: "Uncompressed text metadata - safe to edit",
        })
    } else if tag_eq(t, 0x7A, 0x54, 0x58, 0x74) {
        Some(ChunkInfo {
            name: "zTXt (Compressed Text)",
            risk: RiskLevel::Safe,
            description: "Compressed text metadata",
        })
    } else if tag_eq(t, 0x69, 0x54, 0x58, 0x74) {
        Some(ChunkInfo {
            name: "iTXt (International Text)",
            risk: RiskLevel::Safe,
            description: "International text metadata",
        })
    } else if tag_eq(t, 0x67, 0x41, 0x4D, 0x41) {
        Some(ChunkInfo {
            name: "gAMA (Gamma)",
            risk: RiskLevel::Caution,
            description: "Image gamma value",
        })
    } else if tag_eq(t, 0x63, 0x48, 0x52, 0x4D) {
        Some(ChunkInfo {
            name: "cHRM (Chromaticities)",
            risk: RiskLevel::Caution,
            description: "Primary chromaticities and white point",
        })
    } else if tag_eq(t, 0x73, 0x52, 0x47, 0x42) {
        Some(ChunkInfo {
            name: "sRGB (Standard RGB)",
            risk: RiskLevel::Caution,
            description: "Standard RGB color space indicator",
        })
    } else if tag_eq(t, 0x69, 0x43, 0x43, 0x50) {
        Some(ChunkInfo {
            name: "iCCP (ICC Profile)",
            risk: RiskLevel::Caution,
            description: "Embedded ICC profile",
        })
    } else if tag_eq(t, 0x62, 0x4B, 0x47, 0x44) {
        Some(ChunkInfo {
            name: "bKGD (Background)",
            risk: RiskLevel::Caution,
            description: "Default background color",
        })
    } else if tag_eq(t, 0x70, 0x48, 0x59, 0x73) {
        Some(ChunkInfo {
            name: "pHYs (Physical Dimensions)",
            risk: RiskLevel::Safe,
            description: "Physical pixel dimensions",
        })
    } else if tag_eq(t, 0x74, 0x49, 0x4D, 0x45) {
        Some(ChunkInfo {
            name: "tIME (Timestamp)",
            risk: RiskLevel::Safe,
            description: "Last modification time",
        })
    } else if tag_eq(t, 0x74, 0x52, 0x4E, 0x53) {
        Some(ChunkInfo {
            name: "tRNS (Transparency)",
            risk: RiskLevel::Caution,
            description: "Transparency information",
        })
    } else if tag_eq(t, 0x73, 0x42, 0x49, 0x54) {
        Some(ChunkInfo {
            name: "sBIT (Significant Bits)",
            risk: RiskLevel::Caution,
            description: "Number of significant bits per channel",
        })
    } else if tag_eq(t, 0x68, 0x49, 0x53, 0x54) {
        Some(ChunkInfo {
            name: "hIST (Histogram)",
            risk: RiskLevel::Safe,
            description: "Frequency of each palette color",
        })
    } else if tag_eq(t, 0x73, 0x50, 0x4C, 0x54) {
        Some(ChunkInfo {
            name: "sPLT (Suggested Palette)",
            risk: RiskLevel::Safe,
            description: "Suggested palette for display",
        })
    } else if tag_eq(t, 0x65, 0x58, 0x49, 0x66) {
        Some(ChunkInfo {
            name: "eXIf (Exif Metadata)",
            risk: RiskLevel::Safe,
            description: "Exchangeable image file (Exif) metadata",
        })
    } else if tag_eq(t, 0x61, 0x63, 0x54, 0x4C) {
        Some(ChunkInfo {
            name: "acTL (Animation Control)",
            risk: RiskLevel::High,
            description: "APNG animation control - frame count and loop info",
        })
    } else if tag_eq(t, 0x66, 0x63, 0x54, 0x4C) {
        Some(ChunkInfo {
            name: "fcTL (Frame Control)",
            risk: RiskLevel::High,
            description: "APNG frame control - dimensions, offsets, timing",
        })
    } else if tag_eq(t, 0x66, 0x64, 0x41, 0x54) {
        Some(ChunkInfo {
            name: "fdAT (Frame Data)",
            risk: RiskLevel::Caution,
            description: "APNG frame data - compressed frame image data",
        })
    } else if tag_eq(t, 0x63, 0x49, 0x43, 0x50) {
        Some(ChunkInfo {
            name: "cICP (Coding-Independent Code Points)",
            risk: RiskLevel::Caution,
            description: "HDR color space via coding-independent code points",
        })
    } else if tag_eq(t, 0x6D, 0x44, 0x43, 0x76) {
        Some(ChunkInfo {
            name: "mDCv (Mastering Display Color Volume)",
            risk: RiskLevel::Caution,
            description: "HDR mastering display color volume",
        })
    } else if tag_eq(t, 0x63, 0x4C, 0x4C, 0x69) {
        Some(ChunkInfo {
            name: "cLLi (Content Light Level)",
            risk: RiskLevel::Caution,
            description: "HDR content light level information",
        })
    } else if tag_eq(t, 0x63, 0x61, 0x42, 0x58) {
        Some(ChunkInfo {
            name: "caBX (Content Credentials Box)",
            risk: RiskLevel::Safe,
            description: "Content credentials (C2PA) provenance box",
        })
    } else if tag_eq(t, 0x6F, 0x46, 0x46, 0x73) {
        Some(ChunkInfo {
            name: "oFFs (Image Offset)",
            risk: RiskLevel::Safe,
            description: "Image offset from page origin",
        })
    } else if tag_eq(t, 0x70, 0x43, 0x41, 0x4C) {
        Some(ChunkInfo {
            name: "pCAL (Pixel Calibration)",
            risk: RiskLevel::Safe,
            description: "Calibration of pixel values to physical units",
        })
    } else if tag_eq(t, 0x73, 0x43, 0x41, 0x4C) {
        Some(ChunkInfo {
            name: "sCAL (Physical Scale)",
            risk: RiskLevel::Safe,
            description: "Physical scale of image subject",
        })
    } else if tag_eq(t, 0x67, 0x49, 0x46, 0x67) {
        Some(ChunkInfo {
            name: "gIFg (GIF Graphic Control)",
            risk: RiskLevel::Safe,
            description: "GIF graphic control extension data",
        })
    } else if tag_eq(t, 0x67, 0x49, 0x46, 0x78) {
        Some(ChunkInfo {
            name: "gIFx (GIF Application Extension)",
            risk: RiskLevel::Safe,
            description: "GIF application extension data",
        })
    } else if tag_eq(t, 0x73, 0x54, 0x45, 0x52) {
        Some(ChunkInfo {
            name: "sTER (Stereo Image)",
            risk: RiskLevel::Safe,
            description: "Stereo image indicator",
        })
    } else if tag_eq(t, 0x64, 0x53, 0x49, 0x47) {
        Some(ChunkInfo {
            name: "dSIG (Digital Signature)",
            risk: RiskLevel::High,
            description: "Digital signature for integrity verification",
        })
    } else if tag_eq(t, 0x69, 0x44, 0x4F, 0x54) {
        Some(ChunkInfo {
            name: "iDOT (Apple Optimization Data)",
            risk: RiskLevel::Safe,
            description: "Apple PNG optimization hints",
        })
    } else if tag_eq(t, 0x43, 0x67, 0x42, 0x49) {
        Some(ChunkInfo {
            name: "CgBI (Apple CoreGraphics)",
            risk: RiskLevel::High,
            description: "Apple CoreGraphics premultiplied BGR format marker",
        })
    } else if tag_eq(t, 0x76, 0x70, 0x41, 0x67) {
        Some(ChunkInfo {
            name: "vpAg (Virtual Page)",
            risk: RiskLevel::Safe,
            description: "Virtual page size information",
        })
    } else if tag_eq(t, 0x6F, 0x72, 0x4E, 0x54) {
        Some(ChunkInfo {
            name: "orNT (Orientation)",
            risk: RiskLevel::Safe,
            description: "Image orientation metadata",
        })
    } else {
        None
    }}

impl PngParser {
    /// The four bytes at `offset`, if there are four.
    fn chunk_type_bytes(data: &[u8], offset: usize) -> (r: Option<[u8; 4]>)
        requires
            offset + 4 <= usize::MAX,
        ensures
            offset + 4 <= data@.len() ==> (r matches Some(t) && t@ == data@.subrange(
                offset as int,
                offset + 4,
            )),
            offset + 4 > data@.len() ==> r is None,
    {
        if offset + 4 > data.len() {
            return None;
        }
        let t = [data[offset], data[offset + 1], data[offset + 2], data[offset + 3]];
        assert(t@ =~= data@.subrange(offset as int, offset + 4));
        Some(t)
    }

    /// Human-readable name of a chunk type: the table's name for a known
    /// type, a label built from the PNG byte conventions otherwise.
    pub fn chunk_name(chunk_type: &[u8; 4]) -> (r: String)
        ensures
            r@ == chunk_name_spec(chunk_type@),
    {
        match chunk_info(chunk_type) {
            Some(info) => owned(info.name),
            None => Self::fallback_chunk_name(chunk_type),
        }
    }

    /// Label of an unrecognized chunk type from the PNG byte conventions:
    /// bit 5 of byte 0 tells ancillary from critical, bit 5 of byte 1 private
    /// from public.
    pub fn fallback_chunk_name(chunk_type: &[u8; 4]) -> (r: String)
        ensures
            r@ == fallback_name(chunk_type@),
    {
        let is_ancillary = chunk_type[0] & 0x20 != 0;
        let is_private = chunk_type[1] & 0x20 != 0;
        let mut name = String::new();
        let mut i: usize = 0;
        while i < 4
            invariant
                i <= 4,
                name@ == chunk_type@.subrange(0, i as int).map_values(|b: u8| type_char(b)),
            decreases 4 - i,
        {
            let b = chunk_type[i];
            let c = if 0x21 <= b && b <= 0x7E {
                b as char
            } else {
                '?'
            };
            let ghost before = name@;
            push_char(&mut name, c);
            proof {
                assert(chunk_type@.subrange(0, i + 1).map_values(|b: u8| type_char(b))
                    =~= before.push(type_char(b)));
            }
            i += 1;
        }
        assert(chunk_type@.subrange(0, 4) =~= chunk_type@);
        let kind = if is_ancillary && is_private {
            "Private Ancillary"
        } else if is_ancillary {
            "Public Ancillary"
        } else if is_private {
            "Private Critical"
        } else {
            "Public Critical"
        };
        name.append(" (");
        name.append(kind);
        name.append(" Chunk)");
        name
    }

    /// Risk level of a chunk type: the table's for a known type; for another,
    /// Safe when it is ancillary (decoders may skip it) and High when critical.
    pub fn chunk_risk(chunk_type: &[u8; 4]) -> (r: RiskLevel)
        ensures
            r == chunk_risk_spec(chunk_type@),
    {
        match chunk_info(chunk_type) {
            Some(info) => info.risk,
            None => if chunk_type[0] & 0x20 != 0 {
                RiskLevel::Safe
            } else {
                RiskLevel::High
            },
        }
    }

    /// Description of a chunk type (empty when unknown).
    pub fn chunk_description(chunk_type: &[u8; 4]) -> (r: &'static str)
        ensures
            r@ == chunk_description_spec(chunk_type@),
    {
        match chunk_info(chunk_type) {
            Some(info) => info.description,
            None => {
                proof {
                    reveal_strlit("");
                }
                ""
            },
        }
    }

    /// The field sections of IHDR chunk data (13 bytes) starting at `data_start`.
    pub fn ihdr_children(data_start: usize, data_len: usize) -> (r: Vec<FileSection>)
        requires
            data_start + 13 <= usize::MAX,
        ensures
            views(r@) == ihdr_children_spec(data_start as int, data_len as int),
    {
        if data_len < 13 {
            let r: Vec<FileSection> = Vec::new();
            assert(views(r@) =~= Seq::<SectionView>::empty());
            return r;
        }
        let mut r: Vec<FileSection> = Vec::new();
        r.push(FileSection::new("Width", data_start, data_start + 4, RiskLevel::Critical));
        r.push(FileSection::new("Height", data_start + 4, data_start + 8, RiskLevel::Critical));
        r.push(FileSection::new("Bit Depth", data_start + 8, data_start + 9, RiskLevel::Critical));
        r.push(
            FileSection::new("Color Type", data_start + 9, data_start + 10, RiskLevel::Critical),
        );
        r.push(FileSection::new("Compression", data_start + 10, data_start + 11, RiskLevel::High));
        r.push(
            FileSection::new("Filter Method", data_start + 11, data_start + 12, RiskLevel::High),
        );
        r.push(FileSection::new("Interlace", data_start + 12, data_start + 13, RiskLevel::High));
        assert(views(r@) =~= ihdr_children_spec(data_start as int, data_len as int));
        r
    }

    /// The section of one chunk.
    fn chunk_section(
        data: &[u8],
        chunk_start: usize,
        chunk_type: &[u8; 4],
        data_length: usize,
        is_truncated: bool,
        chunk_end: usize,
    ) -> (r: FileSection)
        requires
            chunk_start + 8 <= chunk_end <= data@.len(),
            data@.len() <= isize::MAX,
            chunk_type@ == data@.subrange(chunk_start + 4, chunk_start + 8),
            is_truncated ==> chunk_end == data@.len(),
            !is_truncated ==> chunk_end == chunk_start + 8 + data_length + 4,
        ensures
            r@ == chunk_section(
                data@,
                chunk_start as int,
                data_length as int,
                is_truncated,
                chunk_end as int,
            ),
    {
        let ghost t = chunk_type@;
        let name = Self::chunk_name(chunk_type);
        let risk = Self::chunk_risk(chunk_type);
        let desc = Self::chunk_description(chunk_type);
        let data_start = chunk_start + 8;
        let mut section = FileSection::named(name, chunk_start, chunk_end, risk);
        if is_truncated {
            let msg = if desc.unicode_len() == 0 {
                owned("(truncated)")
            } else {
                let mut m = owned(desc);
                m.append(" (truncated)");
                m
            };
            section.description = Some(msg);
        } else if desc.unicode_len() != 0 {
            section.description = Some(owned(desc));
        }
        section = section.with_child(
            FileSection::new("Length", chunk_start, chunk_start + 4, RiskLevel::Critical),
        );
        section = section.with_child(
            FileSection::new("Type", chunk_start + 4, chunk_start + 8, RiskLevel::Critical),
        );
        let actual_data_len = if is_truncated {
            chunk_end - data_start
        } else {
            data_length
        };
        let ghost head = section@;
        if actual_data_len > 0 {
            let mut data_section = FileSection::new(
                "Data",
                data_start,
                data_start + actual_data_len,
                risk,
            );
            if tag_eq(chunk_type, 0x49, 0x48, 0x44, 0x52) {
                let kids = Self::ihdr_children(data_start, actual_data_len);
                data_section = data_section.with_children(kids);
            }
            section = section.with_child(data_section);
        }
        let ghost with_data = section@;
        if !is_truncated {
            let crc_start = data_start + data_length;
            section = section.with_child(FileSection::new("CRC", crc_start, crc_start + 4, risk));
        }
        proof {
            let expected = chunk_section(
                data@,
                chunk_start as int,
                data_length as int,
                is_truncated,
                chunk_end as int,
            );
            assert(data@.subrange(chunk_start + 4, chunk_start + 8) == t);
            assert(section@.children =~= expected.children);
        }
        section
    }

}

impl ImageFormat for PngParser {
    /// Whether `data` starts with the PNG signature.
    fn can_parse(&self, data: &[u8]) -> (r: bool)
        ensures
            r == is_png(data@),
    {
        data.len() >= 8 && data[0] == 0x89 && data[1] == 0x50 && data[2] == 0x4E && data[3]
            == 0x47 && data[4] == 0x0D && data[5] == 0x0A && data[6] == 0x1A && data[7] == 0x0A
    }

    /// Parse the chunk structure of a PNG file. CRCs are shown but not
    /// checked, so that broken files can still be viewed and edited.
    fn parse(&self, data: &[u8]) -> (r: Result<Vec<FileSection>, ParseError>)
        ensures
            !is_png(data@) ==> r == Err::<Vec<FileSection>, ParseError>(
                ParseError::InvalidSignature,
            ),
            is_png(data@) ==> r is Ok && views(r->Ok_0@) == png_sections(data@),
    {
        if !self.can_parse(data) {
            return Err(ParseError::InvalidSignature);
        }
        let n = data.len();
        let mut sections: Vec<FileSection> = Vec::new();
        sections.push(
            FileSection::new("PNG Signature", 0, 8, RiskLevel::Critical).with_description(
                "PNG magic bytes",
            ),
        );
        assert(views(sections@) =~= seq![png_signature_section()]);
        let mut pos: usize = 8;
        while pos < n
            invariant
                n == data@.len(),
                n <= isize::MAX,
                views(sections@) + png_from(data@, pos as int) == png_sections(data@),
            ensures
                views(sections@) == png_sections(data@),
            decreases n - pos,
        {
            let ghost before = views(sections@);
            let chunk_start = pos;
            let data_length = match read_u32_be(data, pos) {
                Some(v) => v as usize,
                None => {
                    assert(before + png_from(data@, pos as int) =~= before);
                    break;
                },
            };
            pos += 4;
            let chunk_type = match Self::chunk_type_bytes(data, pos) {
                Some(t) => t,
                None => {
                    assert(before + png_from(data@, chunk_start as int) =~= before);
                    pos = chunk_start;
                    break;
                },
            };
            pos += 4;
            let data_start = pos;
            let chunk_end_expected = match data_start.checked_add(data_length) {
                Some(v) => match v.checked_add(4) {
                    Some(w) => w,
                    None => {
                        assert(before + png_from(data@, chunk_start as int) =~= before);
                        pos = chunk_start;
                        break;
                    },
                },
                None => {
                    assert(before + png_from(data@, chunk_start as int) =~= before);
                    pos = chunk_start;
                    break;
                },
            };
            let is_truncated = chunk_end_expected > n;
            let chunk_end = if is_truncated {
                n
            } else {
                chunk_end_expected
            };
            let section = Self::chunk_section(
                data,
                chunk_start,
                &chunk_type,
                data_length,
                is_truncated,
                chunk_end,
            );
            sections.push(section);
            let is_end = tag_eq(&chunk_type, 0x49, 0x45, 0x4E, 0x44);
            proof {
                let sec = chunk_section(
                    data@,
                    chunk_start as int,
                    data_length as int,
                    is_truncated,
                    chunk_end as int,
                );
                assert(views(sections@) =~= before.push(sec));
            }
            if is_truncated || is_end {
                assert(before + png_from(data@, chunk_start as int) =~= views(sections@));
                assert(views(sections@) + png_from(data@, n as int) =~= views(sections@));
                pos = n;
                break;
            }
            pos = chunk_end;
            assert(before + png_from(data@, chunk_start as int) =~= views(sections@) + png_from(
                data@,
                pos as int,
            ));
        }
        Ok(sections)
    }
}

} // verus!
