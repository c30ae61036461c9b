//! BMP file format parser.
//!
//! BMP structure:
//! - File Header (14 bytes): signature, file size, reserved, pixel data offset
//! - DIB Header (variable): image dimensions, color depth, compression, ...
//! - Optional Color Table: palette for indexed color images
//! - Pixel Data: the image pixels

use vstd::prelude::*;
use super::bytes::{le32, read_u32_le};
use super::traits::{
    FileSection,
    ImageFormat,
    ParseError,
    RiskLevel,
    SectionView,
    described,
    leaf,
    views,
    with_kid,
};
use crate::text::owned;

verus! {

/// BMP format parser.
pub struct BmpParser;

/// Whether `data` starts with the BMP signature "BM".
pub open spec fn is_bmp(data: Seq<u8>) -> bool {
    data.len() >= 2 && data[0] == 0x42 && data[1] == 0x4D
}

/// The file header section (14 bytes).
pub open spec fn bmp_file_header() -> SectionView {
    with_kid(
        with_kid(
            with_kid(
                with_kid(
                    described(
                        leaf("File Header"@, 0, 14, RiskLevel::Critical),
                        "BMP file header - editing will likely corrupt the file"@,
                    ),
                    described(leaf("Signature"@, 0, 2, RiskLevel::Critical), "'BM' magic bytes"@),
                ),
                leaf("File Size"@, 2, 6, RiskLevel::Critical),
            ),
            described(leaf("Reserved"@, 6, 10, RiskLevel::Safe), "Reserved bytes, usually zero"@),
        ),
        leaf("Pixel Data Offset"@, 10, 14, RiskLevel::Critical),
    )
}

/// The name of a DIB header of the given size.
pub open spec fn dib_header_name(size: int) -> Seq<char> {
    if size == 12 {
        "BITMAPCOREHEADER"@
    } else if size == 40 {
        "BITMAPINFOHEADER"@
    } else if size == 52 {
        "BITMAPV2INFOHEADER"@
    } else if size == 56 {
        "BITMAPV3INFOHEADER"@
    } else if size == 108 {
        "BITMAPV4HEADER"@
    } else if size == 124 {
        "BITMAPV5HEADER"@
    } else {
        "DIB Header"@
    }
}

/// The children of a DIB header of at least 40 bytes.
pub open spec fn dib_children() -> Seq<SectionView> {
    seq![
        leaf("Header Size"@, 14, 18, RiskLevel::Critical),
        leaf("Image Width"@, 18, 22, RiskLevel::Critical),
        leaf("Image Height"@, 22, 26, RiskLevel::Critical),
        leaf("Color Planes"@, 26, 28, RiskLevel::Critical),
        leaf("Bits Per Pixel"@, 28, 30, RiskLevel::Critical),
        leaf("Compression"@, 30, 34, RiskLevel::Critical),
        leaf("Image Size"@, 34, 38, RiskLevel::Caution),
        leaf("X Pixels Per Meter"@, 38, 42, RiskLevel::Safe),
        leaf("Y Pixels Per Meter"@, 42, 46, RiskLevel::Safe),
        leaf("Colors Used"@, 46, 50, RiskLevel::Caution),
        leaf("Important Colors"@, 50, 54, RiskLevel::Safe),
    ]
}

/// The DIB header section for a header of `size` bytes.
pub open spec fn dib_section(size: int) -> SectionView {
    SectionView {
        children: if size >= 40 {
            dib_children()
        } else {
            Seq::empty()
        },
        ..described(
            leaf("DIB Header ("@ + dib_header_name(size) + ")"@, 14, 14 + size, RiskLevel::Critical),
            "Image metadata - editing will likely corrupt the image"@,
        )
    }
}

/// The sections of a BMP file (one that starts with "BM").
pub open spec fn bmp_sections(data: Seq<u8>) -> Seq<SectionView> {
    if data.len() < 18 {
        if data.len() < 14 {
            Seq::empty()
        } else {
            seq![bmp_file_header()]
        }
    } else {
        let pixel_offset = le32(data, 10);
        let size = le32(data, 14);
        let dib_end = 14 + size;
        if dib_end > data.len() {
            seq![bmp_file_header()]
        } else {
            let base = seq![bmp_file_header(), dib_section(size)];
            let with_table = if dib_end < pixel_offset {
                base.push(
                    described(
                        leaf("Color Table"@, dib_end, pixel_offset, RiskLevel::Caution),
                        "Palette for indexed color images - editing changes colors"@,
                    ),
                )
            } else {
                base
            };
            if pixel_offset < data.len() {
                with_table.push(
                    described(
                        leaf("Pixel Data"@, pixel_offset, data.len() as int, RiskLevel::Safe),
                        "Image pixel data - the fun part to glitch!"@,
                    ),
                )
            } else {
                with_table
            }
        }
    }
}

impl BmpParser {
    /// Read a little-endian `u32` from `data` at `offset`.
    fn read_u32(data: &[u8], offset: usize) -> (r: Option<u32>)
        requires
            offset + 4 <= usize::MAX,
        ensures
            offset + 4 <= data@.len() ==> r == Some(le32(data@, offset as int) as u32),
            offset + 4 > data@.len() ==> r is None,
    {
        read_u32_le(data, offset)
    }

    fn file_header() -> (r: FileSection)
        ensures
            r@ == bmp_file_header(),
    {
        FileSection::new("File Header", 0, 14, RiskLevel::Critical).with_description(
            "BMP file header - editing will likely corrupt the file",
        ).with_child(
            FileSection::new("Signature", 0, 2, RiskLevel::Critical).with_description(
                "'BM' magic bytes",
            ),
        ).with_child(FileSection::new("File Size", 2, 6, RiskLevel::Critical)).with_child(
            FileSection::new("Reserved", 6, 10, RiskLevel::Safe).with_description(
                "Reserved bytes, usually zero",
            ),
        ).with_child(FileSection::new("Pixel Data Offset", 10, 14, RiskLevel::Critical))
    }

    fn dib_header(size: usize, end: usize) -> (r: FileSection)
        requires
            end == 14 + size,
        ensures
            r@ == dib_section(size as int),
    {
        let dib_name = if size == 12 {
            "BITMAPCOREHEADER"
        } else if size == 40 {
            "BITMAPINFOHEADER"
        } else if size == 52 {
            "BITMAPV2INFOHEADER"
        } else if size == 56 {
            "BITMAPV3INFOHEADER"
        } else if size == 108 {
            "BITMAPV4HEADER"
        } else if size == 124 {
            "BITMAPV5HEADER"
        } else {
            "DIB Header"
        };
        let mut name = owned("DIB Header (");
        name.append(dib_name);
        name.append(")");
        let mut dib = FileSection::named(name, 14, end, RiskLevel::Critical).with_description(
            "Image metadata - editing will likely corrupt the image",
        );
        if size >= 40 {
            dib = dib.with_child(FileSection::new("Header Size", 14, 18, RiskLevel::Critical));
            dib = dib.with_child(FileSection::new("Image Width", 18, 22, RiskLevel::Critical));
            dib = dib.with_child(FileSection::new("Image Height", 22, 26, RiskLevel::Critical));
            dib = dib.with_child(FileSection::new("Color Planes", 26, 28, RiskLevel::Critical));
            dib = dib.with_child(FileSection::new("Bits Per Pixel", 28, 30, RiskLevel::Critical));
            dib = dib.with_child(FileSection::new("Compression", 30, 34, RiskLevel::Critical));
            dib = dib.with_child(FileSection::new("Image Size", 34, 38, RiskLevel::Caution));
            dib = dib.with_child(FileSection::new("X Pixels Per Meter", 38, 42, RiskLevel::Safe));
            dib = dib.with_child(FileSection::new("Y Pixels Per Meter", 42, 46, RiskLevel::Safe));
            dib = dib.with_child(FileSection::new("Colors Used", 46, 50, RiskLevel::Caution));
            dib = dib.with_child(FileSection::new("Important Colors", 50, 54, RiskLevel::Safe));
            assert(dib@.children =~= dib_children());
        }
        dib
    }

}

impl ImageFormat for BmpParser {
    /// Whether `data` starts with "BM".
    fn can_parse(&self, data: &[u8]) -> (r: bool)
        ensures
            r == is_bmp(data@),
    {
        data.len() >= 2 && data[0] == 0x42 && data[1] == 0x4D
    }

    /// Parse the structure of a BMP file.
    fn parse(&self, data: &[u8]) -> (r: Result<Vec<FileSection>, ParseError>)
        ensures
            !is_bmp(data@) ==> r == Err::<Vec<FileSection>, ParseError>(ParseError::InvalidSignature),
            is_bmp(data@) ==> r is Ok && views(r->Ok_0@) == bmp_sections(data@),
    {
        if !self.can_parse(data) {
            return Err(ParseError::InvalidSignature);
        }
        let mut sections: Vec<FileSection> = Vec::new();
        if data.len() < 14 {
            assert(views(sections@) =~= bmp_sections(data@));
            return Ok(sections);
        }
        sections.push(Self::file_header());
        let pixel_offset = match Self::read_u32(data, 10) {
            Some(v) => v as usize,
            None => {
                return Ok(sections);
            },
        };
        if data.len() < 18 {
            assert(views(sections@) =~= bmp_sections(data@));
            return Ok(sections);
        }
        let dib_header_size = match Self::read_u32(data, 14) {
            Some(v) => v as usize,
            None => {
                return Ok(sections);
            },
        };
        if dib_header_size > data.len() - 14 {
            assert(views(sections@) =~= bmp_sections(data@));
            return Ok(sections);
        }
        let dib_header_end = 14 + dib_header_size;
        sections.push(Self::dib_header(dib_header_size, dib_header_end));
        let ghost base = views(sections@);
        assert(base =~= seq![bmp_file_header(), dib_section(dib_header_size as int)]);
        if dib_header_end < pixel_offset {
            sections.push(
                FileSection::new(
                    "Color Table",
                    dib_header_end,
                    pixel_offset,
                    RiskLevel::Caution,
                ).with_description("Palette for indexed color images - editing changes colors"),
            );
        }
        if pixel_offset < data.len() {
            sections.push(
                FileSection::new(
                    "Pixel Data",
                    pixel_offset,
                    data.len(),
                    RiskLevel::Safe,
                ).with_description("Image pixel data - the fun part to glitch!"),
            );
        }
        assert(views(sections@) =~= bmp_sections(data@));
        Ok(sections)
    }
}

} // verus!
