//! JPEG file format parser.
//!
//! JPEG structure:
//! - SOI (Start of Image): FF D8
//! - APP segments: metadata (JFIF, EXIF, ...)
//! - DQT: quantization tables; DHT: Huffman tables
//! - SOF: start of frame (image dimensions)
//! - SOS: start of scan, followed by entropy-coded data
//! - EOI (End of Image): FF D9

use vstd::prelude::*;
use super::bytes::{be16, read_u16_be};
use super::traits::{FileSection, ImageFormat, ParseError, RiskLevel, SectionView, described, leaf, views};
use crate::text::owned;

verus! {

/// JPEG format parser.
pub struct JpegParser;

/// Whether `data` starts with FF D8 FF.
pub open spec fn is_jpeg(data: Seq<u8>) -> bool {
    data.len() >= 3 && data[0] == 0xFF && data[1] == 0xD8 && data[2] == 0xFF
}

/// Human-readable name of a marker.
pub open spec fn marker_name_spec(m: u8) -> Seq<char> {
    if m == 0xD8 {
        "SOI (Start of Image)"@
    } else if m == 0xD9 {
        "EOI (End of Image)"@
    } else if m == 0xE0 {
        "APP0 (JFIF)"@
    } else if m == 0xE1 {
        "APP1 (EXIF/XMP)"@
    } else if 0xE2 <= m <= 0xEF {
        "APPn (Application Data)"@
    } else if m == 0xDB {
        "DQT (Quantization Table)"@
    } else if m == 0xC4 {
        "DHT (Huffman Table)"@
    } else if m == 0xC0 {
        "SOF0 (Baseline DCT)"@
    } else if m == 0xC1 {
        "SOF1 (Extended Sequential)"@
    } else if m == 0xC2 {
        "SOF2 (Progressive DCT)"@
    } else if 0xC3 <= m <= 0xCF {
        "SOFn (Start of Frame)"@
    } else if m == 0xDA {
        "SOS (Start of Scan)"@
    } else if m == 0xDD {
        "DRI (Restart Interval)"@
    } else if 0xD0 <= m <= 0xD7 {
        "RSTn (Restart Marker)"@
    } else if m == 0xFE {
        "COM (Comment)"@
    } else {
        "Unknown Marker"@
    }
}

/// Risk level of a marker's segment.
pub open spec fn marker_risk_spec(m: u8) -> RiskLevel {
    if m == 0xD8 || m == 0xD9 {
        RiskLevel::Critical
    } else if m == 0xDB || m == 0xC4 {
        RiskLevel::High
    } else if 0xC0 <= m <= 0xCF {
        RiskLevel::Critical
    } else if m == 0xDA {
        RiskLevel::High
    } else if m == 0xFE {
        RiskLevel::Safe
    } else {
        RiskLevel::Caution
    }
}

/// Description of a marker's segment (empty for most markers).
pub open spec fn marker_description(m: u8) -> Seq<char> {
    if m == 0xE0 {
        "JFIF application data"@
    } else if m == 0xE1 {
        "EXIF metadata or XMP data"@
    } else if m == 0xDB {
        "Quantization tables - affects image quality"@
    } else if m == 0xC4 {
        "Huffman tables - required for decoding"@
    } else if m == 0xC0 {
        "Image dimensions and color components"@
    } else if m == 0xFE {
        "Comment - safe to edit"@
    } else {
        ""@
    }
}

/// The first position at or after `pos` that is not an FF byte.
pub open spec fn skip_ff(data: Seq<u8>, pos: int) -> int
    decreases data.len() - pos,
{
    if 0 <= pos < data.len() && data[pos] == 0xFF {
        skip_ff(data, pos + 1)
    } else {
        pos
    }
}

/// The position of the first FF D9 pair starting at or after `pos`, or the
/// data length when there is none.
pub open spec fn find_eoi(data: Seq<u8>, pos: int) -> int
    decreases data.len() - pos,
{
    if 0 <= pos && pos + 1 < data.len() {
        if data[pos] == 0xFF && data[pos + 1] == 0xD9 {
            pos
        } else {
            find_eoi(data, pos + 1)
        }
    } else {
        data.len() as int
    }
}

pub proof fn lemma_skip_ff(data: Seq<u8>, pos: int)
    requires
        0 <= pos,
    ensures
        pos <= skip_ff(data, pos),
        skip_ff(data, pos) <= data.len() || skip_ff(data, pos) == pos,
        pos < data.len() ==> skip_ff(data, pos) <= data.len(),
        forall|k: int| pos <= k < skip_ff(data, pos) ==> data[k] == 0xFF,
        skip_ff(data, pos) < data.len() ==> data[skip_ff(data, pos)] != 0xFF,
    decreases data.len() - pos,
{
    if 0 <= pos < data.len() && data[pos] == 0xFF {
        lemma_skip_ff(data, pos + 1);
    }
}

pub proof fn lemma_find_eoi(data: Seq<u8>, pos: int)
    requires
        0 <= pos,
    ensures
        pos <= find_eoi(data, pos) || pos > data.len(),
        find_eoi(data, pos) <= data.len(),
    decreases data.len() - pos,
{
    if 0 <= pos && pos + 1 < data.len() {
        if !(data[pos] == 0xFF && data[pos + 1] == 0xD9) {
            lemma_find_eoi(data, pos + 1);
        }
    }
}

/// The SOI section.
pub open spec fn soi_section() -> SectionView {
    described(leaf("SOI (Start of Image)"@, 0, 2, RiskLevel::Critical), "JPEG magic bytes FF D8"@)
}

/// The sections found by scanning markers from `pos` on.
pub open spec fn jpeg_from(data: Seq<u8>, pos: int) -> Seq<SectionView>
    decreases data.len() - pos,
{
    if pos < 0 || pos >= data.len() || data[pos] != 0xFF {
        Seq::empty()
    } else {
        let p = skip_ff(data, pos);
        proof {
            lemma_skip_ff(data, pos);
        }
        if p >= data.len() {
            Seq::empty()
        } else {
            let m = data[p];
            let q = p + 1;
            if m == 0x00 || m == 0xD8 || (0xD0 <= m <= 0xD7) {
                jpeg_from(data, q)
            } else if m == 0xD9 {
                seq![
                    described(
                        leaf("EOI (End of Image)"@, q - 2, q, RiskLevel::Critical),
                        "End of JPEG data"@,
                    ),
                ]
            } else if q + 2 > data.len() {
                Seq::empty()
            } else {
                let end = q + be16(data, q);
                if end > data.len() {
                    Seq::empty()
                } else if m == 0xDA {
                    let ee = find_eoi(data, end);
                    proof {
                        lemma_find_eoi(data, end);
                    }
                    let sos = described(
                        leaf("SOS (Start of Scan)"@, q - 2, end, RiskLevel::High),
                        "Scan header - marks start of compressed data"@,
                    );
                    let entropy = if ee > end {
                        seq![
                            described(
                                leaf("Entropy-Coded Data"@, end, ee, RiskLevel::High),
                                "Compressed image data - editing here creates glitch effects but often corrupts the image"@,
                            ),
                        ]
                    } else {
                        Seq::empty()
                    };
                    seq![sos] + entropy + jpeg_from(data, ee)
                } else {
                    seq![
                        described(
                            leaf(marker_name_spec(m), q - 2, end, marker_risk_spec(m)),
                            marker_description(m),
                        ),
                    ] + jpeg_from(data, end)
                }
            }
        }
    }
}

/// The sections of a JPEG file (one that starts with FF D8 FF).
pub open spec fn jpeg_sections(data: Seq<u8>) -> Seq<SectionView> {
    seq![soi_section()] + jpeg_from(data, 2)
}

impl JpegParser {
    /// Read a big-endian `u16` from `data` at `offset`.
    fn read_u16_be(data: &[u8], offset: usize) -> (r: Option<u16>)
        requires
            offset + 2 <= usize::MAX,
        ensures
            offset + 2 <= data@.len() ==> r == Some(be16(data@, offset as int) as u16),
            offset + 2 > data@.len() ==> r is None,
    {
        read_u16_be(data, offset)
    }

    /// Human-readable name of a marker.
    pub fn marker_name(marker: u8) -> (r: &'static str)
        ensures
            r@ == marker_name_spec(marker),
    {
        if marker == 0xD8 {
            "SOI (Start of Image)"
        } else if marker == 0xD9 {
            "EOI (End of Image)"
        } else if marker == 0xE0 {
            "APP0 (JFIF)"
        } else if marker == 0xE1 {
            "APP1 (EXIF/XMP)"
        } else if 0xE2 <= marker && marker <= 0xEF {
            "APPn (Application Data)"
        } else if marker == 0xDB {
            "DQT (Quantization Table)"
        } else if marker == 0xC4 {
            "DHT (Huffman Table)"
        } else if marker == 0xC0 {
            "SOF0 (Baseline DCT)"
        } else if marker == 0xC1 {
            "SOF1 (Extended Sequential)"
        } else if marker == 0xC2 {
            "SOF2 (Progressive DCT)"
        } else if 0xC3 <= marker && marker <= 0xCF {
            "SOFn (Start of Frame)"
        } else if marker == 0xDA {
            "SOS (Start of Scan)"
        } else if marker == 0xDD {
            "DRI (Restart Interval)"
        } else if 0xD0 <= marker && marker <= 0xD7 {
            "RSTn (Restart Marker)"
        } else if marker == 0xFE {
            "COM (Comment)"
        } else {
            "Unknown Marker"
        }
    }

    /// Risk level of a marker's segment.
    pub fn marker_risk(marker: u8) -> (r: RiskLevel)
        ensures
            r == marker_risk_spec(marker),
    {
        if marker == 0xD8 || marker == 0xD9 {
            RiskLevel::Critical
        } else if marker == 0xDB || marker == 0xC4 {
            RiskLevel::High
        } else if 0xC0 <= marker && marker <= 0xCF {
            RiskLevel::Critical
        } else if marker == 0xDA {
            RiskLevel::High
        } else if marker == 0xFE {
            RiskLevel::Safe
        } else {
            RiskLevel::Caution
        }
    }

    fn marker_desc(marker: u8) -> (r: &'static str)
        ensures
            r@ == marker_description(marker),
    {
        if marker == 0xE0 {
            "JFIF application data"
        } else if marker == 0xE1 {
            "EXIF metadata or XMP data"
        } else if marker == 0xDB {
            "Quantization tables - affects image quality"
        } else if marker == 0xC4 {
            "Huffman tables - required for decoding"
        } else if marker == 0xC0 {
            "Image dimensions and color components"
        } else if marker == 0xFE {
            "Comment - safe to edit"
        } else {
            ""
        }
    }

    /// The format's name.
    pub fn name(&self) -> (r: &'static str)
        ensures
            r@ == "JPEG"@,
    {
        "JPEG"
    }

}

impl ImageFormat for JpegParser {
    /// Whether `data` starts with FF D8 FF.
    fn can_parse(&self, data: &[u8]) -> (r: bool)
        ensures
            r == is_jpeg(data@),
    {
        data.len() >= 3 && data[0] == 0xFF && data[1] == 0xD8 && data[2] == 0xFF
    }

    /// Parse the marker structure of a JPEG file.
    fn parse(&self, data: &[u8]) -> (r: Result<Vec<FileSection>, ParseError>)
        ensures
            !is_jpeg(data@) ==> r == Err::<Vec<FileSection>, ParseError>(
                ParseError::InvalidSignature,
            ),
            is_jpeg(data@) ==> r is Ok && views(r->Ok_0@) == jpeg_sections(data@),
    {
        if !self.can_parse(data) {
            return Err(ParseError::InvalidSignature);
        }
        let n = data.len();
        let mut sections: Vec<FileSection> = Vec::new();
        sections.push(
            FileSection::new("SOI (Start of Image)", 0, 2, RiskLevel::Critical).with_description(
                "JPEG magic bytes FF D8",
            ),
        );
        let mut pos: usize = 2;
        proof {
            assert(views(sections@) =~= seq![soi_section()]);
        }
        while pos < n
            invariant
                n == data@.len(),
                n <= isize::MAX,
                2 <= pos,
                views(sections@) + jpeg_from(data@, pos as int) == jpeg_sections(data@),
            ensures
                n <= pos,
            decreases n - pos,
        {
            let ghost before = views(sections@);
            let ghost start_pos = pos as int;
            if data[pos] != 0xFF {
                proof {
                    assert(jpeg_from(data@, start_pos) =~= Seq::<SectionView>::empty());
                    assert(views(sections@) + jpeg_from(data@, n as int) =~= views(sections@));
                }
                pos = n;
                break;
            }
            proof {
                lemma_skip_ff(data@, pos as int);
            }
            while pos < n && data[pos] == 0xFF
                invariant
                    n == data@.len(),
                    start_pos <= pos <= n,
                    skip_ff(data@, start_pos) == skip_ff(data@, pos as int),
                decreases n - pos,
            {
                pos += 1;
            }
            if pos >= n {
                break;
            }
            let marker = data[pos];
            pos += 1;
            if marker == 0x00 || marker == 0xD8 || (0xD0 <= marker && marker <= 0xD7) {
                continue;
            }
            if marker == 0xD9 {
                sections.push(
                    FileSection::new("EOI (End of Image)", pos - 2, pos, RiskLevel::Critical).with_description(
                        "End of JPEG data",
                    ),
                );
                proof {
                    assert(views(sections@) =~= before.push(
                        described(
                            leaf("EOI (End of Image)"@, pos - 2, pos as int, RiskLevel::Critical),
                            "End of JPEG data"@,
                        ),
                    ));
                    assert(views(sections@) + jpeg_from(data@, n as int) =~= views(sections@));
                }
                pos = n;
                break;
            }
            let segment_len = match Self::read_u16_be(data, pos) {
                Some(v) => v as usize,
                None => {
                    proof {
                        assert(jpeg_from(data@, start_pos) =~= Seq::<SectionView>::empty());
                        assert(views(sections@) + jpeg_from(data@, n as int) =~= views(sections@));
                    }
                    pos = n;
                    break;
                },
            };
            proof {
                assert(segment_len == be16(data@, pos as int));
            }
            let segment_start = pos - 2;
            let segment_end = pos + segment_len;
            if segment_end > n {
                proof {
                    assert(jpeg_from(data@, start_pos) =~= Seq::<SectionView>::empty());
                    assert(views(sections@) + jpeg_from(data@, n as int) =~= views(sections@));
                }
                pos = n;
                break;
            }
            if marker == 0xDA {
                sections.push(
                    FileSection::new(
                        "SOS (Start of Scan)",
                        segment_start,
                        segment_end,
                        RiskLevel::High,
                    ).with_description("Scan header - marks start of compressed data"),
                );
                pos = segment_end;
                let entropy_start = pos;
                let mut i = pos;
                proof {
                    lemma_find_eoi(data@, pos as int);
                }
                while i + 1 < n && !(data[i] == 0xFF && data[i + 1] == 0xD9)
                    invariant
                        n == data@.len(),
                        n <= isize::MAX,
                        entropy_start <= i <= n,
                        find_eoi(data@, entropy_start as int) == find_eoi(data@, i as int),
                    decreases n - i,
                {
                    i += 1;
                }
                let entropy_end = if i + 1 < n {
                    i
                } else {
                    n
                };
                proof {
                    assert(entropy_end == find_eoi(data@, entropy_start as int));
                }
                if entropy_end > entropy_start {
                    sections.push(
                        FileSection::new(
                            "Entropy-Coded Data",
                            entropy_start,
                            entropy_end,
                            RiskLevel::High,
                        ).with_description(
                            "Compressed image data - editing here creates glitch effects but often corrupts the image",
                        ),
                    );
                }
                proof {
                    let sos = described(
                        leaf("SOS (Start of Scan)"@, segment_start as int, segment_end as int, RiskLevel::High),
                        "Scan header - marks start of compressed data"@,
                    );
                    let entropy = if entropy_end > entropy_start {
                        seq![
                            described(
                                leaf("Entropy-Coded Data"@, entropy_start as int, entropy_end as int, RiskLevel::High),
                                "Compressed image data - editing here creates glitch effects but often corrupts the image"@,
                            ),
                        ]
                    } else {
                        Seq::empty()
                    };
                    assert(views(sections@) =~= before + seq![sos] + entropy);
                    assert(jpeg_from(data@, start_pos) == seq![sos] + entropy + jpeg_from(
                        data@,
                        entropy_end as int,
                    ));
                    assert(before + (seq![sos] + entropy + jpeg_from(data@, entropy_end as int))
                        =~= views(sections@) + jpeg_from(data@, entropy_end as int));
                }
                pos = entropy_end;
            } else {
                let name = Self::marker_name(marker);
                let risk = Self::marker_risk(marker);
                let mut section = FileSection::new(name, segment_start, segment_end, risk);
                section.description = Some(owned(Self::marker_desc(marker)));
                sections.push(section);
                proof {
                    let s = described(
                        leaf(marker_name_spec(marker), segment_start as int, segment_end as int, marker_risk_spec(marker)),
                        marker_description(marker),
                    );
                    assert(sections@.last()@ == s);
                    assert(views(sections@) =~= before.push(s));
                    assert(before + (seq![s] + jpeg_from(data@, segment_end as int)) =~= views(
                        sections@,
                    ) + jpeg_from(data@, segment_end as int));
                }
                pos = segment_end;
            }
        }
        proof {
            assert(views(sections@) + jpeg_from(data@, pos as int) =~= views(sections@));
        }
        Ok(sections)
    }
}

} // verus!
