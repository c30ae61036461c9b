//! Properties of the format parsers stated over the bytes of a file.

use vstd::prelude::*;
use vstd::arithmetic::power2::pow2;
use super::bmp::bmp_sections;
use super::bytes::{be16, le32};
use super::gif::{GifScan, flush, frame_name, gif_blocks, gif_sections, gif_start, image_end, image_sections, is_gif, lemma_image_block};
use super::jpeg::{find_eoi, jpeg_from, jpeg_sections, marker_name_spec, marker_risk_spec, skip_ff};
use super::traits::{RiskLevel, SectionView};

verus! {

/// An Image Descriptor whose packed byte has bit 7 set is followed by a Local
/// Color Table of 3 × 2^(N+1) bytes, N being the packed byte's low three
/// bits; the image data starts right after the table.
pub proof fn law_gif_local_color_table(data: Seq<u8>, pos: int)
    requires
        0 <= pos,
        pos + 10 <= data.len(),
        data[pos + 9] & 0x80 != 0,
        pos + 10 + 3 * pow2(((data[pos + 9] & 0x07) + 1) as nat) <= data.len(),
    ensures
        ({
            let t = pos + 10 + 3 * pow2(((data[pos + 9] & 0x07) + 1) as nat);
            let s = image_sections(data, pos);
            &&& s[0].name == "Image Descriptor"@
            &&& s[0].start == pos && s[0].end == pos + 10
            &&& s[1].name == "Local Color Table"@
            &&& s[1].start == pos + 10 && s[1].end == t
            &&& s[1].risk == RiskLevel::Safe
            &&& t < data.len() ==> s.len() == 3 && s[2].name == "Image Data"@ && s[2].start == t
            &&& t == data.len() ==> s.len() == 2
        }),
{
}

/// An Image Descriptor whose packed byte has bit 7 clear has no Local Color
/// Table, whatever its other bits: the image data starts right after the
/// descriptor.
pub proof fn law_gif_no_local_color_table(data: Seq<u8>, pos: int)
    requires
        0 <= pos,
        pos + 10 <= data.len(),
        data[pos + 9] & 0x80 == 0,
    ensures
        ({
            let s = image_sections(data, pos);
            &&& forall|i: int| 0 <= i < s.len() ==> #[trigger] s[i].name != "Local Color Table"@
            &&& s[0].name == "Image Descriptor"@
            &&& pos + 10 < data.len() ==> s.len() == 2 && s[1].name == "Image Data"@ && s[1].start
                == pos + 10
            &&& pos + 10 == data.len() ==> s.len() == 1
        }),
{
    reveal_strlit("Local Color Table");
    reveal_strlit("Image Descriptor");
    reveal_strlit("Image Data");
    let s = image_sections(data, pos);
    assert forall|i: int| 0 <= i < s.len() implies #[trigger] s[i].name != "Local Color Table"@ by {
        assert(s[i].name.len() != "Local Color Table"@.len());
    }
}

/// The first position at or after `k`, up to `e`, holding FF D9 is `e` when
/// no earlier one does.
proof fn lemma_first_eoi(data: Seq<u8>, k: int, e: int)
    requires
        0 <= k <= e,
        e + 1 < data.len(),
        data[e] == 0xFF && data[e + 1] == 0xD9,
        forall|j: int| k <= j < e ==> !(#[trigger] data[j] == 0xFF && data[j + 1] == 0xD9),
    ensures
        find_eoi(data, k) == e,
    decreases e - k,
{
    if k < e {
        lemma_first_eoi(data, k + 1, e);
    }
}

/// A Start of Scan segment at `pos` is followed by the entropy-coded data up
/// to the first FF D9 pair after the segment, and that pair is the End of
/// Image section.
pub proof fn law_jpeg_scan_runs_to_eoi(data: Seq<u8>, pos: int, e: int)
    requires
        0 <= pos,
        pos + 4 <= data.len(),
        data[pos] == 0xFF,
        data[pos + 1] == 0xDA,
        pos + 2 + be16(data, pos + 2) <= e,
        e + 1 < data.len(),
        data[e] == 0xFF && data[e + 1] == 0xD9,
        forall|j: int|
            pos + 2 + be16(data, pos + 2) <= j < e ==> !(#[trigger] data[j] == 0xFF && data[j + 1]
                == 0xD9),
    ensures
        ({
            let end = pos + 2 + be16(data, pos + 2);
            let s = jpeg_from(data, pos);
            &&& s[0].name == "SOS (Start of Scan)"@
            &&& s[0].start == pos && s[0].end == end
            &&& e > end ==> {
                &&& s.len() == 3
                &&& s[1].name == "Entropy-Coded Data"@
                &&& s[1].start == end && s[1].end == e
                &&& s[2].name == "EOI (End of Image)"@
                &&& s[2].start == e && s[2].end == e + 2
                &&& s[2].risk == RiskLevel::Critical
            }
            &&& e == end ==> {
                &&& s.len() == 2
                &&& s[1].name == "EOI (End of Image)"@
                &&& s[1].start == e && s[1].end == e + 2
                &&& s[1].risk == RiskLevel::Critical
            }
        }),
{
    let end = pos + 2 + be16(data, pos + 2);
    assert(skip_ff(data, pos + 1) == pos + 1);
    assert(skip_ff(data, pos) == pos + 1);
    lemma_first_eoi(data, end, e);
    assert(skip_ff(data, e + 1) == e + 1);
    assert(skip_ff(data, e) == e + 1);
    assert(jpeg_from(data, e).len() == 1);
}

/// A BMP whose DIB header ends before the pixel data offset has a Color
/// Table spanning the bytes between them; one whose pixel data starts at or
/// before the end of the DIB header has none.
pub proof fn law_bmp_color_table(data: Seq<u8>)
    requires
        data.len() >= 18,
        14 + le32(data, 14) <= data.len(),
    ensures
        ({
            let dib_end = 14 + le32(data, 14);
            let pixel_offset = le32(data, 10);
            let s = bmp_sections(data);
            &&& dib_end < pixel_offset ==> {
                &&& s[2].name == "Color Table"@
                &&& s[2].start == dib_end && s[2].end == pixel_offset
                &&& s[2].risk == RiskLevel::Caution
            }
            &&& pixel_offset <= dib_end ==> forall|i: int|
                0 <= i < s.len() ==> #[trigger] s[i].name != "Color Table"@
        }),
{
    reveal_strlit("Color Table");
    reveal_strlit("File Header");
    reveal_strlit("DIB Header (");
    reveal_strlit("Pixel Data");
    let s = bmp_sections(data);
    assert forall|i: int| 0 <= i < s.len() && le32(data, 10) <= 14 + le32(data, 14) implies #[trigger] s[i].name
        != "Color Table"@ by {
        assert(s[i].name[0] != "Color Table"@[0]);
    }
}

/// A GIF without a global color table whose first block is an image with no
/// Graphics Control Extension, followed by the trailer, has the header, the
/// screen descriptor, one frame holding exactly the image block's sections,
/// and the trailer.
pub proof fn law_gif_single_frame(data: Seq<u8>)
    requires
        is_gif(data),
        data.len() > 13,
        data[10] & 0x80 == 0,
        data[13] == 0x2C,
        image_end(data, 13) < data.len(),
        data[image_end(data, 13)] == 0x3B,
    ensures
        ({
            let s = gif_sections(data);
            let e = image_end(data, 13);
            &&& s.len() == 4
            &&& s[0].name == "Header"@ && s[0].start == 0 && s[0].end == 6
            &&& s[1].name == "Logical Screen Descriptor"@ && s[1].start == 6 && s[1].end == 13
            &&& s[2].name == "Frame 1"@
            &&& s[2].start == 13 && s[2].end == e
            &&& s[2].children == image_sections(data, 13)
            &&& s[3].name == "Trailer"@ && s[3].start == e && s[3].end == e + 1
        }),
{
    reveal_strlit("Graphics Control Extension");
    reveal_strlit("Image Descriptor");
    reveal_strlit("Local Color Table");
    reveal_strlit("Image Data");
    reveal_strlit("Frame 1");
    reveal_strlit("Frame ");
    lemma_image_block(data, 13);
    let kids = image_sections(data, 13);
    assert forall|i: int| 0 <= i < kids.len() implies kids[i].name
        != "Graphics Control Extension"@ by {
        assert(kids[i].name.len() != "Graphics Control Extension"@.len());
    }
    assert(!super::gif::has_gce(Seq::<SectionView>::empty() + kids));
    assert(Seq::<SectionView>::empty() + kids =~= kids);
    assert(super::gif::frame_name(1) =~= "Frame 1"@);
    let e = image_end(data, 13);
    let s0 = gif_start(data);
    assert(s0.pos == 13);
    assert(s0.kids.len() == 0);
    let g = GifScan { kids: s0.kids + kids, start: Some(13int), pos: e, ..s0 };
    assert(g.kids =~= kids);
    let f = flush(g, e);
    let s1 = GifScan { start: None, ..f };
    assert(f.out == s0.out.push(
        SectionView {
            name: frame_name(1),
            start: 13,
            end: kids.last().end,
            risk: RiskLevel::Caution,
            description: None,
            children: kids,
        },
    ));
    assert(gif_blocks(data, s0) == gif_blocks(data, s1));
    let s2 = gif_blocks(data, s1);
    assert(s1.pos == e && s1.kids.len() == 0);
    assert(flush(s1, e) == s1);
    assert(s2.out == s1.out.push(super::gif::trailer_section(e)));
    assert(s2.kids.len() == 0);
    assert(flush(s2, s2.pos) == s2);
}

/// A marker segment other than a scan, a restart, SOI or EOI takes its two
/// marker bytes and the length its two length bytes give; the scan then goes
/// on right after it.
pub proof fn law_jpeg_segment(data: Seq<u8>, pos: int)
    requires
        0 <= pos,
        pos + 4 <= data.len(),
        data[pos] == 0xFF,
        data[pos + 1] != 0xFF && data[pos + 1] != 0x00 && data[pos + 1] != 0xD8
            && data[pos + 1] != 0xD9 && data[pos + 1] != 0xDA && !(0xD0 <= data[pos + 1] <= 0xD7),
        pos + 2 + be16(data, pos + 2) <= data.len(),
    ensures
        ({
            let s = jpeg_from(data, pos);
            let end = pos + 2 + be16(data, pos + 2);
            &&& s.len() >= 1
            &&& s[0].name == marker_name_spec(data[pos + 1])
            &&& s[0].risk == marker_risk_spec(data[pos + 1])
            &&& s[0].start == pos && s[0].end == end
            &&& s.drop_first() == jpeg_from(data, end)
        }),
{
    assert(skip_ff(data, pos + 1) == pos + 1);
    assert(skip_ff(data, pos) == pos + 1);
    let s = jpeg_from(data, pos);
    let end = pos + 2 + be16(data, pos + 2);
    assert(s.drop_first() =~= jpeg_from(data, end));
}

/// A BMP keeps its 14-byte file header first and its DIB header, as long as
/// the size field says, second; the pixel data runs from the pixel data
/// offset to the end of the file when that offset is inside it.
pub proof fn law_bmp_headers_and_pixels(data: Seq<u8>)
    requires
        data.len() >= 18,
        14 + le32(data, 14) <= data.len(),
    ensures
        ({
            let dib_end = 14 + le32(data, 14);
            let pixel_offset = le32(data, 10);
            let s = bmp_sections(data);
            &&& s[0].name == "File Header"@ && s[0].start == 0 && s[0].end == 14
            &&& s[1].start == 14 && s[1].end == dib_end
            &&& pixel_offset < data.len() ==> {
                &&& s.last().name == "Pixel Data"@
                &&& s.last().start == pixel_offset
                &&& s.last().end == data.len()
            }
            &&& pixel_offset >= data.len() ==> s.len() == if dib_end < pixel_offset {
                3int
            } else {
                2int
            }
        }),
{
}

/// Scanning blocks only appends sections: those already emitted stay, in
/// place.
proof fn lemma_gif_blocks_keeps_out(data: Seq<u8>, s: GifScan)
    ensures
        s.out.len() <= gif_blocks(data, s).out.len(),
        forall|i: int| 0 <= i < s.out.len() ==> #[trigger] gif_blocks(data, s).out[i] == s.out[i],
    decreases data.len() - s.pos,
{
    let pos = s.pos;
    if pos < 0 || pos >= data.len() {
    } else if data[pos] == 0x21 {
        if pos + 1 < data.len() {
            let label = data[pos + 1];
            if label == 0xF9 {
                let f = flush(s, pos);
                let n = GifScan {
                    kids: f.kids.push(super::gif::gce_section(data, pos)),
                    start: Some(pos),
                    pos: super::gif::gce_end(data, pos),
                    ..f
                };
                lemma_gif_blocks_keeps_out(data, n);
            } else if label == 0xFE {
                super::gif::lemma_sub_blocks_end(data, pos + 2);
                let n = GifScan {
                    out: s.out.push(super::gif::comment_section(data, pos)),
                    pos: super::gif::comment_end(data, pos),
                    ..s
                };
                lemma_gif_blocks_keeps_out(data, n);
            } else if label == 0xFF {
                super::gif::lemma_sub_blocks_end(data, super::gif::after_fixed(data, pos, 14));
                let n = GifScan {
                    out: s.out.push(super::gif::application_section(data, pos)),
                    pos: super::gif::application_end(data, pos),
                    ..s
                };
                lemma_gif_blocks_keeps_out(data, n);
            } else if label == 0x01 {
                super::gif::lemma_sub_blocks_end(data, super::gif::after_fixed(data, pos, 15));
                let n = GifScan {
                    kids: s.kids.push(super::gif::plain_text_section(data, pos)),
                    pos: super::gif::plain_text_end(data, pos),
                    ..s
                };
                lemma_gif_blocks_keeps_out(data, n);
            } else {
                super::gif::lemma_sub_blocks_end(data, pos + 2);
                let n = GifScan {
                    out: s.out.push(
                        super::traits::leaf(
                            super::gif::unknown_extension_name(label),
                            pos,
                            super::gif::unknown_extension_end(data, pos),
                            RiskLevel::Caution,
                        ),
                    ),
                    pos: super::gif::unknown_extension_end(data, pos),
                    ..s
                };
                lemma_gif_blocks_keeps_out(data, n);
            }
        }
    } else if data[pos] == 0x2C {
        lemma_image_block(data, pos);
        let g = GifScan {
            kids: s.kids + image_sections(data, pos),
            start: if s.start is None {
                Some(pos)
            } else {
                s.start
            },
            pos: image_end(data, pos),
            ..s
        };
        if super::gif::has_gce(g.kids) {
            lemma_gif_blocks_keeps_out(data, g);
        } else {
            lemma_gif_blocks_keeps_out(data, GifScan { start: None, ..flush(g, g.pos) });
        }
    }
}

/// Every GIF whose screen descriptor is complete starts with its header and
/// its Logical Screen Descriptor; when the packed byte of the latter has bit 7
/// set, a Global Color Table of 3 × 2^(N+1) bytes (N its low three bits)
/// follows at offset 13.
pub proof fn law_gif_header_and_global_color_table(data: Seq<u8>)
    requires
        data.len() >= 13,
    ensures
        ({
            let s = gif_sections(data);
            let t = 13 + 3 * pow2(((data[10] & 0x07) + 1) as nat);
            &&& s.len() >= 2
            &&& s[0].name == "Header"@ && s[0].start == 0 && s[0].end == 6
            &&& s[1].name == "Logical Screen Descriptor"@ && s[1].start == 6 && s[1].end == 13
            &&& (data[10] & 0x80 != 0 && t <= data.len()) ==> {
                &&& s.len() >= 3
                &&& s[2].name == "Global Color Table"@
                &&& s[2].start == 13 && s[2].end == t
                &&& s[2].risk == RiskLevel::Safe
            }
        }),
{
    let s0 = gif_start(data);
    lemma_gif_blocks_keeps_out(data, s0);
    let b = gif_blocks(data, s0);
    assert(b.out.len() >= s0.out.len());
    assert(b.out[0] == s0.out[0]);
    assert(b.out[1] == s0.out[1]);
    if data[10] & 0x80 != 0 {
        assert(b.out[2] == s0.out[2]);
    }
}

/// A JPEG's sections start with SOI over its first two bytes; the marker scan
/// starts right after it. The scan stops at a byte that is not FF, skips fill
/// bytes (FF FF), passes over stand-alone markers (FF 00, FF D8 and the
/// restart markers FF D0 to FF D7), and ends with EOI at FF D9.
pub proof fn law_jpeg_marker_scan(data: Seq<u8>, pos: int)
    requires
        0 <= pos,
    ensures
        jpeg_sections(data)[0].name == "SOI (Start of Image)"@,
        jpeg_sections(data)[0].start == 0 && jpeg_sections(data)[0].end == 2,
        jpeg_sections(data)[0].risk == RiskLevel::Critical,
        jpeg_sections(data).drop_first() == jpeg_from(data, 2),
        (pos < data.len() && data[pos] != 0xFF) ==> jpeg_from(data, pos).len() == 0,
        (pos + 1 < data.len() && data[pos] == 0xFF && data[pos + 1] == 0xFF) ==> jpeg_from(data, pos)
            == jpeg_from(data, pos + 1),
        (pos + 1 < data.len() && data[pos] == 0xFF && (data[pos + 1] == 0x00 || data[pos + 1] == 0xD8
            || (0xD0 <= data[pos + 1] <= 0xD7))) ==> jpeg_from(data, pos) == jpeg_from(data, pos + 2),
        (pos + 1 < data.len() && data[pos] == 0xFF && data[pos + 1] == 0xD9) ==> {
            let s = jpeg_from(data, pos);
            &&& s.len() == 1
            &&& s[0].name == "EOI (End of Image)"@
            &&& s[0].start == pos && s[0].end == pos + 2
            &&& s[0].risk == RiskLevel::Critical
        },
{
    assert(jpeg_sections(data).drop_first() =~= jpeg_from(data, 2));
    if pos + 1 < data.len() && data[pos] == 0xFF {
        if data[pos + 1] == 0xFF {
            assert(skip_ff(data, pos) == skip_ff(data, pos + 1));
        } else {
            assert(skip_ff(data, pos + 1) == pos + 1);
            assert(skip_ff(data, pos) == pos + 1);
        }
    }
}

/// The DIB header section is named after the size field: a 40-byte header is
/// a BITMAPINFOHEADER with its eleven fields, a 12-byte one a
/// BITMAPCOREHEADER with none.
pub proof fn law_bmp_dib_header_name(data: Seq<u8>)
    requires
        data.len() >= 18,
        14 + le32(data, 14) <= data.len(),
    ensures
        le32(data, 14) == 40 ==> bmp_sections(data)[1].name == "DIB Header (BITMAPINFOHEADER)"@
            && bmp_sections(data)[1].children.len() == 11 && bmp_sections(data)[1].children[0].start
            == 14 && bmp_sections(data)[1].children[10].end == 54,
        le32(data, 14) == 12 ==> bmp_sections(data)[1].name == "DIB Header (BITMAPCOREHEADER)"@
            && bmp_sections(data)[1].children.len() == 0,
{
    reveal_strlit("DIB Header (");
    reveal_strlit(")");
    reveal_strlit("BITMAPINFOHEADER");
    reveal_strlit("BITMAPCOREHEADER");
    reveal_strlit("DIB Header (BITMAPINFOHEADER)");
    reveal_strlit("DIB Header (BITMAPCOREHEADER)");
    assert("DIB Header ("@ + "BITMAPINFOHEADER"@ + ")"@ =~= "DIB Header (BITMAPINFOHEADER)"@);
    assert("DIB Header ("@ + "BITMAPCOREHEADER"@ + ")"@ =~= "DIB Header (BITMAPCOREHEADER)"@);
}

/// In a GIF without a global color table whose first blocks are a Graphics
/// Control Extension, an image and the trailer, the extension's 8 bytes and
/// the image block's sections together form the first frame, which starts at
/// the extension.
pub proof fn law_gif_frame_with_control_extension(data: Seq<u8>)
    requires
        is_gif(data),
        data.len() > 22,
        data[10] & 0x80 == 0,
        data[13] == 0x21,
        data[14] == 0xF9,
        data[21] == 0x2C,
        image_end(data, 21) < data.len(),
        data[image_end(data, 21)] == 0x3B,
    ensures
        ({
            let s = gif_sections(data);
            let e = image_end(data, 21);
            let kids = image_sections(data, 21);
            &&& s.len() == 4
            &&& s[2].name == "Frame 1"@
            &&& s[2].start == 13 && s[2].end == e
            &&& s[2].children.len() == kids.len() + 1
            &&& s[2].children[0].name == "Graphics Control Extension"@
            &&& s[2].children[0].start == 13 && s[2].children[0].end == 21
            &&& s[2].children.drop_first() == kids
            &&& s[3].name == "Trailer"@ && s[3].start == e && s[3].end == e + 1
        }),
{
    lemma_image_block(data, 21);
    let e = image_end(data, 21);
    let kids = image_sections(data, 21);
    let s0 = gif_start(data);
    assert(s0.pos == 13 && s0.kids.len() == 0);
    assert(flush(s0, 13) == s0);
    let gce = super::gif::gce_section(data, 13);
    let s1 = GifScan { kids: s0.kids.push(gce), start: Some(13int), pos: 21, ..s0 };
    assert(gif_blocks(data, s0) == gif_blocks(data, s1));
    let g = GifScan { kids: s1.kids + kids, start: s1.start, pos: e, ..s1 };
    assert(g.kids[0] == gce);
    assert(super::gif::has_gce(g.kids));
    assert(gif_blocks(data, s1) == gif_blocks(data, g));
    let f = flush(g, e);
    assert(g.kids.len() > 0);
    let s2 = gif_blocks(data, g);
    assert(s2.out == f.out.push(super::gif::trailer_section(e)));
    assert(s2.kids.len() == 0);
    assert(flush(s2, s2.pos) == s2);
    reveal_strlit("Frame 1");
    reveal_strlit("Frame ");
    assert(frame_name(1) =~= "Frame 1"@);
    assert(g.kids.drop_first() =~= kids);
    assert(g.kids.last() == kids.last());
}

/// A Comment Extension is a section of its own, outside any frame, running
/// to the end of its sub-blocks.
pub proof fn law_gif_comment_outside_frames(data: Seq<u8>)
    requires
        is_gif(data),
        data.len() > 15,
        data[10] & 0x80 == 0,
        data[13] == 0x21,
        data[14] == 0xFE,
        super::gif::sub_blocks_end(data, 15) matches Some(c) && c < data.len() && data[c] == 0x3B,
    ensures
        ({
            let s = gif_sections(data);
            let c = super::gif::sub_blocks_end(data, 15)->Some_0;
            &&& s.len() == 4
            &&& s[2].name == "Comment Extension"@
            &&& s[2].start == 13 && s[2].end == c
            &&& s[3].name == "Trailer"@ && s[3].start == c && s[3].end == c + 1
        }),
{
    super::gif::lemma_sub_blocks_end(data, 15);
    let s0 = gif_start(data);
    assert(s0.pos == 13 && s0.kids.len() == 0);
    let c = super::gif::sub_blocks_end(data, 15)->Some_0;
    let s1 = GifScan { out: s0.out.push(super::gif::comment_section(data, 13)), pos: c, ..s0 };
    assert(gif_blocks(data, s0) == gif_blocks(data, s1));
    assert(flush(s1, c) == s1);
    let s2 = gif_blocks(data, s1);
    assert(s2.out == s1.out.push(super::gif::trailer_section(c)));
    assert(flush(s2, s2.pos) == s2);
}

} // verus!
