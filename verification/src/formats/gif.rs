//! GIF file format parser (GIF87a / GIF89a).
//!
//! GIF structure:
//! - Header (6 bytes): signature "GIF" + version "87a" or "89a"
//! - Logical Screen Descriptor (7 bytes): canvas dimensions, packed flags, BG color, aspect ratio
//! - Global Color Table (optional): 3 × 2^(N+1) RGB triplets
//! - Blocks: extension blocks and image descriptors (repeated)
//!   - Graphics Control Extension (0x21 0xF9): delay, disposal, transparency
//!   - Comment Extension (0x21 0xFE): metadata text
//!   - Application Extension (0x21 0xFF): e.g. NETSCAPE looping
//!   - Plain Text Extension (0x21 0x01): text overlay (rare)
//!   - Image Descriptor (0x2C): per-frame position, dimensions, flags
//!     - Optional Local Color Table
//!     - Image Data: LZW minimum code size + sub-blocks
//! - Trailer (0x3B): end-of-file marker

use vstd::prelude::*;
use vstd::arithmetic::power2::{pow2, lemma2_to64};
use super::traits::{FileSection, ImageFormat, ParseError, RiskLevel, SectionView, described, leaf, views};
use crate::text::{decimal, hex_char, owned, push_decimal, push_hex_byte, str_eq};

verus! {

/// GIF format parser.
pub struct GifParser;

/// The smaller of two integers.
pub open spec fn min(a: int, b: int) -> int {
    if a <= b {
        a
    } else {
        b
    }
}

/// The value held by `r`, or `d` when there is none.
pub open spec fn or_else(r: Option<int>, d: int) -> int {
    match r {
        Some(v) => v,
        None => d,
    }
}

/// The position after the 0x00 terminator of the sub-blocks (size-prefixed
/// chunks) starting at `pos`, or `None` when the data ends first.
pub open spec fn sub_blocks_end(data: Seq<u8>, pos: int) -> Option<int>
    decreases data.len() - pos,
{
    if pos < 0 || pos >= data.len() {
        None
    } else if data[pos] == 0 {
        Some(pos + 1)
    } else if pos + 1 + data[pos] > data.len() {
        None
    } else {
        sub_blocks_end(data, pos + 1 + data[pos])
    }
}

/// The sub-blocks end after their start and within the data.
pub proof fn lemma_sub_blocks_end(data: Seq<u8>, pos: int)
    ensures
        sub_blocks_end(data, pos) matches Some(e) ==> pos < e <= data.len(),
    decreases data.len() - pos,
{
    if 0 <= pos < data.len() && data[pos] != 0 && pos + 1 + data[pos] <= data.len() {
        lemma_sub_blocks_end(data, pos + 1 + data[pos]);
    }
}

/// Skip a sequence of sub-blocks (size-prefixed chunks terminated by a 0x00
/// byte) starting at `pos`: the position after the terminator, or `None` if
/// the data is truncated.
pub fn skip_sub_blocks(data: &[u8], start: usize) -> (r: Option<usize>)
    requires
        data@.len() <= isize::MAX,
    ensures
        r matches Some(e) ==> sub_blocks_end(data@, start as int) == Some(e as int),
        r is None ==> sub_blocks_end(data@, start as int) is None,
{
    let mut pos = start;
    loop
        invariant
            data@.len() <= isize::MAX,
            sub_blocks_end(data@, start as int) == sub_blocks_end(data@, pos as int),
        decreases data@.len() - pos,
    {
        if pos >= data.len() {
            return None;
        }
        let block_size = data[pos] as usize;
        pos += 1;
        if block_size == 0 {
            return Some(pos);
        }
        pos = pos + block_size;
        if pos > data.len() {
            return None;
        }
    }
}

/// The number of bytes of a color table whose size field is the low three
/// bits of `packed`: 3 × 2^(N+1).
pub open spec fn color_table_len(packed: u8) -> int {
    3 * pow2(((packed & 0x07) + 1) as nat) as int
}

/// The byte length of a color table whose size field is in `packed`.
fn color_table_bytes(packed: u8) -> (r: usize)
    ensures
        r == color_table_len(packed),
        r <= 768,
{
    let bits = (packed & 0x07) as usize;
    assert(packed & 0x07 < 8) by (bit_vector);
    let entries: usize = 1usize << (bits + 1);
    proof {
        lemma2_to64();
        vstd::bits::lemma_usize_shl_is_mul(1, (bits + 1) as usize);
        if bits + 1 < 8 {
            vstd::arithmetic::power2::lemma_pow2_strictly_increases((bits + 1) as nat, 8);
        }
    }
    entries * 3
}

/// Where a Graphics Control Extension at `pos` ends.
pub open spec fn gce_end(data: Seq<u8>, pos: int) -> int {
    min(pos + 8, data.len() as int)
}

/// The section of a Graphics Control Extension at `pos`: 21 F9 04 <packed>
/// <delay:2> <transparent index> 00.
pub open spec fn gce_section(data: Seq<u8>, pos: int) -> SectionView {
    let fields = if data.len() >= pos + 8 {
        seq![
            leaf("Block Size"@, pos + 2, pos + 3, RiskLevel::Critical),
            described(
                leaf("Packed Byte"@, pos + 3, pos + 4, RiskLevel::Caution),
                "Disposal method, user input flag, transparent color flag"@,
            ),
            described(
                leaf("Delay Time"@, pos + 4, pos + 6, RiskLevel::Caution),
                "Frame delay in centiseconds"@,
            ),
            leaf("Transparent Color Index"@, pos + 6, pos + 7, RiskLevel::Caution),
            leaf("Block Terminator"@, pos + 7, pos + 8, RiskLevel::Critical),
        ]
    } else {
        Seq::empty()
    };
    SectionView {
        children: seq![
            leaf("Extension Introducer"@, pos, min(pos + 2, data.len() as int), RiskLevel::Critical),
        ] + fields,
        ..described(
            leaf("Graphics Control Extension"@, pos, gce_end(data, pos), RiskLevel::Caution),
            "Controls frame delay, disposal method, and transparency"@,
        )
    }
}

/// Parse a Graphics Control Extension; `pos` is at its 0x21 introducer.
pub fn parse_graphics_control_ext(data: &[u8], pos: usize) -> (r: (FileSection, usize))
    requires
        pos < data@.len() <= isize::MAX,
    ensures
        r.0@ == gce_section(data@, pos as int),
        r.1 == gce_end(data@, pos as int),
{
    let n = data.len();
    let block_end = if pos + 8 <= n {
        pos + 8
    } else {
        n
    };
    let intro_end = if pos + 2 <= n {
        pos + 2
    } else {
        n
    };
    let mut section = FileSection::new(
        "Graphics Control Extension",
        pos,
        block_end,
        RiskLevel::Caution,
    ).with_description("Controls frame delay, disposal method, and transparency");
    section =
    section.with_child(
        FileSection::new("Extension Introducer", pos, intro_end, RiskLevel::Critical),
    );
    if n >= pos + 8 {
        section = section.with_child(
            FileSection::new("Block Size", pos + 2, pos + 3, RiskLevel::Critical),
        );
        section = section.with_child(
            FileSection::new("Packed Byte", pos + 3, pos + 4, RiskLevel::Caution).with_description(
                "Disposal method, user input flag, transparent color flag",
            ),
        );
        section = section.with_child(
            FileSection::new("Delay Time", pos + 4, pos + 6, RiskLevel::Caution).with_description(
                "Frame delay in centiseconds",
            ),
        );
        section = section.with_child(
            FileSection::new("Transparent Color Index", pos + 6, pos + 7, RiskLevel::Caution),
        );
        section = section.with_child(
            FileSection::new("Block Terminator", pos + 7, pos + 8, RiskLevel::Critical),
        );
    }
    assert(section@.children =~= gce_section(data@, pos as int).children);
    (section, block_end)
}

/// Where a Comment Extension at `pos` ends.
pub open spec fn comment_end(data: Seq<u8>, pos: int) -> int {
    or_else(sub_blocks_end(data, pos + 2), data.len() as int)
}

/// The section of a Comment Extension at `pos`: 21 FE <sub-blocks> 00.
pub open spec fn comment_section(data: Seq<u8>, pos: int) -> SectionView {
    described(
        leaf("Comment Extension"@, pos, comment_end(data, pos), RiskLevel::Safe),
        "Metadata comment — safe to edit"@,
    )
}

/// Parse a Comment Extension; `pos` is at its 0x21 introducer.
pub fn parse_comment_ext(data: &[u8], pos: usize) -> (r: (FileSection, usize))
    requires
        pos < data@.len() <= isize::MAX,
    ensures
        r.0@ == comment_section(data@, pos as int),
        r.1 == comment_end(data@, pos as int),
{
    let end = match skip_sub_blocks(data, pos + 2) {
        Some(e) => e,
        None => data.len(),
    };
    let section = FileSection::new("Comment Extension", pos, end, RiskLevel::Safe).with_description(
        "Metadata comment — safe to edit",
    );
    (section, end)
}

/// Where the sub-blocks of an extension with a fixed part of `fixed` bytes
/// at `pos` start.
pub open spec fn after_fixed(data: Seq<u8>, pos: int, fixed: int) -> int {
    if data.len() >= pos + fixed {
        pos + fixed
    } else {
        data.len() as int
    }
}

/// Where an Application Extension at `pos` ends.
pub open spec fn application_end(data: Seq<u8>, pos: int) -> int {
    or_else(sub_blocks_end(data, after_fixed(data, pos, 14)), data.len() as int)
}

/// The section of an Application Extension at `pos`: 21 FF 0B <8-byte app
/// id> <3-byte auth code> <sub-blocks> 00.
pub open spec fn application_section(data: Seq<u8>, pos: int) -> SectionView {
    let end = application_end(data, pos);
    let children = if data.len() >= pos + 14 {
        seq![
            leaf("Application Identifier"@, pos + 3, pos + 11, RiskLevel::Caution),
            leaf("Authentication Code"@, pos + 11, pos + 14, RiskLevel::Caution),
        ] + if end > pos + 14 {
            seq![leaf("Application Data"@, pos + 14, end, RiskLevel::Caution)]
        } else {
            Seq::empty()
        }
    } else {
        Seq::empty()
    };
    SectionView {
        children,
        ..described(
            leaf("Application Extension"@, pos, end, RiskLevel::Caution),
            "Application-specific data (e.g. NETSCAPE loop count)"@,
        )
    }
}

/// Parse an Application Extension; `pos` is at its 0x21 introducer.
pub fn parse_application_ext(data: &[u8], pos: usize) -> (r: (FileSection, usize))
    requires
        pos < data@.len() <= isize::MAX,
    ensures
        r.0@ == application_section(data@, pos as int),
        r.1 == application_end(data@, pos as int),
{
    let n = data.len();
    let sub_block_start = if n >= pos + 14 {
        pos + 14
    } else {
        n
    };
    let end = match skip_sub_blocks(data, sub_block_start) {
        Some(e) => e,
        None => n,
    };
    let mut section = FileSection::new(
        "Application Extension",
        pos,
        end,
        RiskLevel::Caution,
    ).with_description("Application-specific data (e.g. NETSCAPE loop count)");
    if n >= pos + 14 {
        section = section.with_child(
            FileSection::new("Application Identifier", pos + 3, pos + 11, RiskLevel::Caution),
        );
        section = section.with_child(
            FileSection::new("Authentication Code", pos + 11, pos + 14, RiskLevel::Caution),
        );
        if end > pos + 14 {
            section = section.with_child(
                FileSection::new("Application Data", pos + 14, end, RiskLevel::Caution),
            );
        }
    }
    assert(section@.children =~= application_section(data@, pos as int).children);
    (section, end)
}

/// Where a Plain Text Extension at `pos` ends.
pub open spec fn plain_text_end(data: Seq<u8>, pos: int) -> int {
    or_else(sub_blocks_end(data, after_fixed(data, pos, 15)), data.len() as int)
}

/// The section of a Plain Text Extension at `pos`: 21 01 0C <12 bytes>
/// <sub-blocks> 00.
pub open spec fn plain_text_section(data: Seq<u8>, pos: int) -> SectionView {
    described(
        leaf("Plain Text Extension"@, pos, plain_text_end(data, pos), RiskLevel::Caution),
        "Text overlay (rare GIF89a feature)"@,
    )
}

/// Parse a Plain Text Extension; `pos` is at its 0x21 introducer.
pub fn parse_plain_text_ext(data: &[u8], pos: usize) -> (r: (FileSection, usize))
    requires
        pos < data@.len() <= isize::MAX,
    ensures
        r.0@ == plain_text_section(data@, pos as int),
        r.1 == plain_text_end(data@, pos as int),
{
    let n = data.len();
    let sub_block_start = if n >= pos + 15 {
        pos + 15
    } else {
        n
    };
    let end = match skip_sub_blocks(data, sub_block_start) {
        Some(e) => e,
        None => n,
    };
    let section = FileSection::new("Plain Text Extension", pos, end, RiskLevel::Caution).with_description(
        "Text overlay (rare GIF89a feature)",
    );
    (section, end)
}

/// The name of an extension with an unknown label, such as `Unknown Extension (0x7A)`.
pub open spec fn unknown_extension_name(label: u8) -> Seq<char> {
    "Unknown Extension (0x"@ + seq![hex_char(label as int / 16), hex_char(label as int % 16)]
        + ")"@
}

/// Where an extension with an unknown label at `pos` ends.
pub open spec fn unknown_extension_end(data: Seq<u8>, pos: int) -> int {
    or_else(sub_blocks_end(data, pos + 2), data.len() as int)
}

/// The name of an extension with an unknown label.
fn unknown_extension_label(label: u8) -> (r: String)
    ensures
        r@ == unknown_extension_name(label),
{
    let mut name = owned("Unknown Extension (0x");
    push_hex_byte(&mut name, label);
    name.append(")");
    name
}

/// Where the Image Descriptor at `pos` ends.
pub open spec fn descriptor_end(data: Seq<u8>, pos: int) -> int {
    min(pos + 10, data.len() as int)
}

/// Where the Local Color Table after the Image Descriptor at `pos` ends (the
/// descriptor's end when there is none).
pub open spec fn local_table_end(data: Seq<u8>, pos: int) -> int {
    if data.len() >= pos + 10 && data[pos + 9] & 0x80 != 0 {
        min(descriptor_end(data, pos) + color_table_len(data[pos + 9]), data.len() as int)
    } else {
        descriptor_end(data, pos)
    }
}

/// Where the image block at `pos` ends.
pub open spec fn image_end(data: Seq<u8>, pos: int) -> int {
    let cur = local_table_end(data, pos);
    if cur < data.len() {
        or_else(sub_blocks_end(data, cur + 1), data.len() as int)
    } else {
        cur
    }
}

/// The Image Descriptor section at `pos`: 2C <left:2> <top:2> <width:2>
/// <height:2> <packed>.
pub open spec fn descriptor_section(data: Seq<u8>, pos: int) -> SectionView {
    let children = if data.len() >= pos + 10 {
        seq![
            leaf("Image Separator"@, pos, pos + 1, RiskLevel::Critical),
            described(
                leaf("Left Position"@, pos + 1, pos + 3, RiskLevel::Critical),
                "X offset within canvas"@,
            ),
            described(
                leaf("Top Position"@, pos + 3, pos + 5, RiskLevel::Critical),
                "Y offset within canvas"@,
            ),
            leaf("Frame Width"@, pos + 5, pos + 7, RiskLevel::Critical),
            leaf("Frame Height"@, pos + 7, pos + 9, RiskLevel::Critical),
            described(
                leaf("Packed Byte"@, pos + 9, pos + 10, RiskLevel::Critical),
                "Local color table flag, interlace, sort, LCT size"@,
            ),
        ]
    } else {
        Seq::empty()
    };
    SectionView {
        children,
        ..described(
            leaf("Image Descriptor"@, pos, descriptor_end(data, pos), RiskLevel::Critical),
            "Frame position and dimensions"@,
        )
    }
}

/// The sections of the image block at `pos`: the descriptor, the local
/// color table if its flag is set, and the image data if any byte is left.
pub open spec fn image_sections(data: Seq<u8>, pos: int) -> Seq<SectionView> {
    let lct = if data.len() >= pos + 10 && data[pos + 9] & 0x80 != 0 {
        seq![
            described(
                leaf(
                    "Local Color Table"@,
                    descriptor_end(data, pos),
                    local_table_end(data, pos),
                    RiskLevel::Safe,
                ),
                "Per-frame palette override — great for glitch art"@,
            ),
        ]
    } else {
        Seq::empty()
    };
    let cur = local_table_end(data, pos);
    let img = if cur < data.len() {
        seq![
            described(
                leaf("Image Data"@, cur, image_end(data, pos), RiskLevel::Caution),
                "LZW-compressed pixel data"@,
            ),
        ]
    } else {
        Seq::empty()
    };
    seq![descriptor_section(data, pos)] + lct + img
}

/// The image block ends after its start, within the data, and holds no
/// more sections than it has bytes.
pub proof fn lemma_image_block(data: Seq<u8>, pos: int)
    requires
        0 <= pos < data.len(),
    ensures
        pos < image_end(data, pos) <= data.len(),
        image_sections(data, pos).len() <= image_end(data, pos) - pos,
{
    let cur = local_table_end(data, pos);
    assert(0 < color_table_len(data[pos + 9])) by {
        vstd::arithmetic::power2::lemma_pow2_pos(((data[pos + 9] & 0x07) + 1) as nat);
    }
    if cur < data.len() {
        lemma_sub_blocks_end(data, cur + 1);
    }
}

/// Parse an Image Descriptor with its local color table and image data;
/// `pos` is at the 0x2C separator. Returns the sections and the position
/// after the image data.
pub fn parse_image_block(data: &[u8], pos: usize) -> (r: (Vec<FileSection>, usize))
    requires
        pos < data@.len() <= isize::MAX,
    ensures
        views(r.0@) == image_sections(data@, pos as int),
        r.1 == image_end(data@, pos as int),
{
    let n = data.len();
    let mut children: Vec<FileSection> = Vec::new();
    let desc_end = if pos + 10 <= n {
        pos + 10
    } else {
        n
    };
    let mut desc_section = FileSection::new(
        "Image Descriptor",
        pos,
        desc_end,
        RiskLevel::Critical,
    ).with_description("Frame position and dimensions");
    if n >= pos + 10 {
        desc_section = desc_section.with_child(
            FileSection::new("Image Separator", pos, pos + 1, RiskLevel::Critical),
        );
        desc_section = desc_section.with_child(
            FileSection::new("Left Position", pos + 1, pos + 3, RiskLevel::Critical).with_description(
                "X offset within canvas",
            ),
        );
        desc_section = desc_section.with_child(
            FileSection::new("Top Position", pos + 3, pos + 5, RiskLevel::Critical).with_description(
                "Y offset within canvas",
            ),
        );
        desc_section = desc_section.with_child(
            FileSection::new("Frame Width", pos + 5, pos + 7, RiskLevel::Critical),
        );
        desc_section = desc_section.with_child(
            FileSection::new("Frame Height", pos + 7, pos + 9, RiskLevel::Critical),
        );
        desc_section = desc_section.with_child(
            FileSection::new("Packed Byte", pos + 9, pos + 10, RiskLevel::Critical).with_description(
                "Local color table flag, interlace, sort, LCT size",
            ),
        );
    }
    assert(desc_section@.children =~= descriptor_section(data@, pos as int).children);
    children.push(desc_section);
    let mut current_pos = desc_end;
    let ghost after_desc = views(children@);
    if n >= pos + 10 {
        let packed = data[pos + 9];
        if packed & 0x80 != 0 {
            let lct_bytes = color_table_bytes(packed);
            let lct_end = if current_pos + lct_bytes <= n {
                current_pos + lct_bytes
            } else {
                n
            };
            children.push(
                FileSection::new(
                    "Local Color Table",
                    current_pos,
                    lct_end,
                    RiskLevel::Safe,
                ).with_description("Per-frame palette override — great for glitch art"),
            );
            current_pos = lct_end;
        }
    }
    let ghost after_lct = views(children@);
    if current_pos < n {
        let img_data_start = current_pos;
        let img_data_end = match skip_sub_blocks(data, current_pos + 1) {
            Some(e) => e,
            None => n,
        };
        children.push(
            FileSection::new(
                "Image Data",
                img_data_start,
                img_data_end,
                RiskLevel::Caution,
            ).with_description("LZW-compressed pixel data"),
        );
        current_pos = img_data_end;
    }
    assert(views(children@) =~= image_sections(data@, pos as int));
    (children, current_pos)
}

/// The state of a scan over the blocks of a GIF file.
#[verifier::ext_equal]
pub ghost struct GifScan {
    /// The sections emitted so far.
    pub out: Seq<SectionView>,
    /// The number of frames emitted so far.
    pub frames: int,
    /// The sections of the frame being gathered.
    pub kids: Seq<SectionView>,
    /// Where the frame being gathered started, if known.
    pub start: Option<int>,
    /// The position of the next block.
    pub pos: int,
}

/// The name of the `n`-th frame, such as `Frame 2`.
pub open spec fn frame_name(n: int) -> Seq<char> {
    "Frame "@ + decimal(n as nat)
}

/// Emit the frame being gathered, if it has any section; `at` is its start
/// when none was recorded.
pub open spec fn flush(s: GifScan, at: int) -> GifScan {
    if s.kids.len() == 0 {
        s
    } else {
        GifScan {
            out: s.out.push(
                SectionView {
                    name: frame_name(s.frames + 1),
                    start: or_else(s.start, at),
                    end: s.kids.last().end,
                    risk: RiskLevel::Caution,
                    description: None,
                    children: s.kids,
                },
            ),
            frames: s.frames + 1,
            kids: Seq::empty(),
            ..s
        }
    }
}

/// Whether one of the sections is a Graphics Control Extension.
pub open spec fn has_gce(kids: Seq<SectionView>) -> bool {
    exists|i: int| 0 <= i < kids.len() && kids[i].name == "Graphics Control Extension"@
}

/// The trailer section at `pos`.
pub open spec fn trailer_section(pos: int) -> SectionView {
    described(leaf("Trailer"@, pos, pos + 1, RiskLevel::Critical), "End of GIF file marker"@)
}

/// The scan after the blocks from `s.pos` on. A Graphics Control Extension
/// starts a new frame; Plain Text Extensions and image blocks join the
/// frame being gathered; an image block with no Graphics Control Extension
/// in its frame closes that frame; comment, application and unknown
/// extensions are emitted on their own. The scan stops at the trailer, at an
/// unknown block byte, or at the end of the data.
pub open spec fn gif_blocks(data: Seq<u8>, s: GifScan) -> GifScan
    decreases data.len() - s.pos,
{
    let pos = s.pos;
    if pos < 0 || pos >= data.len() {
        s
    } else if data[pos] == 0x21 {
        if pos + 1 >= data.len() {
            s
        } else {
            let label = data[pos + 1];
            if label == 0xF9 {
                let f = flush(s, pos);
                gif_blocks(
                    data,
                    GifScan {
                        kids: f.kids.push(gce_section(data, pos)),
                        start: Some(pos),
                        pos: gce_end(data, pos),
                        ..f
                    },
                )
            } else if label == 0xFE {
                proof {
                    lemma_sub_blocks_end(data, pos + 2);
                }
                gif_blocks(
                    data,
                    GifScan {
                        out: s.out.push(comment_section(data, pos)),
                        pos: comment_end(data, pos),
                        ..s
                    },
                )
            } else if label == 0xFF {
                proof {
                    lemma_sub_blocks_end(data, after_fixed(data, pos, 14));
                }
                gif_blocks(
                    data,
                    GifScan {
                        out: s.out.push(application_section(data, pos)),
                        pos: application_end(data, pos),
                        ..s
                    },
                )
            } else if label == 0x01 {
                proof {
                    lemma_sub_blocks_end(data, after_fixed(data, pos, 15));
                }
                gif_blocks(
                    data,
                    GifScan {
                        kids: s.kids.push(plain_text_section(data, pos)),
                        pos: plain_text_end(data, pos),
                        ..s
                    },
                )
            } else {
                proof {
                    lemma_sub_blocks_end(data, pos + 2);
                }
                gif_blocks(
                    data,
                    GifScan {
                        out: s.out.push(
                            leaf(
                                unknown_extension_name(label),
                                pos,
                                unknown_extension_end(data, pos),
                                RiskLevel::Caution,
                            ),
                        ),
                        pos: unknown_extension_end(data, pos),
                        ..s
                    },
                )
            }
        }
    } else if data[pos] == 0x2C {
        proof {
            lemma_image_block(data, pos);
        }
        let g = GifScan {
            kids: s.kids + image_sections(data, pos),
            start: if s.start is None {
                Some(pos)
            } else {
                s.start
            },
            pos: image_end(data, pos),
            ..s
        };
        if has_gce(g.kids) {
            gif_blocks(data, g)
        } else {
            gif_blocks(data, GifScan { start: None, ..flush(g, g.pos) })
        }
    } else if data[pos] == 0x3B {
        let f = flush(s, pos);
        GifScan { out: f.out.push(trailer_section(pos)), pos: pos + 1, ..f }
    } else {
        s
    }
}

/// Whether `data` starts with "GIF87a" or "GIF89a".
pub open spec fn is_gif(data: Seq<u8>) -> bool {
    &&& data.len() >= 6
    &&& data[0] == 0x47 && data[1] == 0x49 && data[2] == 0x46
    &&& data[3] == 0x38 && (data[4] == 0x37 || data[4] == 0x39) && data[5] == 0x61
}

/// The header section (6 bytes).
pub open spec fn gif_header() -> SectionView {
    SectionView {
        children: seq![
            leaf("Signature"@, 0, 3, RiskLevel::Critical),
            leaf("Version"@, 3, 6, RiskLevel::Critical),
        ],
        ..described(
            leaf("Header"@, 0, 6, RiskLevel::Critical),
            "GIF signature and version — must not be modified"@,
        )
    }
}

/// The Logical Screen Descriptor section (7 bytes at offset 6).
pub open spec fn gif_screen_descriptor() -> SectionView {
    SectionView {
        children: seq![
            leaf("Canvas Width"@, 6, 8, RiskLevel::Critical),
            leaf("Canvas Height"@, 8, 10, RiskLevel::Critical),
            described(
                leaf("Packed Byte"@, 10, 11, RiskLevel::Critical),
                "Global color table flag, color resolution, sort flag, GCT size"@,
            ),
            described(
                leaf("Background Color Index"@, 11, 12, RiskLevel::Caution),
                "Index into GCT for background color"@,
            ),
            leaf("Pixel Aspect Ratio"@, 12, 13, RiskLevel::Safe),
        ],
        ..described(
            leaf("Logical Screen Descriptor"@, 6, 13, RiskLevel::Critical),
            "Canvas dimensions and color table configuration"@,
        )
    }
}

/// Where the Global Color Table ends (13 when there is none).
pub open spec fn global_table_end(data: Seq<u8>) -> int {
    if data[10] & 0x80 != 0 {
        min(13 + color_table_len(data[10]), data.len() as int)
    } else {
        13
    }
}

/// The scan before the first block: header, screen descriptor and global
/// color table emitted.
pub open spec fn gif_start(data: Seq<u8>) -> GifScan {
    let gct = if data[10] & 0x80 != 0 {
        seq![
            described(
                leaf("Global Color Table"@, 13, global_table_end(data), RiskLevel::Safe),
                "RGB palette entries — ideal for glitch art color manipulation"@,
            ),
        ]
    } else {
        Seq::empty()
    };
    GifScan {
        out: seq![gif_header(), gif_screen_descriptor()] + gct,
        frames: 0,
        kids: Seq::empty(),
        start: None,
        pos: global_table_end(data),
    }
}

/// The sections of a GIF file (one that starts with a GIF signature): the
/// header alone when the screen descriptor is cut short; otherwise the
/// scan's sections, with the last frame emitted.
pub open spec fn gif_sections(data: Seq<u8>) -> Seq<SectionView> {
    if data.len() < 13 {
        seq![gif_header()]
    } else {
        let s = gif_blocks(data, gif_start(data));
        flush(s, s.pos).out
    }
}

/// The scan state held by the parser's variables.
pub open spec fn scan_of(
    out: Seq<FileSection>,
    frames: usize,
    kids: Seq<FileSection>,
    start: Option<usize>,
    pos: usize,
) -> GifScan {
    GifScan {
        out: views(out),
        frames: frames as int,
        kids: views(kids),
        start: match start {
            Some(v) => Some(v as int),
            None => None,
        },
        pos: pos as int,
    }
}

/// Emit the frame being gathered, if any; `pos` is its start when none was
/// recorded.
fn flush_frame(
    sections: &mut Vec<FileSection>,
    frame_number: &mut usize,
    frame_children: &mut Vec<FileSection>,
    frame_start: Option<usize>,
    pos: usize,
)
    requires
        *old(frame_number) + old(frame_children)@.len() <= pos,
    ensures
        scan_of(final(sections)@, *final(frame_number), final(frame_children)@, frame_start, pos)
            == flush(
            scan_of(old(sections)@, *old(frame_number), old(frame_children)@, frame_start, pos),
            pos as int,
        ),
        *final(frame_number) + final(frame_children)@.len() <= pos,
{
    if frame_children.len() == 0 {
        return;
    }
    let fs = match frame_start {
        Some(s) => s,
        None => pos,
    };
    let prev_end = frame_children[frame_children.len() - 1].end;
    *frame_number = *frame_number + 1;
    let mut name = owned("Frame ");
    push_decimal(&mut name, *frame_number);
    let mut kids: Vec<FileSection> = Vec::new();
    std::mem::swap(&mut kids, frame_children);
    let frame_section = FileSection::named(name, fs, prev_end, RiskLevel::Caution).with_children(
        kids,
    );
    let ghost before = views(sections@);
    sections.push(frame_section);
    proof {
        let old_scan = scan_of(
            old(sections)@,
            *old(frame_number),
            old(frame_children)@,
            frame_start,
            pos,
        );
        assert(views(old(frame_children)@).last() == old(frame_children)@.last()@);
        assert(Seq::<SectionView>::empty() + views(kids@) =~= views(kids@));
        assert(views(sections@) =~= before.push(frame_section@));
        assert(views(frame_children@) =~= Seq::<SectionView>::empty());
    }
}

/// Whether one of the sections is a Graphics Control Extension.
fn contains_gce(kids: &Vec<FileSection>) -> (r: bool)
    ensures
        r == has_gce(views(kids@)),
{
    let mut i: usize = 0;
    while i < kids.len()
        invariant
            i <= kids@.len(),
            forall|k: int| 0 <= k < i ==> kids@[k].name@ != "Graphics Control Extension"@,
        decreases kids@.len() - i,
    {
        if str_eq(kids[i].name.as_str(), "Graphics Control Extension") {
            assert(views(kids@)[i as int].name == "Graphics Control Extension"@);
            return true;
        }
        i += 1;
    }
    assert forall|k: int| 0 <= k < views(kids@).len() implies views(kids@)[k].name
        != "Graphics Control Extension"@ by {
        assert(views(kids@)[k] == kids@[k]@);
    }
    false
}

impl GifParser {
}

impl ImageFormat for GifParser {
    /// Whether `data` starts with "GIF87a" or "GIF89a".
    fn can_parse(&self, data: &[u8]) -> (r: bool)
        ensures
            r == is_gif(data@),
    {
        data.len() >= 6 && data[0] == 0x47 && data[1] == 0x49 && data[2] == 0x46 && data[3]
            == 0x38 && (data[4] == 0x37 || data[4] == 0x39) && data[5] == 0x61
    }

    /// Parse the block structure of a GIF file, grouping the sections of
    /// each frame under a "Frame N" section.
    fn parse(&self, data: &[u8]) -> (r: Result<Vec<FileSection>, ParseError>)
        ensures
            !is_gif(data@) ==> r == Err::<Vec<FileSection>, ParseError>(
                ParseError::InvalidSignature,
            ),
            is_gif(data@) ==> r is Ok && views(r->Ok_0@) == gif_sections(data@),
    {
        if !self.can_parse(data) {
            return Err(ParseError::InvalidSignature);
        }
        let n = data.len();
        let mut sections: Vec<FileSection> = Vec::new();
        let header = FileSection::new("Header", 0, 6, RiskLevel::Critical).with_description(
            "GIF signature and version — must not be modified",
        ).with_child(FileSection::new("Signature", 0, 3, RiskLevel::Critical)).with_child(
            FileSection::new("Version", 3, 6, RiskLevel::Critical),
        );
        assert(header@.children =~= gif_header().children);
        sections.push(header);
        if n < 13 {
            assert(views(sections@) =~= seq![gif_header()]);
            return Ok(sections);
        }
        let lsd = FileSection::new(
            "Logical Screen Descriptor",
            6,
            13,
            RiskLevel::Critical,
        ).with_description("Canvas dimensions and color table configuration").with_child(
            FileSection::new("Canvas Width", 6, 8, RiskLevel::Critical),
        ).with_child(FileSection::new("Canvas Height", 8, 10, RiskLevel::Critical)).with_child(
            FileSection::new("Packed Byte", 10, 11, RiskLevel::Critical).with_description(
                "Global color table flag, color resolution, sort flag, GCT size",
            ),
        ).with_child(
            FileSection::new("Background Color Index", 11, 12, RiskLevel::Caution).with_description(
                "Index into GCT for background color",
            ),
        ).with_child(FileSection::new("Pixel Aspect Ratio", 12, 13, RiskLevel::Safe));
        assert(lsd@.children =~= gif_screen_descriptor().children);
        sections.push(lsd);
        let mut pos: usize = 13;
        let packed = data[10];
        if packed & 0x80 != 0 {
            let gct_bytes = color_table_bytes(packed);
            let gct_end = if pos + gct_bytes <= n {
                pos + gct_bytes
            } else {
                n
            };
            sections.push(
                FileSection::new(
                    "Global Color Table",
                    pos,
                    gct_end,
                    RiskLevel::Safe,
                ).with_description(
                    "RGB palette entries — ideal for glitch art color manipulation",
                ),
            );
            pos = gct_end;
        }
        let mut frame_number: usize = 0;
        let mut frame_children: Vec<FileSection> = Vec::new();
        let mut frame_start: Option<usize> = None;
        let ghost target = gif_blocks(data@, gif_start(data@));
        proof {
            assert(scan_of(sections@, frame_number, frame_children@, frame_start, pos) =~= gif_start(
                data@,
            ));
        }
        while pos < n
            invariant_except_break
                gif_blocks(data@, scan_of(sections@, frame_number, frame_children@, frame_start, pos))
                    == target,
            invariant
                n == data@.len(),
                n <= isize::MAX,
                pos <= n,
                frame_number + frame_children@.len() <= pos,
            ensures
                scan_of(sections@, frame_number, frame_children@, frame_start, pos) == target,
            decreases n - pos,
        {
            let ghost s = scan_of(sections@, frame_number, frame_children@, frame_start, pos);
            let block_type = data[pos];
            if block_type == 0x21 {
                if pos + 1 >= n {
                    break;
                }
                let label = data[pos + 1];
                if label == 0xF9 {
                    flush_frame(
                        &mut sections,
                        &mut frame_number,
                        &mut frame_children,
                        frame_start,
                        pos,
                    );
                    frame_start = Some(pos);
                    let (gce, new_pos) = parse_graphics_control_ext(data, pos);
                    frame_children.push(gce);
                    pos = new_pos;
                    proof {
                        let f = flush(s, s.pos);
                        assert(scan_of(sections@, frame_number, frame_children@, frame_start, pos)
                            =~= GifScan {
                            kids: f.kids.push(gce_section(data@, s.pos)),
                            start: Some(s.pos),
                            pos: gce_end(data@, s.pos),
                            ..f
                        });
                    }
                } else if label == 0xFE {
                    let (section, new_pos) = parse_comment_ext(data, pos);
                    sections.push(section);
                    pos = new_pos;
                    proof {
                        lemma_sub_blocks_end(data@, s.pos + 2);
                        assert(scan_of(sections@, frame_number, frame_children@, frame_start, pos)
                            =~= GifScan {
                            out: s.out.push(comment_section(data@, s.pos)),
                            pos: comment_end(data@, s.pos),
                            ..s
                        });
                    }
                } else if label == 0xFF {
                    let (section, new_pos) = parse_application_ext(data, pos);
                    sections.push(section);
                    pos = new_pos;
                    proof {
                        lemma_sub_blocks_end(data@, after_fixed(data@, s.pos, 14));
                        assert(scan_of(sections@, frame_number, frame_children@, frame_start, pos)
                            =~= GifScan {
                            out: s.out.push(application_section(data@, s.pos)),
                            pos: application_end(data@, s.pos),
                            ..s
                        });
                    }
                } else if label == 0x01 {
                    let (section, new_pos) = parse_plain_text_ext(data, pos);
                    frame_children.push(section);
                    pos = new_pos;
                    proof {
                        lemma_sub_blocks_end(data@, after_fixed(data@, s.pos, 15));
                        assert(scan_of(sections@, frame_number, frame_children@, frame_start, pos)
                            =~= GifScan {
                            kids: s.kids.push(plain_text_section(data@, s.pos)),
                            pos: plain_text_end(data@, s.pos),
                            ..s
                        });
                    }
                } else {
                    let ext_start = pos;
                    let end = match skip_sub_blocks(data, pos + 2) {
                        Some(e) => e,
                        None => n,
                    };
                    sections.push(
                        FileSection::named(
                            unknown_extension_label(label),
                            ext_start,
                            end,
                            RiskLevel::Caution,
                        ),
                    );
                    pos = end;
                    proof {
                        lemma_sub_blocks_end(data@, s.pos + 2);
                        assert(scan_of(sections@, frame_number, frame_children@, frame_start, pos)
                            =~= GifScan {
                            out: s.out.push(
                                leaf(
                                    unknown_extension_name(label),
                                    s.pos,
                                    unknown_extension_end(data@, s.pos),
                                    RiskLevel::Caution,
                                ),
                            ),
                            pos: unknown_extension_end(data@, s.pos),
                            ..s
                        });
                    }
                }
            } else if block_type == 0x2C {
                if frame_start.is_none() {
                    frame_start = Some(pos);
                }
                let (image_kids, new_pos) = parse_image_block(data, pos);
                let mut image_kids = image_kids;
                proof {
                    lemma_image_block(data@, s.pos);
                }
                let ghost kids_before = frame_children@;
                let ghost added = image_kids@;
                frame_children.append(&mut image_kids);
                pos = new_pos;
                proof {
                    assert(views(frame_children@) =~= views(kids_before) + views(added));
                }
                if !contains_gce(&frame_children) {
                    flush_frame(
                        &mut sections,
                        &mut frame_number,
                        &mut frame_children,
                        frame_start,
                        pos,
                    );
                    frame_start = None;
                }
            } else if block_type == 0x3B {
                flush_frame(
                    &mut sections,
                    &mut frame_number,
                    &mut frame_children,
                    frame_start,
                    pos,
                );
                let ghost flushed = views(sections@);
                sections.push(
                    FileSection::new("Trailer", pos, pos + 1, RiskLevel::Critical).with_description(
                        "End of GIF file marker",
                    ),
                );
                pos += 1;
                proof {
                    assert(views(sections@) =~= flushed.push(trailer_section(s.pos)));
                }
                break;
            } else {
                break;
            }
        }
        flush_frame(&mut sections, &mut frame_number, &mut frame_children, frame_start, pos);
        Ok(sections)
    }
}

} // verus!
