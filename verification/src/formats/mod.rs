//! Image format parsing for structure visualization.
//!
//! Each parser identifies the structure of a file (headers, metadata, pixel
//! data) as a list of sections with a risk level for editing them; the byte
//! ranges no parser claims are labelled as Unknown sections.

pub mod bmp;
pub mod bytes;
pub mod gif;
pub mod jpeg;
pub mod laws;
pub mod png;
pub mod traits;

use vstd::prelude::*;
use bmp::{BmpParser, bmp_sections, is_bmp};
use gif::{GifParser, gif_sections, is_gif};
use jpeg::{JpegParser, is_jpeg, jpeg_sections};
use png::{PngParser, is_png, png_sections};
use traits::{FileSection, ImageFormat, ParseError, RiskLevel, SectionView, leaf, views};

verus! {

/// The image formats that have a parser.
#[derive(Clone, Copy, Debug, PartialEq, Eq, Structural)]
pub enum Format {
    Bmp,
    Jpeg,
    Png,
    Gif,
}

/// Whether the parser of `f` accepts `data`.
pub open spec fn accepts(f: Format, data: Seq<u8>) -> bool {
    match f {
        Format::Bmp => is_bmp(data),
        Format::Jpeg => is_jpeg(data),
        Format::Png => is_png(data),
        Format::Gif => is_gif(data),
    }
}

/// The sections the parser of `f` finds in `data` (which it accepts).
pub open spec fn format_sections(f: Format, data: Seq<u8>) -> Seq<SectionView> {
    match f {
        Format::Bmp => bmp_sections(data),
        Format::Jpeg => jpeg_sections(data),
        Format::Png => png_sections(data),
        Format::Gif => gif_sections(data),
    }
}

/// The format whose signature `data` starts with, if any: BMP, JPEG or
/// GIF. PNG data is left to its own parser and gets no format here.
pub open spec fn detected(data: Seq<u8>) -> Option<Format> {
    if is_bmp(data) {
        Some(Format::Bmp)
    } else if is_jpeg(data) {
        Some(Format::Jpeg)
    } else if is_gif(data) {
        Some(Format::Gif)
    } else {
        None
    }
}

impl ImageFormat for Format {
    /// Parse with the parser of this format.
    fn parse(&self, data: &[u8]) -> (r: Result<Vec<FileSection>, ParseError>)
        ensures
            !accepts(*self, data@) ==> r == Err::<Vec<FileSection>, ParseError>(
                ParseError::InvalidSignature,
            ),
            accepts(*self, data@) ==> r is Ok && views(r->Ok_0@) == format_sections(*self, data@),
    {
        match self {
            Format::Bmp => BmpParser.parse(data),
            Format::Jpeg => JpegParser.parse(data),
            Format::Png => PngParser.parse(data),
            Format::Gif => GifParser.parse(data),
        }
    }

    /// Whether the parser of this format accepts `data`.
    fn can_parse(&self, data: &[u8]) -> (r: bool)
        ensures
            r == accepts(*self, data@),
    {
        match self {
            Format::Bmp => BmpParser.can_parse(data),
            Format::Jpeg => JpegParser.can_parse(data),
            Format::Png => PngParser.can_parse(data),
            Format::Gif => GifParser.can_parse(data),
        }
    }
}

/// Detect the format of a file from its signature.
pub fn detect_format(data: &[u8]) -> (r: Option<Format>)
    ensures
        r == detected(data@),
{
    if BmpParser.can_parse(data) {
        return Some(Format::Bmp);
    }
    if JpegParser.can_parse(data) {
        return Some(Format::Jpeg);
    }
    if GifParser.can_parse(data) {
        return Some(Format::Gif);
    }
    None
}

/// Whether the sections are in order of their start offsets.
pub open spec fn starts_sorted(s: Seq<SectionView>) -> bool {
    forall|i: int, j: int| 0 <= i <= j < s.len() ==> s[i].start <= s[j].start
}

/// The number of leading sections of `t` that start at or before `v`.
pub open spec fn insert_point(t: Seq<SectionView>, v: int) -> int
    decreases t.len(),
{
    if t.len() == 0 || t[0].start > v {
        0
    } else {
        1 + insert_point(t.drop_first(), v)
    }
}

/// `t` with `x` inserted after its leading sections that start at or before `x`.
pub open spec fn insert_by_start(t: Seq<SectionView>, x: SectionView) -> Seq<SectionView> {
    t.insert(insert_point(t, x.start), x)
}

/// The sections stably sorted by start offset: each one is inserted, in
/// order, after those before it that start at or before it.
pub open spec fn sort_by_start(s: Seq<SectionView>) -> Seq<SectionView>
    decreases s.len(),
{
    if s.len() == 0 {
        s
    } else {
        insert_by_start(sort_by_start(s.drop_last()), s.last())
    }
}

/// An Unknown section over `[a, b)`.
pub open spec fn unknown(a: int, b: int) -> SectionView {
    leaf("Unknown"@, a, b, RiskLevel::Unknown)
}

/// Whether section `v` covers byte offset `o`.
pub open spec fn covers(v: SectionView, o: int) -> bool {
    v.start <= o < v.end
}

/// The larger of two integers.
pub open spec fn max(a: int, b: int) -> int {
    if a >= b {
        a
    } else {
        b
    }
}

/// The Unknown sections for the ranges that the sections of `s` from index
/// `i` on leave uncovered, going through them in order, when everything
/// before `covered` is covered and the data is `len` bytes long.
pub open spec fn gaps_after(s: Seq<SectionView>, i: int, covered: int, len: int) -> Seq<
    SectionView,
>
    decreases s.len() - i,
{
    if i < 0 || i >= s.len() {
        if covered < len {
            seq![unknown(covered, len)]
        } else {
            Seq::empty()
        }
    } else {
        let f = s[i];
        (if f.start > covered {
            seq![unknown(covered, f.start)]
        } else {
            Seq::empty()
        }) + gaps_after(s, i + 1, max(covered, f.end), len)
    }
}

/// The Unknown sections that fill the gaps of `s` over `len` bytes.
pub open spec fn gaps(s: Seq<SectionView>, len: int) -> Seq<SectionView> {
    gaps_after(sort_by_start(s), 0, 0, len)
}

/// The sections with the gaps filled: sorted by start, the gaps found
/// between them added, and all sorted by start again.
pub open spec fn filled(s: Seq<SectionView>, len: int) -> Seq<SectionView> {
    sort_by_start(sort_by_start(s) + gaps(s, len))
}

/// What `insert_point` counts: the leading sections that start at or before `v`.
pub proof fn lemma_insert_point(t: Seq<SectionView>, v: int)
    ensures
        0 <= insert_point(t, v) <= t.len(),
        forall|i: int| 0 <= i < insert_point(t, v) ==> #[trigger] t[i].start <= v,
        insert_point(t, v) < t.len() ==> t[insert_point(t, v)].start > v,
    decreases t.len(),
{
    if t.len() > 0 && t[0].start <= v {
        lemma_insert_point(t.drop_first(), v);
        assert forall|i: int| 0 <= i < insert_point(t, v) implies #[trigger] t[i].start <= v by {
            if i > 0 {
                assert(t[i] == t.drop_first()[i - 1]);
            }
        }
    }
}

/// Inserting by start keeps sections sorted, and adds exactly the one section.
pub proof fn lemma_insert_by_start(t: Seq<SectionView>, x: SectionView)
    requires
        starts_sorted(t),
    ensures
        starts_sorted(insert_by_start(t, x)),
        insert_by_start(t, x).to_multiset() == t.to_multiset().insert(x),
        insert_by_start(t, x).len() == t.len() + 1,
{
    lemma_insert_point(t, x.start);
    let k = insert_point(t, x.start);
    let r = insert_by_start(t, x);
    t.insert_ensures(k, x);
    assert forall|i: int, j: int| 0 <= i <= j < r.len() implies r[i].start <= r[j].start by {
        if j < k {
        } else if j == k {
            if i < k {
                assert(r[i] == t[i]);
            }
        } else {
            assert(r[j] == t[j - 1]);
            if i < k {
                assert(r[i] == t[i]);
            } else if i == k {
                assert(t[k].start > x.start);
            } else {
                assert(r[i] == t[i - 1]);
            }
        }
    }
    vstd::seq_lib::to_multiset_insert(t, k, x);
}

/// The sorted sections are in order of start and hold the same sections.
pub proof fn lemma_sort_by_start(s: Seq<SectionView>)
    ensures
        starts_sorted(sort_by_start(s)),
        sort_by_start(s).to_multiset() == s.to_multiset(),
        sort_by_start(s).len() == s.len(),
    decreases s.len(),
{
    if s.len() > 0 {
        lemma_sort_by_start(s.drop_last());
        lemma_insert_by_start(sort_by_start(s.drop_last()), s.last());
        vstd::seq_lib::to_multiset_build(s.drop_last(), s.last());
        assert(s.drop_last().push(s.last()) =~= s);
    }
}

/// Every offset from `covered` up to `len` lies in a section of `s` from
/// index `i` on, or in one of the gaps found from there.
proof fn lemma_gaps_cover(s: Seq<SectionView>, i: int, covered: int, len: int, o: int)
    requires
        0 <= i <= s.len(),
        covered <= o < len,
    ensures
        (exists|k: int| i <= k < s.len() && #[trigger] covers(s[k], o)) || (exists|k: int|
            0 <= k < gaps_after(s, i, covered, len).len() && #[trigger] covers(
                gaps_after(s, i, covered, len)[k],
                o,
            )),
    decreases s.len() - i,
{
    let g = gaps_after(s, i, covered, len);
    if i >= s.len() {
        assert(g[0] == unknown(covered, len));
        assert(covers(g[0], o));
    } else {
        let f = s[i];
        let head = if f.start > covered {
            seq![unknown(covered, f.start)]
        } else {
            Seq::<SectionView>::empty()
        };
        let rest = gaps_after(s, i + 1, max(covered, f.end), len);
        assert(g == head + rest);
        if f.start > covered && o < f.start {
            assert(g[0] == unknown(covered, f.start));
            assert(covers(g[0], o));
        } else if o < f.end {
            assert(covers(s[i], o));
        } else {
            lemma_gaps_cover(s, i + 1, max(covered, f.end), len, o);
            if exists|k: int| 0 <= k < rest.len() && #[trigger] covers(rest[k], o) {
                let k = choose|k: int| 0 <= k < rest.len() && #[trigger] covers(rest[k], o);
                assert(g[head.len() + k] == rest[k]);
                assert(covers(g[head.len() + k], o));
            }
        }
    }
}

/// After the gaps are filled, the sections are in order of start.
pub proof fn law_filled_sorted(s: Seq<SectionView>, len: int)
    ensures
        starts_sorted(filled(s, len)),
{
    lemma_sort_by_start(sort_by_start(s) + gaps(s, len));
}

/// Filling the gaps keeps every section and adds only the gap sections.
pub proof fn law_filled_keeps_sections(s: Seq<SectionView>, len: int)
    ensures
        filled(s, len).to_multiset() == s.to_multiset().add(gaps(s, len).to_multiset()),
{
    lemma_sort_by_start(s);
    lemma_sort_by_start(sort_by_start(s) + gaps(s, len));
    vstd::seq_lib::lemma_multiset_commutative(sort_by_start(s), gaps(s, len));
}

/// After the gaps are filled, every byte offset of the data lies in some section.
pub proof fn law_filled_covers(s: Seq<SectionView>, len: int, o: int)
    requires
        0 <= o < len,
    ensures
        exists|k: int| 0 <= k < filled(s, len).len() && #[trigger] covers(filled(s, len)[k], o),
{
    let t = sort_by_start(s);
    let g = gaps(s, len);
    let all = t + g;
    lemma_gaps_cover(t, 0, 0, len, o);
    let x = if exists|k: int| 0 <= k < t.len() && #[trigger] covers(t[k], o) {
        let k = choose|k: int| 0 <= k < t.len() && #[trigger] covers(t[k], o);
        assert(all[k] == t[k]);
        all[k]
    } else {
        let k = choose|k: int| 0 <= k < g.len() && #[trigger] covers(g[k], o);
        assert(all[t.len() + k] == g[k]);
        all[t.len() + k]
    };
    assert(all.contains(x));
    lemma_sort_by_start(all);
    vstd::seq_lib::to_multiset_contains(all, x);
    vstd::seq_lib::to_multiset_contains(filled(s, len), x);
    let r = filled(s, len);
    let k = choose|k: int| 0 <= k < r.len() && r[k] == x;
    assert(covers(r[k], o));
}

/// The gap sections are all Unknown.
pub proof fn law_gaps_unknown(s: Seq<SectionView>, len: int, k: int)
    requires
        0 <= k < gaps(s, len).len(),
    ensures
        gaps(s, len)[k].name == "Unknown"@,
        gaps(s, len)[k].risk == RiskLevel::Unknown,
{
    lemma_gaps_unknown(sort_by_start(s), 0, 0, len, k);
}

proof fn lemma_gaps_unknown(s: Seq<SectionView>, i: int, covered: int, len: int, k: int)
    requires
        0 <= k < gaps_after(s, i, covered, len).len(),
    ensures
        gaps_after(s, i, covered, len)[k].name == "Unknown"@,
        gaps_after(s, i, covered, len)[k].risk == RiskLevel::Unknown,
    decreases s.len() - i,
{
    if 0 <= i < s.len() {
        let f = s[i];
        let head = if f.start > covered {
            seq![unknown(covered, f.start)]
        } else {
            Seq::<SectionView>::empty()
        };
        let rest = gaps_after(s, i + 1, max(covered, f.end), len);
        assert(gaps_after(s, i, covered, len) == head + rest);
        if k >= head.len() {
            lemma_gaps_unknown(s, i + 1, max(covered, f.end), len, k - head.len());
        }
    }
}

/// Sort the sections stably by start offset.
fn sort_sections(sections: &mut Vec<FileSection>)
    ensures
        views(final(sections)@) == sort_by_start(views(old(sections)@)),
{
    let ghost orig = views(sections@);
    let n = sections.len();
    let mut i: usize = 0;
    assert(orig.take(0) =~= Seq::<SectionView>::empty());
    assert(views(sections@) =~= sort_by_start(orig.take(0)) + orig.skip(0));
    while i < n
        invariant
            n == sections@.len(),
            n == orig.len(),
            i <= n,
            views(sections@) == sort_by_start(orig.take(i as int)) + orig.skip(i as int),
        decreases n - i,
    {
        let ghost sorted = sort_by_start(orig.take(i as int));
        proof {
            lemma_sort_by_start(orig.take(i as int));
        }
        let ghost before = sections@;
        let x = sections.remove(i);
        proof {
            assert(sorted.len() == i);
            assert(views(before)[i as int] == x@);
            assert(views(sections@) =~= views(before).remove(i as int));
            assert(views(before).remove(i as int) =~= sorted + orig.skip(i + 1));
            assert(orig[i as int] == x@);
            assert(sorted.skip(0) =~= sorted);
        }
        let mut j: usize = 0;
        while j < i && sections[j].start <= x.start
            invariant
                i < n,
                sections@.len() == n - 1,
                views(sections@) == sorted + orig.skip(i + 1),
                sorted.len() == i,
                j <= i,
                insert_point(sorted, x.start as int) == j + insert_point(
                    sorted.skip(j as int),
                    x.start as int,
                ),
            decreases i - j,
        {
            proof {
                let t = sorted.skip(j as int);
                assert(t[0] == views(sections@)[j as int]);
                assert(t.drop_first() =~= sorted.skip(j + 1));
            }
            j += 1;
        }
        proof {
            if j < i {
                assert(sorted.skip(j as int)[0] == views(sections@)[j as int]);
            } else {
                assert(sorted.skip(j as int).len() == 0);
            }
            assert(insert_point(sorted, x.start as int) == j);
        }
        let ghost mid = sections@;
        sections.insert(j, x);
        proof {
            assert(orig.take(i + 1).drop_last() =~= orig.take(i as int));
            assert(orig.take(i + 1).last() == x@);
            assert(sort_by_start(orig.take(i + 1)) == sorted.insert(j as int, x@));
            mid.insert_ensures(j as int, x);
            views(mid).insert_ensures(j as int, x@);
            sorted.insert_ensures(j as int, x@);
            assert(views(sections@) =~= views(mid).insert(j as int, x@));
            assert(views(mid).insert(j as int, x@) =~= sorted.insert(j as int, x@) + orig.skip(
                i + 1,
            ));
        }
        i += 1;
    }
    assert(orig.take(n as int) =~= orig);
    assert(views(sections@) =~= sort_by_start(orig));
}

/// Fill the gaps between parsed sections with Unknown sections.
///
/// Sorts the sections by start offset, then adds an Unknown section for
/// each byte range of `[0, data_len)` that no section covers, and sorts again.
pub fn fill_gaps(sections: &mut Vec<FileSection>, data_len: usize)
    ensures
        views(final(sections)@) == filled(views(old(sections)@), data_len as int),
{
    let ghost orig = views(sections@);
    sort_sections(sections);
    let ghost sorted = views(sections@);
    let mut gap_sections: Vec<FileSection> = Vec::new();
    let mut covered_up_to: usize = 0;
    let mut i: usize = 0;
    while i < sections.len()
        invariant
            sorted == views(sections@),
            i <= sections@.len(),
            views(gap_sections@) + gaps_after(sorted, i as int, covered_up_to as int, data_len as int)
                == gaps_after(sorted, 0, 0, data_len as int),
        decreases sections@.len() - i,
    {
        let ghost g = views(gap_sections@);
        let start = sections[i].start;
        let end = sections[i].end;
        if start > covered_up_to {
            gap_sections.push(FileSection::new("Unknown", covered_up_to, start, RiskLevel::Unknown));
        }
        let ghost old_covered = covered_up_to as int;
        if end > covered_up_to {
            covered_up_to = end;
        }
        proof {
            let head = if start > old_covered {
                seq![unknown(old_covered, start as int)]
            } else {
                Seq::<SectionView>::empty()
            };
            assert(views(gap_sections@) =~= g + head);
            assert(sorted[i as int] == sections@[i as int]@);
            assert(gaps_after(sorted, i as int, old_covered, data_len as int) == head + gaps_after(
                sorted,
                i + 1,
                covered_up_to as int,
                data_len as int,
            ));
            assert(g + (head + gaps_after(sorted, i + 1, covered_up_to as int, data_len as int))
                =~= views(gap_sections@) + gaps_after(
                sorted,
                i + 1,
                covered_up_to as int,
                data_len as int,
            ));
        }
        i += 1;
    }
    let ghost g = views(gap_sections@);
    if covered_up_to < data_len {
        gap_sections.push(
            FileSection::new("Unknown", covered_up_to, data_len, RiskLevel::Unknown),
        );
    }
    proof {
        assert(views(gap_sections@) =~= g + gaps_after(
            sorted,
            i as int,
            covered_up_to as int,
            data_len as int,
        ));
    }
    let ghost gathered = views(gap_sections@);
    sections.append(&mut gap_sections);
    proof {
        assert(views(sections@) =~= sorted + gathered);
    }
    sort_sections(sections);
}

/// Parse a file: detect its format, parse it, and fill the gaps with
/// Unknown sections. `None` when no format is recognized.
pub fn parse_file(data: &[u8]) -> (r: Option<Vec<FileSection>>)
    requires
        data@.len() <= isize::MAX,
    ensures
        match detected(data@) {
            None => r is None,
            Some(f) => r matches Some(v) && views(v@) == filled(
                format_sections(f, data@),
                data@.len() as int,
            ),
        },
{
    let parser = match detect_format(data) {
        Some(p) => p,
        None => {
            return None;
        },
    };
    match parser.parse(data) {
        Ok(sections) => {
            let mut sections = sections;
            fill_gaps(&mut sections, data.len());
            Some(sections)
        },
        Err(_) => {
            let mut v: Vec<FileSection> = Vec::new();
            v.push(FileSection::new("Unknown", 0, data.len(), RiskLevel::Unknown));
            Some(v)
        },
    }
}

} // verus!
