//! Lookups of the parsed file structure by byte offset, and the protection
//! of high-risk regions against edits.

use vstd::prelude::*;
use crate::formats::traits::{FileSection, RiskLevel, SectionView, lemma_view_children, views};

verus! {

/// The innermost section covering offset `o`, looking at the sections of `s`
/// from index `i` on: the first one that covers it, or rather the section
/// found the same way among its children when there is one.
pub open spec fn section_from(s: Seq<SectionView>, i: int, o: int) -> Option<SectionView>
    decreases s, s.len() - i,
{
    if i < 0 || i >= s.len() {
        None
    } else if s[i].start <= o < s[i].end {
        proof {
            assert(decreases_to!(s => s[i]));
        }
        match section_from(s[i].children, 0, o) {
            Some(c) => Some(c),
            None => Some(s[i]),
        }
    } else {
        section_from(s, i + 1, o)
    }
}

/// The innermost section covering offset `o`.
pub open spec fn section_at(s: Seq<SectionView>, o: int) -> Option<SectionView> {
    section_from(s, 0, o)
}

/// Whether a risk level is High or Critical.
pub open spec fn is_high_risk(r: RiskLevel) -> bool {
    r == RiskLevel::High || r == RiskLevel::Critical
}

/// Whether offset `o` is protected: protection is on and the innermost
/// section covering it is High or Critical risk.
pub open spec fn offset_protected(s: Seq<SectionView>, protection: bool, o: int) -> bool {
    protection && match section_at(s, o) {
        Some(v) => is_high_risk(v.risk),
        None => false,
    }
}

fn find_from<'a>(sections: &'a [FileSection], i: usize, offset: usize) -> (r: Option<
    &'a FileSection,
>)
    ensures
        match section_from(views(sections@), i as int, offset as int) {
            Some(v) => r matches Some(f) && f@ == v,
            None => r is None,
        },
    decreases sections@, sections@.len() - i,
{
    if i >= sections.len() {
        return None;
    }
    let section = &sections[i];
    proof {
        assert(views(sections@)[i as int] == section@);
    }
    if offset >= section.start && offset < section.end {
        proof {
            lemma_view_children(*section);
            assert(decreases_to!(sections@ => sections@[i as int]));
            assert(decreases_to!(sections@[i as int] => sections@[i as int].children));
            assert(decreases_to!(sections@[i as int].children => sections@[i as int].children@));
        }
        match find_from(section.children.as_slice(), 0, offset) {
            Some(child) => Some(child),
            None => Some(section),
        }
    } else {
        find_from(sections, i + 1, offset)
    }
}

/// The innermost section covering `offset`: the first section that covers
/// it, or the section covering it among that one's children, and so on down.
pub fn section_at_offset<'a>(sections: &'a [FileSection], offset: usize) -> (r: Option<
    &'a FileSection,
>)
    ensures
        match section_at(views(sections@), offset as int) {
            Some(v) => r matches Some(f) && f@ == v,
            None => r is None,
        },
{
    find_from(sections, 0, offset)
}

/// Whether `offset` is in a protected region: header protection is on and
/// the section there is High or Critical risk.
pub fn is_offset_protected(sections: &[FileSection], header_protection: bool, offset: usize) -> (r:
    bool)
    ensures
        r == offset_protected(views(sections@), header_protection, offset as int),
{
    if !header_protection {
        return false;
    }
    match section_at_offset(sections, offset) {
        Some(section) => section.risk == RiskLevel::High || section.risk == RiskLevel::Critical,
        None => false,
    }
}

/// Whether any byte of `[start, start + len)` is in a protected region.
pub fn is_range_protected(
    sections: &[FileSection],
    header_protection: bool,
    start: usize,
    len: usize,
) -> (r: bool)
    requires
        start + len <= usize::MAX,
    ensures
        r == exists|o: int|
            start <= o < start + len && #[trigger] offset_protected(
                views(sections@),
                header_protection,
                o,
            ),
{
    if !header_protection || len == 0 {
        return false;
    }
    let mut o = start;
    while o < start + len
        invariant
            header_protection,
            start <= o <= start + len <= usize::MAX,
            forall|k: int| start <= k < o ==> !#[trigger] offset_protected(
                views(sections@),
                header_protection,
                k,
            ),
        decreases start + len - o,
    {
        if is_offset_protected(sections, header_protection, o) {
            return true;
        }
        o += 1;
    }
    false
}

/// The risk level at `offset` when it is High or Critical.
pub fn get_high_risk_level(sections: &[FileSection], offset: usize) -> (r: Option<RiskLevel>)
    ensures
        r == match section_at(views(sections@), offset as int) {
            Some(v) => if is_high_risk(v.risk) {
                Some(v.risk)
            } else {
                None
            },
            None => None,
        },
{
    match section_at_offset(sections, offset) {
        Some(section) => if section.risk == RiskLevel::High || section.risk == RiskLevel::Critical {
            Some(section.risk)
        } else {
            None
        },
        None => None,
    }
}

/// Whether editing at `offset` should show a warning: warnings are not
/// suppressed and the section there is High or Critical risk.
pub fn should_warn_for_edit(sections: &[FileSection], suppress_warnings: bool, offset: usize) -> (r:
    bool)
    ensures
        r == (!suppress_warnings && match section_at(views(sections@), offset as int) {
            Some(v) => is_high_risk(v.risk),
            None => false,
        }),
{
    if suppress_warnings {
        return false;
    }
    get_high_risk_level(sections, offset).is_some()
}

} // verus!
