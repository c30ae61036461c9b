//! Sections of a parsed file, and the interface of format parsers.

use vstd::prelude::*;
use crate::text::owned;

verus! {

/// Error returned when a parser cannot parse the given data.
#[derive(Debug, Clone, Copy, PartialEq, Eq, Structural)]
pub enum ParseError {
    /// The file signature does not match the expected format.
    InvalidSignature,
}

impl ParseError {
    /// Human-readable description of the error.
    pub fn message(&self) -> (r: String)
        ensures
            r@ == "Invalid file signature"@,
    {
        match self {
            ParseError::InvalidSignature => owned("Invalid file signature"),
        }
    }
}

/// Risk level for editing a section.
#[derive(Clone, Copy, Debug, PartialEq, Eq, Structural)]
pub enum RiskLevel {
    /// Safe to edit: won't break the file structure.
    Safe,
    /// May affect the image's appearance but won't corrupt the file.
    Caution,
    /// Likely to corrupt the file or make it unreadable.
    High,
    /// Editing will almost certainly break the file.
    Critical,
    /// Unrecognized data region (not a header, no special protection).
    Unknown,
}

impl RiskLevel {
    /// A human-readable label for this risk level.
    pub fn label(self) -> (r: &'static str)
        ensures
            r@ == match self {
                RiskLevel::Safe => "Safe"@,
                RiskLevel::Caution => "Caution"@,
                RiskLevel::High => "High Risk"@,
                RiskLevel::Critical => "Critical"@,
                RiskLevel::Unknown => "Unknown"@,
            },
    {
        match self {
            RiskLevel::Safe => "Safe",
            RiskLevel::Caution => "Caution",
            RiskLevel::High => "High Risk",
            RiskLevel::Critical => "Critical",
            RiskLevel::Unknown => "Unknown",
        }
    }
}

/// A section of the file, with metadata.
#[derive(Debug)]
pub struct FileSection {
    /// Human-readable name.
    pub name: String,
    /// Start offset in bytes.
    pub start: usize,
    /// End offset in bytes (exclusive).
    pub end: usize,
    /// Risk level for editing this section.
    pub risk: RiskLevel,
    /// Optional description.
    pub description: Option<String>,
    /// Child sections (for nested structures).
    pub children: Vec<FileSection>,
}

/// The content of a [`FileSection`].
#[verifier::ext_equal]
pub ghost struct SectionView {
    pub name: Seq<char>,
    pub start: int,
    pub end: int,
    pub risk: RiskLevel,
    pub description: Option<Seq<char>>,
    pub children: Seq<SectionView>,
}

/// The content of a section, children included.
pub open spec fn section_view(s: FileSection) -> SectionView
    decreases s,
{
    SectionView {
        name: s.name@,
        start: s.start as int,
        end: s.end as int,
        risk: s.risk,
        description: match s.description {
            Some(d) => Some(d@),
            None => None,
        },
        children: Seq::new(
            s.children@.len(),
            |i: int|
                if 0 <= i < s.children@.len() {
                    section_view(s.children@[i])
                } else {
                    arbitrary()
                },
        ),
    }
}

impl View for FileSection {
    type V = SectionView;

    open spec fn view(&self) -> SectionView {
        section_view(*self)
    }
}

/// The views of a list of sections.
pub open spec fn views(s: Seq<FileSection>) -> Seq<SectionView> {
    s.map_values(|f: FileSection| f@)
}

/// A section with no description and no children.
pub open spec fn leaf(name: Seq<char>, start: int, end: int, risk: RiskLevel) -> SectionView {
    SectionView { name, start, end, risk, description: None, children: Seq::empty() }
}

/// `v` with description `d`.
pub open spec fn described(v: SectionView, d: Seq<char>) -> SectionView {
    SectionView { description: Some(d), ..v }
}

/// `v` with `c` appended to its children.
pub open spec fn with_kid(v: SectionView, c: SectionView) -> SectionView {
    SectionView { children: v.children.push(c), ..v }
}

pub proof fn lemma_view_children(s: FileSection)
    ensures
        s@.children == views(s.children@),
{
    assert forall|i: int| 0 <= i < s.children@.len() implies #[trigger] s@.children[i] == views(
        s.children@,
    )[i] by {
        assert(s@.children[i] == s.children@[i]@);
    }
    assert(s@.children =~= views(s.children@));
}

impl FileSection {
    /// Create a section with no description and no children.
    pub fn new(name: &str, start: usize, end: usize, risk: RiskLevel) -> (r: Self)
        ensures
            r@ == leaf(name@, start as int, end as int, risk),
    {
        let r = FileSection {
            name: owned(name),
            start,
            end,
            risk,
            description: None,
            children: Vec::new(),
        };
        assert(r@.children =~= Seq::<SectionView>::empty());
        r
    }

    /// Create a section named by an owned string.
    pub fn named(name: String, start: usize, end: usize, risk: RiskLevel) -> (r: Self)
        ensures
            r@ == leaf(name@, start as int, end as int, risk),
    {
        let r = FileSection { name, start, end, risk, description: None, children: Vec::new() };
        assert(r@.children =~= Seq::<SectionView>::empty());
        r
    }

    /// Add a description.
    pub fn with_description(self, desc: &str) -> (r: Self)
        ensures
            r@ == described(self@, desc@),
    {
        let mut s = self;
        s.description = Some(owned(desc));
        assert(s@.children =~= self@.children);
        s
    }

    /// Add child sections, in order.
    pub fn with_children(self, kids: Vec<FileSection>) -> (r: Self)
        ensures
            r@ == (SectionView { children: self@.children + views(kids@), ..self@ }),
    {
        let mut s = self;
        let mut kids = kids;
        let ghost before = s.children@;
        let ghost added = kids@;
        proof {
            lemma_view_children(s);
        }
        s.children.append(&mut kids);
        proof {
            lemma_view_children(s);
            assert(views(s.children@) =~= views(before) + views(added));
        }
        s
    }

    /// Add a child section.
    pub fn with_child(self, child: FileSection) -> (r: Self)
        ensures
            r@ == with_kid(self@, child@),
    {
        let mut s = self;
        let ghost before = s.children@;
        proof {
            lemma_view_children(s);
        }
        s.children.push(child);
        proof {
            lemma_view_children(s);
            assert(views(s.children@) =~= views(before).push(child@));
        }
        s
    }
}

/// A parser for one image format.
pub trait ImageFormat {
    /// Parse the file structure and return its sections.
    fn parse(&self, data: &[u8]) -> (r: Result<Vec<FileSection>, ParseError>)
        requires
            data@.len() <= isize::MAX,
    ;

    /// Whether this parser can handle the given data.
    fn can_parse(&self, data: &[u8]) -> (r: bool);
}

} // verus!
