//! Search and replace: hex patterns with `??` wildcards and ASCII strings.

use vstd::prelude::*;
use crate::text::{around_char, owned, spec_ascii_lower, spec_digit_value, spec_is_whitespace};
use super::go_to_offset::chars_of;
use vstd::string::StringSliceAdditionalSpecFns;
use vstd::utf8::encode_utf8;

verus! {

/// Search mode: hex pattern or ASCII string.
#[derive(Debug, Clone, Copy, PartialEq, Eq, Structural)]
pub enum SearchMode {
    /// Hex pattern search (e.g. "FF D8 FF", or "FF ?? FF" with wildcards).
    Hex,
    /// ASCII string search.
    Ascii,
}

impl Default for SearchMode {
    fn default() -> (r: Self)
        ensures
            r == SearchMode::Hex,
    {
        SearchMode::Hex
    }
}

/// An element of a parsed hex pattern.
#[derive(Debug, Clone, Copy, PartialEq, Eq, Structural)]
pub enum PatternElement {
    /// Exact byte match.
    Byte(u8),
    /// Matches any byte.
    Wildcard,
}

/// A message from a search/replace operation.
#[derive(Debug, Clone, PartialEq)]
pub enum SearchMessage {
    /// A real error (parse failure, protection violation, ...).
    Error(String),
    /// An informational message.
    Info(String),
}

/// The content of a [`SearchMessage`].
pub ghost enum MessageView {
    Error(Seq<char>),
    Info(Seq<char>),
}

impl View for SearchMessage {
    type V = MessageView;

    open spec fn view(&self) -> MessageView {
        match self {
            SearchMessage::Error(s) => MessageView::Error(s@),
            SearchMessage::Info(s) => MessageView::Info(s@),
        }
    }
}

/// Search state and results.
pub struct SearchState {
    /// The current search query.
    pub query: String,
    /// Search mode (hex or ASCII).
    pub mode: SearchMode,
    /// Case-sensitive search (ASCII mode only).
    pub case_sensitive: bool,
    /// All match positions (byte offsets).
    pub matches: Vec<usize>,
    /// Every offset inside some match (for highlighting).
    highlighted_offsets: Vec<usize>,
    /// Current match index (for next/previous navigation).
    pub current_match: Option<usize>,
    /// Whether the search dialog is visible.
    pub dialog_open: bool,
    /// Replacement text.
    pub replace_with: String,
    /// Last search/replace message.
    pub message: Option<SearchMessage>,
    /// Pattern length of the last search.
    cached_pattern_len: usize,
    /// Whether the dialog was just opened (for focusing it).
    pub just_opened: bool,
    /// Query that produced the current matches.
    last_searched_query: String,
    /// Mode that produced the current matches.
    last_searched_mode: SearchMode,
    /// Case sensitivity that produced the current matches.
    last_searched_case_sensitive: bool,
    /// Editor generation when the search was last executed.
    searched_at_generation: u64,
}

/// Everything a [`SearchState`] holds, as mathematical values.
pub ghost struct SearchView {
    pub query: Seq<char>,
    pub mode: SearchMode,
    pub case_sensitive: bool,
    pub matches: Seq<usize>,
    pub highlighted: Seq<usize>,
    pub current_match: Option<usize>,
    pub dialog_open: bool,
    pub replace_with: Seq<char>,
    pub message: Option<MessageView>,
    pub pattern_len: usize,
    pub just_opened: bool,
    pub last_query: Seq<char>,
    pub last_mode: SearchMode,
    pub last_case_sensitive: bool,
    pub searched_generation: u64,
}

impl View for SearchState {
    type V = SearchView;

    closed spec fn view(&self) -> SearchView {
        SearchView {
            query: self.query@,
            mode: self.mode,
            case_sensitive: self.case_sensitive,
            matches: self.matches@,
            highlighted: self.highlighted_offsets@,
            current_match: self.current_match,
            dialog_open: self.dialog_open,
            replace_with: self.replace_with@,
            message: match self.message {
                Some(m) => Some(m@),
                None => None,
            },
            pattern_len: self.cached_pattern_len,
            just_opened: self.just_opened,
            last_query: self.last_searched_query@,
            last_mode: self.last_searched_mode,
            last_case_sensitive: self.last_searched_case_sensitive,
            searched_generation: self.searched_at_generation,
        }
    }
}

/// `r` lists, in increasing order, exactly the positions in `[0, n)` satisfying `p`.
pub open spec fn lists_positions(r: Seq<usize>, n: int, p: spec_fn(int) -> bool) -> bool {
    &&& forall|k: int| 0 <= k < r.len() ==> 0 <= #[trigger] r[k] < n && p(r[k] as int)
    &&& forall|a: int, b: int| 0 <= a < b < r.len() ==> #[trigger] r[a] < #[trigger] r[b]
    &&& forall|i: int| 0 <= i < n && #[trigger] p(i) ==> r.contains(i as usize)
}

/// Whether `pattern` matches `data` at position `i`.
pub open spec fn pattern_matches_at(data: Seq<u8>, pattern: Seq<PatternElement>, i: int) -> bool {
    &&& 0 <= i
    &&& i + pattern.len() <= data.len()
    &&& forall|j: int|
        0 <= j < pattern.len() ==> (#[trigger] pattern[j] matches PatternElement::Byte(b) ==> data[i
            + j] == b)
}

/// Whether `needle` occurs in `data` at position `i`, comparing ASCII-lowercased
/// data bytes when `fold` is set.
pub open spec fn bytes_match_at(data: Seq<u8>, needle: Seq<u8>, fold: bool, i: int) -> bool {
    &&& 0 <= i
    &&& i + needle.len() <= data.len()
    &&& forall|j: int|
        0 <= j < needle.len() ==> #[trigger] needle[j] == (if fold {
            spec_ascii_lower(data[i + j])
        } else {
            data[i + j]
        })
}

/// The lowercase of a string as `str::to_lowercase` computes it (the full
/// Unicode case mapping, which this name stands for rather than spells out).
pub uninterp spec fn lowercase_chars(s: Seq<char>) -> Seq<char>;

/// Calls `str::to_lowercase`. Its result depends on the argument alone; it is
/// named [`lowercase_chars`] rather than written out.
#[verifier::external_body]
fn to_lowercase(s: &str) -> (r: String)
    ensures
        r@ == lowercase_chars(s@),
{
    s.to_lowercase()
}

/// The elements of a hex pattern, or the message of the first error.
pub open spec fn hex_elements(s: Seq<char>) -> Result<Seq<PatternElement>, Seq<char>>
    decreases s.len(),
{
    if s.len() == 0 {
        Ok(Seq::empty())
    } else {
        let c = s[0];
        if spec_is_whitespace(c) {
            hex_elements(s.drop_first())
        } else if c == '?' {
            let rest = if s.len() > 1 && s[1] == '?' {
                s.subrange(2, s.len() as int)
            } else {
                s.drop_first()
            };
            prepend_element(PatternElement::Wildcard, hex_elements(rest))
        } else if spec_digit_value(c) < 16 {
            if s.len() < 2 {
                Err("Incomplete hex byte: expected second digit"@)
            } else if spec_is_whitespace(s[1]) && s.len() < 3 {
                Err("Incomplete hex byte: expected second digit after space"@)
            } else {
                let (low_char, rest) = if spec_is_whitespace(s[1]) {
                    (s[2], s.subrange(3, s.len() as int))
                } else {
                    (s[1], s.subrange(2, s.len() as int))
                };
                if spec_digit_value(low_char) < 16 {
                    prepend_element(
                        PatternElement::Byte(
                            (spec_digit_value(c) * 16 + spec_digit_value(low_char)) as u8,
                        ),
                        hex_elements(rest),
                    )
                } else {
                    Err("Invalid hex digit: '"@ + seq![low_char] + "'"@)
                }
            }
        } else {
            Err("Invalid character in hex pattern: '"@ + seq![c] + "'"@)
        }
    }
}

/// `e` followed by the parsed elements, or the error.
pub open spec fn prepend_element(e: PatternElement, r: Result<Seq<PatternElement>, Seq<char>>) -> Result<
    Seq<PatternElement>,
    Seq<char>,
> {
    match r {
        Ok(els) => Ok(seq![e] + els),
        Err(m) => Err(m),
    }
}

/// `prefix` followed by the parsed elements, or the error.
pub open spec fn prepend_all(prefix: Seq<PatternElement>, r: Result<Seq<PatternElement>, Seq<char>>) -> Result<
    Seq<PatternElement>,
    Seq<char>,
> {
    match r {
        Ok(els) => Ok(prefix + els),
        Err(m) => Err(m),
    }
}

/// The result of [`parse_hex_pattern`] on `s`.
pub open spec fn parse_hex_pattern_result(s: Seq<char>) -> Result<Seq<PatternElement>, Seq<char>> {
    match hex_elements(s) {
        Ok(els) => if els.len() == 0 {
            Err("Empty pattern"@)
        } else {
            Ok(els)
        },
        Err(m) => Err(m),
    }
}

/// Whether a pattern holds a wildcard.
pub open spec fn has_wildcard(p: Seq<PatternElement>) -> bool {
    exists|i: int| 0 <= i < p.len() && p[i] == PatternElement::Wildcard
}

/// The bytes of a wildcard-free pattern.
pub open spec fn pattern_bytes(p: Seq<PatternElement>) -> Seq<u8> {
    p.map_values(
        |e: PatternElement|
            match e {
                PatternElement::Byte(b) => b,
                PatternElement::Wildcard => 0u8,
            },
    )
}

/// The result of [`parse_hex_replace`] on `s`.
pub open spec fn parse_hex_replace_result(s: Seq<char>) -> Result<Seq<u8>, Seq<char>> {
    match parse_hex_pattern_result(s) {
        Ok(p) => if has_wildcard(p) {
            Err("Replace pattern cannot contain wildcards"@)
        } else {
            Ok(pattern_bytes(p))
        },
        Err(m) => Err(m),
    }
}

proof fn lemma_tail(s: Seq<char>, i: int, k: int)
    requires
        0 <= i <= i + k <= s.len(),
    ensures
        s.subrange(i, s.len() as int).subrange(k, s.len() - i) == s.subrange(i + k, s.len() as int),
        s.subrange(i, s.len() as int).drop_first() == s.subrange(i + 1, s.len() as int) || i == s.len(),
{
    assert(s.subrange(i, s.len() as int).subrange(k, s.len() - i) =~= s.subrange(
        i + k,
        s.len() as int,
    ));
    if i < s.len() {
        assert(s.subrange(i, s.len() as int).drop_first() =~= s.subrange(i + 1, s.len() as int));
    }
}

/// Parse a hex pattern such as "FF D8 FF", "FFD8FF" or "FF ?? FF".
pub fn parse_hex_pattern(pattern: &str) -> (r: Result<Vec<PatternElement>, String>)
    ensures
        match parse_hex_pattern_result(pattern@) {
            Ok(p) => r is Ok && r->Ok_0@ == p,
            Err(m) => r is Err && r->Err_0@ == m,
        },
{
    let c = chars_of(pattern);
    let n = c.len();
    let mut elements: Vec<PatternElement> = Vec::new();
    let mut i: usize = 0;
    proof {
        assert(c@.subrange(0, n as int) =~= c@);
        match hex_elements(c@) {
            Ok(e) => {
                assert(elements@ + e =~= e);
            },
            Err(_) => {},
        }
    }
    while i < n
        invariant
            n == c@.len(),
            i <= n,
            c@ == pattern@,
            hex_elements(c@) == prepend_all(elements@, hex_elements(c@.subrange(i as int, n as int))),
        decreases n - i,
    {
        let ghost rest = c@.subrange(i as int, n as int);
        let ghost prev = elements@;
        let ch = c[i];
        proof {
            assert(rest[0] == ch);
            lemma_tail(c@, i as int, 1);
        }
        if ch.is_whitespace() {
            i += 1;
        } else if ch == '?' {
            if i + 1 < n && c[i + 1] == '?' {
                proof {
                    assert(rest[1] == c@[i + 1]);
                    lemma_tail(c@, i as int, 2);
                }
                i += 2;
            } else {
                proof {
                    if i + 1 < n {
                        assert(rest[1] == c@[i + 1]);
                    }
                }
                i += 1;
            }
            elements.push(PatternElement::Wildcard);
            proof {
                assert(prev + (seq![PatternElement::Wildcard] + hex_elements(
                    c@.subrange(i as int, n as int),
                )->Ok_0) =~= elements@ + hex_elements(c@.subrange(i as int, n as int))->Ok_0);
            }
        } else if let Some(high) = ch.to_digit(16) {
            if i + 1 >= n {
                return Err(owned("Incomplete hex byte: expected second digit"));
            }
            let mut low_char = c[i + 1];
            let mut consumed: usize = 2;
            proof {
                assert(rest[1] == c@[i + 1]);
            }
            if low_char.is_whitespace() {
                if i + 2 >= n {
                    return Err(owned("Incomplete hex byte: expected second digit after space"));
                }
                low_char = c[i + 2];
                consumed = 3;
                proof {
                    assert(rest[2] == c@[i + 2]);
                }
            }
            let low = match low_char.to_digit(16) {
                Some(d) => d,
                None => {
                    return Err(around_char("Invalid hex digit: '", low_char, "'"));
                },
            };
            let byte = (high * 16 + low) as u8;
            proof {
                lemma_tail(c@, i as int, consumed as int);
            }
            i += consumed;
            elements.push(PatternElement::Byte(byte));
            proof {
                assert(prev + (seq![PatternElement::Byte(byte)] + hex_elements(
                    c@.subrange(i as int, n as int),
                )->Ok_0) =~= elements@ + hex_elements(c@.subrange(i as int, n as int))->Ok_0);
            }
        } else {
            return Err(around_char("Invalid character in hex pattern: '", ch, "'"));
        }
    }
    proof {
        assert(c@.subrange(n as int, n as int) =~= Seq::<char>::empty());
        assert(elements@ + Seq::<PatternElement>::empty() =~= elements@);
    }
    if elements.len() == 0 {
        return Err(owned("Empty pattern"));
    }
    Ok(elements)
}

/// Parse a replacement pattern (hex bytes, no wildcards).
pub fn parse_hex_replace(pattern: &str) -> (r: Result<Vec<u8>, String>)
    ensures
        match parse_hex_replace_result(pattern@) {
            Ok(b) => r is Ok && r->Ok_0@ == b,
            Err(m) => r is Err && r->Err_0@ == m,
        },
{
    let elements = match parse_hex_pattern(pattern) {
        Ok(e) => e,
        Err(m) => {
            return Err(m);
        },
    };
    let mut bytes: Vec<u8> = Vec::new();
    let mut i: usize = 0;
    while i < elements.len()
        invariant
            i <= elements@.len(),
            parse_hex_pattern_result(pattern@) == Ok::<Seq<PatternElement>, Seq<char>>(elements@),
            forall|k: int| 0 <= k < i ==> elements@[k] != PatternElement::Wildcard,
            bytes@ == pattern_bytes(elements@.subrange(0, i as int)),
        decreases elements@.len() - i,
    {
        match elements[i] {
            PatternElement::Byte(b) => {
                bytes.push(b);
            },
            PatternElement::Wildcard => {
                proof {
                    assert(elements@[i as int] == PatternElement::Wildcard);
                    assert(parse_hex_pattern_result(pattern@) is Ok);
                    assert(parse_hex_pattern_result(pattern@)->Ok_0 == elements@);
                    assert(has_wildcard(elements@));
                }
                return Err(owned("Replace pattern cannot contain wildcards"));
            },
        }
        i += 1;
        assert(bytes@ =~= pattern_bytes(elements@.subrange(0, i as int)));
    }
    assert(elements@.subrange(0, i as int) =~= elements@);
    Ok(bytes)
}

/// Whether pattern element `j` accepts the data byte at `i + j`.
fn element_accepts(data: &[u8], pattern: &[PatternElement], i: usize, j: usize) -> (r: bool)
    requires
        j < pattern@.len(),
        i + pattern@.len() <= data@.len(),
    ensures
        r == (pattern@[j as int] matches PatternElement::Byte(b) ==> data@[i + j] == b),
{
    match pattern[j] {
        PatternElement::Byte(b) => {
            let n = data.len();
            assert(i + j < n);
            data[i + j] == b
        },
        PatternElement::Wildcard => true,
    }
}

/// Whether needle byte `j` equals the (possibly lowercased) data byte at `i + j`.
fn byte_accepts(data: &[u8], needle: &[u8], fold: bool, i: usize, j: usize) -> (r: bool)
    requires
        j < needle@.len(),
        i + needle@.len() <= data@.len(),
    ensures
        r == (needle@[j as int] == (if fold {
            spec_ascii_lower(data@[i + j])
        } else {
            data@[i + j]
        })),
{
    let n = data.len();
    assert(i + j < n);
    let db = if fold {
        data[i + j].to_ascii_lowercase()
    } else {
        data[i + j]
    };
    db == needle[j]
}

/// Positions in `data` where `pattern` matches, in increasing order.
pub fn search_hex(data: &[u8], pattern: &[PatternElement]) -> (r: Vec<usize>)
    ensures
        (pattern@.len() == 0 || data@.len() < pattern@.len()) ==> r@ == Seq::<usize>::empty(),
        (pattern@.len() > 0 && data@.len() >= pattern@.len()) ==> lists_positions(
            r@,
            data@.len() - pattern@.len() + 1,
            |i: int| pattern_matches_at(data@, pattern@, i),
        ),
{
    let mut matches: Vec<usize> = Vec::new();
    if pattern.len() == 0 || data.len() < pattern.len() {
        return matches;
    }
    let end = data.len() - pattern.len() + 1;
    let mut i: usize = 0;
    while i < end
        invariant
            end == data@.len() - pattern@.len() + 1,
            data@.len() >= pattern@.len() > 0,
            i <= end,
            forall|k: int| 0 <= k < matches@.len() ==> #[trigger] matches@[k] < i
                && pattern_matches_at(data@, pattern@, matches@[k] as int),
            forall|a: int, b: int| 0 <= a < b < matches@.len() ==> #[trigger] matches@[a]
                < #[trigger] matches@[b],
            forall|k: int| 0 <= k < i && #[trigger] pattern_matches_at(data@, pattern@, k) ==> matches@.contains(
                k as usize,
            ),
        decreases end - i,
    {
        let mut j: usize = 0;
        while j < pattern.len() && element_accepts(data, pattern, i, j)
            invariant
                i < end,
                end == data@.len() - pattern@.len() + 1,
                j <= pattern@.len(),
                forall|k: int|
                    0 <= k < j ==> (#[trigger] pattern@[k] matches PatternElement::Byte(b) ==> data@[i
                        + k] == b),
            decreases pattern@.len() - j,
        {
            j += 1;
        }
        let found = j == pattern.len();
        proof {
            if !found {
                assert(!pattern_matches_at(data@, pattern@, i as int));
            }
        }
        let ghost before = matches@;
        if found {
            matches.push(i);
            proof {
                assert forall|k: int| 0 <= k < i + 1 && #[trigger] pattern_matches_at(data@, pattern@, k) implies matches@.contains(
                    k as usize,
                ) by {
                    if k < i {
                        let idx = choose|idx: int| 0 <= idx < before.len() && #[trigger] before[idx] == k as usize;
                        assert(matches@[idx] == k as usize);
                    } else {
                        assert(matches@[matches@.len() - 1] == k as usize);
                    }
                }
            }
        }
        i += 1;
    }
    matches
}

/// Positions in `data` where `needle` occurs (comparing ASCII-lowercased data
/// bytes when `fold` is set), in increasing order; empty for an empty needle.
pub fn search_bytes(data: &[u8], needle: &[u8], fold: bool) -> (r: Vec<usize>)
    ensures
        (needle@.len() == 0 || data@.len() < needle@.len()) ==> r@ == Seq::<usize>::empty(),
        (needle@.len() > 0 && data@.len() >= needle@.len()) ==> lists_positions(
            r@,
            data@.len() - needle@.len() + 1,
            |i: int| bytes_match_at(data@, needle@, fold, i),
        ),
{
    let mut matches: Vec<usize> = Vec::new();
    if needle.len() == 0 || data.len() < needle.len() {
        return matches;
    }
    let end = data.len() - needle.len() + 1;
    let mut i: usize = 0;
    while i < end
        invariant
            end == data@.len() - needle@.len() + 1,
            data@.len() >= needle@.len() > 0,
            i <= end,
            forall|k: int| 0 <= k < matches@.len() ==> #[trigger] matches@[k] < i
                && bytes_match_at(data@, needle@, fold, matches@[k] as int),
            forall|a: int, b: int| 0 <= a < b < matches@.len() ==> #[trigger] matches@[a]
                < #[trigger] matches@[b],
            forall|k: int| 0 <= k < i && #[trigger] bytes_match_at(data@, needle@, fold, k) ==> matches@.contains(
                k as usize,
            ),
        decreases end - i,
    {
        let mut j: usize = 0;
        while j < needle.len() && byte_accepts(data, needle, fold, i, j)
            invariant
                i < end,
                end == data@.len() - needle@.len() + 1,
                j <= needle@.len(),
                forall|k: int|
                    0 <= k < j ==> #[trigger] needle@[k] == (if fold {
                        spec_ascii_lower(data@[i + k])
                    } else {
                        data@[i + k]
                    }),
            decreases needle@.len() - j,
        {
            j += 1;
        }
        let found = j == needle.len();
        proof {
            if !found {
                assert(!bytes_match_at(data@, needle@, fold, i as int));
            }
        }
        let ghost before = matches@;
        if found {
            matches.push(i);
            proof {
                assert forall|k: int| 0 <= k < i + 1 && #[trigger] bytes_match_at(data@, needle@, fold, k) implies matches@.contains(
                    k as usize,
                ) by {
                    if k < i {
                        let idx = choose|idx: int| 0 <= idx < before.len() && #[trigger] before[idx] == k as usize;
                        assert(matches@[idx] == k as usize);
                    } else {
                        assert(matches@[matches@.len() - 1] == k as usize);
                    }
                }
            }
        }
        i += 1;
    }
    matches
}

/// The bytes searched for by [`search_ascii`]: the query's UTF-8 bytes, or
/// those of its lowercase when the search ignores case.
pub open spec fn ascii_needle(query: Seq<char>, case_sensitive: bool) -> Seq<u8> {
    if case_sensitive {
        encode_utf8(query)
    } else {
        encode_utf8(lowercase_chars(query))
    }
}

/// Positions in `data` where the string `query` occurs, in increasing order.
/// When the search ignores case, the query is lowercased and data bytes are
/// compared ASCII-lowercased.
pub fn search_ascii(data: &[u8], query: &str, case_sensitive: bool) -> (r: Vec<usize>)
    ensures
        (query@.len() == 0 || data@.len() < query.len()) ==> r@ == Seq::<usize>::empty(),
        !(query@.len() == 0 || data@.len() < query.len()) ==> {
            let needle = ascii_needle(query@, case_sensitive);
            &&& (needle.len() == 0 || data@.len() < needle.len()) ==> r@ == Seq::<usize>::empty()
            &&& (needle.len() > 0 && data@.len() >= needle.len()) ==> lists_positions(
                r@,
                data@.len() - needle.len() + 1,
                |i: int| bytes_match_at(data@, needle, !case_sensitive, i),
            )
        },
{
    if query.is_empty() || data.len() < query.len() {
        return Vec::new();
    }
    if case_sensitive {
        search_bytes(data, query.as_bytes(), false)
    } else {
        let lowered = to_lowercase(query);
        search_bytes(data, lowered.as_str().as_bytes(), true)
    }
}

impl Default for SearchState {
    fn default() -> (r: Self)
        ensures
            r@ == (SearchView {
                query: Seq::empty(),
                mode: SearchMode::Hex,
                case_sensitive: false,
                matches: Seq::empty(),
                highlighted: Seq::empty(),
                current_match: None,
                dialog_open: false,
                replace_with: Seq::empty(),
                message: None,
                pattern_len: 0,
                just_opened: false,
                last_query: Seq::empty(),
                last_mode: SearchMode::Hex,
                last_case_sensitive: false,
                searched_generation: 0,
            }),
    {
        SearchState {
            query: String::new(),
            mode: SearchMode::Hex,
            case_sensitive: false,
            matches: Vec::new(),
            highlighted_offsets: Vec::new(),
            current_match: None,
            dialog_open: false,
            replace_with: String::new(),
            message: None,
            cached_pattern_len: 0,
            just_opened: false,
            last_searched_query: String::new(),
            last_searched_mode: SearchMode::Hex,
            last_searched_case_sensitive: false,
            searched_at_generation: 0,
        }
    }
}

/// Whether `o` lies inside one of the matches (each `len` bytes long).
pub open spec fn inside_some_match(matches: Seq<usize>, len: int, o: int) -> bool {
    exists|k: int| 0 <= k < matches.len() && #[trigger] matches[k] <= o < matches[k] + len
}


/// The search state after moving to the next match: the first one when
/// none is selected, wrapping after the last; none when there are no matches.
pub open spec fn after_next(v: SearchView) -> SearchView {
    SearchView {
        current_match: if v.matches.len() == 0 {
            None
        } else {
            match v.current_match {
                None => Some(0usize),
                Some(i) => Some(((i + 1) % v.matches.len() as int) as usize),
            }
        },
        ..v
    }
}

/// The search state after moving to the previous match: the last one when
/// none is selected or the first is, none when there are no matches.
pub open spec fn after_prev(v: SearchView) -> SearchView {
    SearchView {
        current_match: if v.matches.len() == 0 {
            None
        } else {
            match v.current_match {
                None => Some((v.matches.len() - 1) as usize),
                Some(i) => if i == 0 {
                    Some((v.matches.len() - 1) as usize)
                } else {
                    Some((i - 1) as usize)
                },
            }
        },
        ..v
    }
}

/// Next then Previous, or Previous then Next, comes back to the selected
/// match.
pub proof fn law_next_prev_inverse(v: SearchView)
    requires
        v.current_match matches Some(i) && i < v.matches.len(),
        v.matches.len() <= usize::MAX,
    ensures
        after_prev(after_next(v)) == v,
        after_next(after_prev(v)) == v,
{
    let n = v.matches.len() as int;
    let i = v.current_match->0 as int;
    let nx = after_next(v);
    if i + 1 < n {
        assert((i + 1) % n == i + 1) by (nonlinear_arith)
            requires
                0 <= i + 1 < n,
        ;
        assert(nx.current_match == Some((i + 1) as usize));
    } else {
        assert((i + 1) % n == 0) by (nonlinear_arith)
            requires
                i + 1 == n,
                n > 0,
        ;
        assert(nx.current_match == Some(0usize));
    }
    assert(after_prev(nx).current_match == v.current_match);
    assert(after_prev(nx) == v);
    let pv = after_prev(v);
    if i == 0 {
        assert(pv.current_match == Some((n - 1) as usize));
        assert(((n - 1) + 1) % n == 0) by (nonlinear_arith)
            requires
                n > 0,
        ;
    } else {
        assert(pv.current_match == Some((i - 1) as usize));
        assert(((i - 1) + 1) % n == i) by (nonlinear_arith)
            requires
                0 < i < n,
        ;
    }
    assert(after_next(pv).current_match == v.current_match);
    assert(after_next(pv) == v);
}

impl SearchState {
    /// Open the search dialog.
    pub fn open_dialog(&mut self)
        ensures
            final(self)@ == (SearchView { dialog_open: true, just_opened: true, ..old(self)@ }),
    {
        self.dialog_open = true;
        self.just_opened = true;
    }

    /// Close the search dialog and clear results and highlights.
    pub fn close_dialog(&mut self)
        ensures
            final(self)@ == (SearchView {
                dialog_open: false,
                matches: Seq::empty(),
                highlighted: Seq::empty(),
                current_match: None,
                message: None,
                pattern_len: 0,
                last_query: Seq::empty(),
                last_mode: SearchMode::Hex,
                last_case_sensitive: false,
                ..old(self)@
            }),
    {
        self.dialog_open = false;
        self.clear_results();
    }

    /// Whether `offset` lies inside a highlighted match.
    pub fn is_within_match(&self, offset: usize) -> (r: bool)
        ensures
            r == self@.highlighted.contains(offset),
    {
        let mut i: usize = 0;
        while i < self.highlighted_offsets.len()
            invariant
                i <= self@.highlighted.len(),
                forall|k: int| 0 <= k < i ==> self@.highlighted[k] != offset,
            decreases self@.highlighted.len() - i,
        {
            if self.highlighted_offsets[i] == offset {
                proof {
                    assert(self@.highlighted[i as int] == offset);
                }
                return true;
            }
            i += 1;
        }
        false
    }

    /// The offsets of the matches, in increasing order.
    pub fn match_offsets(&self) -> (r: &[usize])
        ensures
            r@ == self@.matches,
    {
        self.matches.as_slice()
    }

    /// The replacement text.
    pub fn replacement_text(&self) -> (r: &str)
        ensures
            r@ == self@.replace_with,
    {
        self.replace_with.as_str()
    }

    /// The search mode.
    pub fn search_mode(&self) -> (r: SearchMode)
        ensures
            r == self@.mode,
    {
        self.mode
    }

    /// The index of the selected match, if any.
    pub fn current_match_index(&self) -> (r: Option<usize>)
        ensures
            r == self@.current_match,
    {
        self.current_match
    }

    /// Select match `index` (or none).
    pub fn select_match(&mut self, index: Option<usize>)
        ensures
            final(self)@ == (SearchView { current_match: index, ..old(self)@ }),
    {
        self.current_match = index;
    }

    /// Set the message shown in the dialog.
    pub fn set_message(&mut self, message: Option<SearchMessage>)
        ensures
            final(self)@ == (SearchView {
                message: match message {
                    Some(m) => Some(m@),
                    None => None,
                },
                ..old(self)@
            }),
    {
        self.message = message;
    }

    /// The pattern length of the last search.
    pub fn pattern_length(&self) -> (r: usize)
        ensures
            r == self@.pattern_len,
    {
        self.cached_pattern_len
    }

    /// Whether query, mode or case sensitivity changed since the last search.
    pub fn query_changed_since_search(&self) -> (r: bool)
        ensures
            r == query_changed(self@),
    {
        !(self.query == self.last_searched_query) || !(self.mode == self.last_searched_mode)
            || self.case_sensitive != self.last_searched_case_sensitive
    }

    /// Whether the matches may be stale: there are some, and the buffer
    /// generation differs from the one searched.
    pub fn matches_may_be_stale(&self, current_generation: u64) -> (r: bool)
        ensures
            r == (self@.matches.len() > 0 && self@.searched_generation != current_generation),
    {
        self.matches.len() > 0 && self.searched_at_generation != current_generation
    }

    /// Record the editor generation at search time.
    pub fn set_searched_generation(&mut self, generation: u64)
        ensures
            final(self)@ == (SearchView { searched_generation: generation, ..old(self)@ }),
    {
        self.searched_at_generation = generation;
    }

    /// Move to the next match, wrapping around.
    pub fn next_match(&mut self)
        ensures
            final(self)@ == after_next(old(self)@),
    {
        if self.matches.len() == 0 {
            self.current_match = None;
            return;
        }
        match self.current_match {
            None => {
                self.current_match = Some(0);
            },
            Some(i) => {
                let next = if i == usize::MAX {
                    ((i % self.matches.len()) + 1) % self.matches.len()
                } else {
                    (i + 1) % self.matches.len()
                };
                proof {
                    if i == usize::MAX {
                        let n = self@.matches.len() as int;
                        assert(((i as int % n) + 1) % n == (i as int + 1) % n) by (nonlinear_arith)
                            requires
                                n > 0,
                                i >= 0,
                        ;
                    }
                }
                self.current_match = Some(next);
            },
        }
    }

    /// Move to the previous match, wrapping around.
    pub fn prev_match(&mut self)
        ensures
            final(self)@ == after_prev(old(self)@),
    {
        if self.matches.len() == 0 {
            self.current_match = None;
            return;
        }
        match self.current_match {
            None => {
                self.current_match = Some(self.matches.len() - 1);
            },
            Some(i) => {
                if i == 0 {
                    self.current_match = Some(self.matches.len() - 1);
                } else {
                    self.current_match = Some(i - 1);
                }
            },
        }
    }

    /// The offset of the current match, if any.
    pub fn current_match_offset(&self) -> (r: Option<usize>)
        ensures
            r == match self@.current_match {
                Some(i) => if i < self@.matches.len() {
                    Some(self@.matches[i as int])
                } else {
                    None
                },
                None => None,
            },
    {
        match self.current_match {
            Some(i) => if i < self.matches.len() {
                Some(self.matches[i])
            } else {
                None
            },
            None => None,
        }
    }

    /// Clear results, highlights, current match and message, and forget what
    /// was last searched for, so that the same query counts as new again.
    pub fn clear_results(&mut self)
        ensures
            final(self)@ == (SearchView {
                matches: Seq::empty(),
                highlighted: Seq::empty(),
                current_match: None,
                message: None,
                pattern_len: 0,
                last_query: Seq::empty(),
                last_mode: SearchMode::Hex,
                last_case_sensitive: false,
                ..old(self)@
            }),
    {
        self.matches = Vec::new();
        self.highlighted_offsets = Vec::new();
        self.current_match = None;
        self.message = None;
        self.cached_pattern_len = 0;
        self.last_searched_query = String::new();
        self.last_searched_mode = SearchMode::Hex;
        self.last_searched_case_sensitive = false;
    }

    /// Rebuild the highlighted offsets from the matches.
    fn rebuild_highlighted_offsets(&mut self, pattern_len: usize)
        requires
            forall|k: int|
                0 <= k < old(self)@.matches.len() ==> #[trigger] old(self)@.matches[k] + pattern_len
                    <= usize::MAX,
        ensures
            final(self)@ == (SearchView { highlighted: final(self)@.highlighted, ..old(self)@ }),
            forall|o: int|
                #![trigger final(self)@.highlighted.contains(o as usize)]
                0 <= o <= usize::MAX ==> (final(self)@.highlighted.contains(o as usize)
                    <==> inside_some_match(old(self)@.matches, pattern_len as int, o)),
    {
        let mut h: Vec<usize> = Vec::new();
        let mut k: usize = 0;
        while k < self.matches.len()
            invariant
                k <= self@.matches.len(),
                forall|q: int|
                    0 <= q < self@.matches.len() ==> #[trigger] self@.matches[q] + pattern_len
                        <= usize::MAX,
                forall|o: int|
                    #![trigger h@.contains(o as usize)]
                    0 <= o <= usize::MAX ==> (h@.contains(o as usize) <==> inside_some_match(
                        self@.matches.subrange(0, k as int),
                        pattern_len as int,
                        o,
                    )),
            decreases self@.matches.len() - k,
        {
            let start = self.matches[k];
            let end = start + pattern_len;
            let ghost before = h@;
            let mut off = start;
            while off < end
                invariant
                    start <= off <= end,
                    h@.len() == before.len() + (off - start),
                    forall|x: int| 0 <= x < before.len() ==> #[trigger] h@[x] == before[x],
                    forall|x: int|
                        before.len() <= x < h@.len() ==> #[trigger] h@[x] == start + (x
                            - before.len()),
                decreases end - off,
            {
                h.push(off);
                off += 1;
            }
            assert forall|o: int| start <= o < end implies #[trigger] h@.contains(o as usize) by {
                assert(h@[before.len() + (o - start)] == o as usize);
            }
            assert forall|o: int| #[trigger] before.contains(o as usize) implies h@.contains(o as usize) by {
                let idx = choose|idx: int| 0 <= idx < before.len() && #[trigger] before[idx] == o as usize;
                assert(h@[idx] == o as usize);
            }
            proof {
                let ms = self@.matches;
                assert(ms.subrange(0, k + 1).drop_last() =~= ms.subrange(0, k as int));
                assert forall|o: int|
                    #![trigger h@.contains(o as usize)]
                    0 <= o <= usize::MAX implies (h@.contains(o as usize) <==> inside_some_match(
                        ms.subrange(0, k + 1),
                        pattern_len as int,
                        o,
                    )) by {
                    if h@.contains(o as usize) {
                        let idx = choose|idx: int| 0 <= idx < h@.len() && #[trigger] h@[idx] == o as usize;
                        if idx < before.len() {
                            assert(before[idx] == h@[idx]);
                            assert(before.contains(o as usize));
                            let q = choose|q: int|
                                0 <= q < ms.subrange(0, k as int).len() && #[trigger] ms.subrange(
                                    0,
                                    k as int,
                                )[q] <= o < ms.subrange(0, k as int)[q] + pattern_len;
                            assert(ms.subrange(0, k + 1)[q] == ms.subrange(0, k as int)[q]);
                        } else {
                            assert(ms.subrange(0, k + 1)[k as int] == start);
                        }
                    }
                    if inside_some_match(ms.subrange(0, k + 1), pattern_len as int, o) {
                        let q = choose|q: int|
                            0 <= q < ms.subrange(0, k + 1).len() && #[trigger] ms.subrange(0, k + 1)[q] <= o
                                < ms.subrange(0, k + 1)[q] + pattern_len;
                        if q < k {
                            assert(ms.subrange(0, k as int)[q] == ms.subrange(0, k + 1)[q]);
                            assert(before.contains(o as usize));
                            let idx = choose|idx: int|
                                0 <= idx < before.len() && #[trigger] before[idx] == o as usize;
                            assert(h@[idx] == before[idx]);
                        } else {
                            assert(ms.subrange(0, k + 1)[q] == start);
                        }
                    }
                }
            }
            k += 1;
        }
        proof {
            assert(self@.matches.subrange(0, k as int) =~= self@.matches);
        }
        self.highlighted_offsets = h;
    }
}

/// Whether query, mode or case sensitivity of `v` differ from those of the last
/// search that ran.
pub open spec fn query_changed(v: SearchView) -> bool {
    v.query != v.last_query || v.mode != v.last_mode || v.case_sensitive != v.last_case_sensitive
}

/// Whether a search over `v`'s query runs: the query is non-empty and, in hex
/// mode, parses.
pub open spec fn search_runs(v: SearchView) -> bool {
    v.query.len() > 0 && !(v.mode == SearchMode::Hex && parse_hex_pattern_result(v.query) is Err)
}

/// Whether `matches` holds the positions found for the query of `v` in `data`,
/// and `len` is the pattern length used.
pub open spec fn found_for(v: SearchView, data: Seq<u8>, matches: Seq<usize>, len: usize) -> bool {
    match v.mode {
        SearchMode::Hex => match parse_hex_pattern_result(v.query) {
            Ok(p) => len == p.len() && ((data.len() < p.len()) ==> matches == Seq::<usize>::empty())
                && (data.len() >= p.len() ==> lists_positions(
                matches,
                data.len() - p.len() + 1,
                |i: int| pattern_matches_at(data, p, i),
            )),
            Err(_) => false,
        },
        SearchMode::Ascii => {
            &&& len == encode_utf8(v.query).len() as usize
            &&& (data.len() < encode_utf8(v.query).len() as usize) ==> matches == Seq::<usize>::empty()
            &&& !(data.len() < encode_utf8(v.query).len() as usize) ==> {
                let needle = ascii_needle(v.query, v.case_sensitive);
                &&& (needle.len() == 0 || data.len() < needle.len()) ==> matches == Seq::<
                    usize,
                >::empty()
                &&& (needle.len() > 0 && data.len() >= needle.len()) ==> lists_positions(
                    matches,
                    data.len() - needle.len() + 1,
                    |i: int| bytes_match_at(data, needle, !v.case_sensitive, i),
                )
            }
        },
    }
}

/// Run the search described by `state` over `data`, replacing the previous results.
pub fn execute_search(state: &mut SearchState, data: &[u8])
    requires
        data@.len() <= isize::MAX,
    ensures
        search_runs(old(state)@) ==> !query_changed(final(state)@),
        search_runs(old(state)@) ==> final(state)@.last_query == old(state)@.query
            && final(state)@.last_mode == old(state)@.mode && final(state)@.last_case_sensitive
            == old(state)@.case_sensitive,
        !search_runs(old(state)@) ==> final(state)@.last_query == Seq::<char>::empty()
            && final(state)@.last_mode == SearchMode::Hex && !final(state)@.last_case_sensitive,
        ({
            let o = old(state)@;
            let cleared = SearchView {
                matches: Seq::empty(),
                highlighted: Seq::empty(),
                current_match: None,
                message: None,
                pattern_len: 0,
                last_query: Seq::empty(),
                last_mode: SearchMode::Hex,
                last_case_sensitive: false,
                ..o
            };
            if o.query.len() == 0 {
                final(state)@ == cleared
            } else if o.mode == SearchMode::Hex && parse_hex_pattern_result(o.query) is Err {
                final(state)@ == (SearchView {
                    message: Some(MessageView::Error(parse_hex_pattern_result(o.query)->Err_0)),
                    ..cleared
                })
            } else {
                let f = final(state)@;
                &&& found_for(o, data@, f.matches, f.pattern_len)
                &&& forall|x: int|
                    #![trigger f.highlighted.contains(x as usize)]
                    0 <= x <= usize::MAX ==> (f.highlighted.contains(x as usize)
                        <==> inside_some_match(f.matches, f.pattern_len as int, x))
                &&& f == (SearchView {
                    matches: f.matches,
                    highlighted: f.highlighted,
                    pattern_len: f.pattern_len,
                    current_match: if f.matches.len() > 0 {
                        Some(0usize)
                    } else {
                        None
                    },
                    last_query: o.query,
                    last_mode: o.mode,
                    last_case_sensitive: o.case_sensitive,
                    ..cleared
                })
            }
        }),
{
    state.clear_results();
    if state.query.as_str().is_empty() {
        return;
    }
    let pattern_len = match state.mode {
        SearchMode::Hex => match parse_hex_pattern(state.query.as_str()) {
            Ok(pattern) => {
                let len = pattern.len();
                state.matches = search_hex(data, pattern.as_slice());
                len
            },
            Err(e) => {
                state.message = Some(SearchMessage::Error(e));
                return;
            },
        },
        SearchMode::Ascii => {
            let len = state.query.as_str().len();
            state.matches = search_ascii(data, state.query.as_str(), state.case_sensitive);
            len
        },
    };
    proof {
        assert forall|k: int| 0 <= k < state@.matches.len() implies #[trigger] state@.matches[k]
            + pattern_len <= usize::MAX by {
            assert(state@.matches[k] <= data@.len());
        }
    }
    state.cached_pattern_len = pattern_len;
    state.rebuild_highlighted_offsets(pattern_len);
    state.last_searched_query = state.query.clone();
    state.last_searched_mode = state.mode;
    state.last_searched_case_sensitive = state.case_sensitive;
    if state.matches.len() > 0 {
        state.current_match = Some(0);
    }
}

} // verus!
