//! Logic of the search and replace dialog.

use vstd::prelude::*;
use vstd::string::StringSliceAdditionalSpecFns;
use vstd::utf8::encode_utf8;
use crate::editor::buffer::{
    EditorState,
    EditorView,
    all_bytes_replaced,
    bytes_replaced,
    last_index,
    min_int,
};
use crate::editor::cursor::NibblePosition;
use crate::editor::search::{
    MessageView,
    SearchMessage,
    SearchMode,
    SearchState,
    SearchView,
    parse_hex_pattern,
    parse_hex_pattern_result,
    parse_hex_replace,
    parse_hex_replace_result,
};
use crate::formats::traits::{FileSection, SectionView, views};
use crate::sections::{is_range_protected, offset_protected};
use crate::text::{decimal, hex_padded, owned, push_decimal, push_hex_padded};

verus! {

/// What the byte-length indicator under the Replace field shows.
#[derive(Debug, Clone, Copy, PartialEq, Eq, Structural)]
pub enum ReplaceIndicator {
    /// The replacement parses and has the expected length.
    Match(usize),
    /// The replacement parses but its length differs from the pattern's.
    Mismatch { actual: usize, expected: usize },
    /// The replacement is not valid hex (hex mode only).
    InvalidHex { expected: usize },
}

/// The length of the search pattern written `q`, if it parses.
pub open spec fn expected_length(mode: SearchMode, q: Seq<char>) -> Option<usize> {
    match mode {
        SearchMode::Hex => match parse_hex_pattern_result(q) {
            Ok(p) => Some(p.len() as usize),
            Err(_) => None,
        },
        SearchMode::Ascii => Some(encode_utf8(q).len() as usize),
    }
}

/// The indicator for the live query `q` and replacement `r`: hidden when
/// either is empty or the query does not parse or is empty; otherwise the
/// replacement's length against the query's (bytes of their UTF-8 text in
/// ASCII mode), or invalid hex.
pub open spec fn replace_indicator(mode: SearchMode, q: Seq<char>, r: Seq<char>) -> Option<
    ReplaceIndicator,
> {
    if q.len() == 0 || r.len() == 0 {
        None
    } else {
        match expected_length(mode, q) {
            None => None,
            Some(e) => if e == 0 {
                None
            } else {
                let actual: Option<usize> = match mode {
                    SearchMode::Hex => match parse_hex_replace_result(r) {
                        Ok(b) => Some(b.len() as usize),
                        Err(_) => None,
                    },
                    SearchMode::Ascii => Some(encode_utf8(r).len() as usize),
                };
                match actual {
                    None => Some(ReplaceIndicator::InvalidHex { expected: e }),
                    Some(a) => if a == e {
                        Some(ReplaceIndicator::Match(a))
                    } else {
                        Some(ReplaceIndicator::Mismatch { actual: a, expected: e })
                    },
                }
            },
        }
    }
}

/// Compute the Replace-field indicator from the live query and replacement
/// text (not the pattern of the last executed search, which goes stale as
/// soon as the query is edited).
pub fn compute_replace_indicator(mode: &SearchMode, query: &str, replace_with: &str) -> (r: Option<
    ReplaceIndicator,
>)
    ensures
        r == replace_indicator(*mode, query@, replace_with@),
{
    if query.unicode_len() == 0 || replace_with.unicode_len() == 0 {
        return None;
    }
    let expected = match mode {
        SearchMode::Hex => match parse_hex_pattern(query) {
            Ok(p) => p.len(),
            Err(_) => {
                return None;
            },
        },
        SearchMode::Ascii => query.len(),
    };
    if expected == 0 {
        return None;
    }
    let actual = match mode {
        SearchMode::Hex => match parse_hex_replace(replace_with) {
            Ok(bytes) => bytes.len(),
            Err(_) => {
                return Some(ReplaceIndicator::InvalidHex { expected });
            },
        },
        SearchMode::Ascii => replace_with.len(),
    };
    if actual == expected {
        Some(ReplaceIndicator::Match(actual))
    } else {
        Some(ReplaceIndicator::Mismatch { actual, expected })
    }
}

/// What a successful Replace did.
#[derive(Debug, Clone, Copy, PartialEq, Eq, Structural)]
pub enum ReplaceOutcome {
    /// The current match at `offset` was replaced.
    Replaced { offset: usize },
    /// The current match, at `skipped_offset`, was protected; the next
    /// unprotected match was selected instead and nothing was written.
    SkippedToUnprotected { skipped_offset: usize },
}

/// Whether a match of `len` bytes at `start` touches a protected byte.
pub open spec fn range_protected(s: Seq<SectionView>, protection: bool, start: int, len: int) -> bool {
    exists|o: int| start <= o < start + len && #[trigger] offset_protected(s, protection, o)
}

/// The index `k` steps after `cur` among `n` matches, wrapping (for `k <= n`).
pub open spec fn wrapped(cur: int, k: int, n: int) -> int {
    if cur + k < n {
        cur + k
    } else {
        cur + k - n
    }
}

/// The first match at least `k` and at most `m.len()` steps after `cur`
/// (wrapping) whose `len` bytes are all unprotected.
pub open spec fn unprotected_from(
    m: Seq<usize>,
    cur: int,
    s: Seq<SectionView>,
    protection: bool,
    len: int,
    k: int,
) -> Option<int>
    decreases m.len() + 1 - k,
{
    if k > m.len() {
        None
    } else if !range_protected(s, protection, m[wrapped(cur, k, m.len() as int)] as int, len) {
        Some(wrapped(cur, k, m.len() as int))
    } else {
        unprotected_from(m, cur, s, protection, len, k + 1)
    }
}

/// The next unprotected match after `cur`, wrapping round (the match at
/// `cur` itself comes last).
pub open spec fn next_unprotected(
    m: Seq<usize>,
    cur: int,
    s: Seq<SectionView>,
    protection: bool,
    len: int,
) -> Option<int> {
    unprotected_from(m, cur, s, protection, len, 1)
}

/// The index of the next match after `current` (wrapping round) whose
/// `pattern_len` bytes are all unprotected.
pub fn next_unprotected_match(
    matches: &[usize],
    current: usize,
    sections: &[FileSection],
    header_protection: bool,
    pattern_len: usize,
) -> (r: Option<usize>)
    requires
        current < matches@.len(),
        forall|i: int| 0 <= i < matches@.len() ==> #[trigger] matches@[i] + pattern_len <= usize::MAX,
    ensures
        match next_unprotected(
            matches@,
            current as int,
            views(sections@),
            header_protection,
            pattern_len as int,
        ) {
            Some(i) => 0 <= i < matches@.len() && r == Some(i as usize),
            None => r is None,
        },
{
    let n: usize = matches.len();
    let mut k: usize = 0;
    while k < n
        invariant
            k <= n,
            n == matches@.len(),
            current < n,
            forall|i: int| 0 <= i < matches@.len() ==> #[trigger] matches@[i] + pattern_len <= usize::MAX,
            next_unprotected(matches@, current as int, views(sections@), header_protection, pattern_len as int)
                == unprotected_from(
                matches@,
                current as int,
                views(sections@),
                header_protection,
                pattern_len as int,
                k + 1,
            ),
        decreases n - k,
    {
        let step: usize = k + 1;
        let idx: usize = if step < n - current {
            current + step
        } else {
            step - (n - current)
        };
        assert(idx as int == wrapped(current as int, step as int, n as int));
        if !is_range_protected(sections, header_protection, matches[idx], pattern_len) {
            return Some(idx);
        }
        k += 1;
    }
    None
}

/// The offset of the current match of `v`, if any.
pub open spec fn current_offset(v: SearchView) -> Option<usize> {
    match v.current_match {
        Some(i) => if i < v.matches.len() {
            Some(v.matches[i as int])
        } else {
            None
        },
        None => None,
    }
}

/// The bytes the replacement text `r` stands for: parsed hex bytes, or the
/// UTF-8 bytes of the text in ASCII mode.
pub open spec fn replacement_bytes(mode: SearchMode, r: Seq<char>) -> Result<Seq<u8>, Seq<char>> {
    match mode {
        SearchMode::Hex => parse_hex_replace_result(r),
        SearchMode::Ascii => Ok(encode_utf8(r)),
    }
}

/// The replacement bytes for the replace field, in the current mode.
pub fn get_replacement_bytes(state: &SearchState) -> (r: Result<Vec<u8>, String>)
    ensures
        match replacement_bytes(state@.mode, state@.replace_with) {
            Ok(b) => r is Ok && r->Ok_0@ == b,
            Err(m) => r is Err && r->Err_0@ == m,
        },
{
    match state.search_mode() {
        SearchMode::Hex => parse_hex_replace(state.replacement_text()),
        SearchMode::Ascii => Ok(state.replacement_text().as_bytes_vec()),
    }
}

/// The error for a replacement whose length differs from the pattern's.
pub open spec fn length_mismatch_message(actual: nat, expected: nat) -> Seq<char> {
    "Replace pattern length ("@ + decimal(actual) + ") must match search pattern length ("@
        + decimal(expected) + ")"@
}

/// The error for a match that no longer fits in the buffer.
pub open spec fn out_of_range_message(offset: nat) -> Seq<char> {
    "Match at 0x"@ + hex_padded(offset, 8) + " is out of range \u{2014} the buffer changed; search again"@
}

/// The error when every one of `count` matches is protected.
pub open spec fn all_protected_message(count: nat) -> Seq<char> {
    "All "@ + decimal(count) + " matches are in protected header regions"@
}

/// The note after a Replace All that skipped protected matches.
pub open spec fn replaced_some_message(replaced: nat, total: nat, skipped: nat) -> Seq<char> {
    "Replaced "@ + decimal(replaced) + " of "@ + decimal(total) + " matches ("@ + decimal(skipped)
        + " skipped in protected regions)"@
}

fn length_mismatch(actual: usize, expected: usize) -> (r: String)
    ensures
        r@ == length_mismatch_message(actual as nat, expected as nat),
{
    let mut m = owned("Replace pattern length (");
    push_decimal(&mut m, actual);
    m.append(") must match search pattern length (");
    push_decimal(&mut m, expected);
    m.append(")");
    m
}

fn out_of_range(offset: usize) -> (r: String)
    ensures
        r@ == out_of_range_message(offset as nat),
{
    let mut m = owned("Match at 0x");
    push_hex_padded(&mut m, offset, 8);
    m.append(" is out of range \u{2014} the buffer changed; search again");
    m
}

/// The editor with its cursor placed on `pos` (clamped to the last byte).
pub open spec fn cursor_placed_at(v: EditorView, pos: usize) -> EditorView {
    EditorView {
        cursor: min_int(pos as int, last_index(v.working.len() as int)) as usize,
        nibble: NibblePosition::High,
        ..v
    }
}

/// Replace the current match with the replacement bytes, as one undoable
/// edit. The replacement is checked first (it must parse and have the
/// pattern's length). When the current match touches a protected region,
/// nothing is written: the next unprotected match (wrapping round) is
/// selected and the cursor moved to it, or an error says that every match is
/// protected.
pub fn replace_current(
    search: &mut SearchState,
    editor: &mut EditorState,
    sections: &[FileSection],
    header_protection: bool,
) -> (r: Result<ReplaceOutcome, String>)
    requires
        old(editor).wf(),
        forall|i: int|
            0 <= i < old(search)@.matches.len() ==> #[trigger] old(search)@.matches[i]
                + old(search)@.pattern_len <= usize::MAX,
    ensures
        final(editor).wf(),
        ({
            let s = old(search)@;
            let plen = s.pattern_len;
            let unchanged = final(search)@ == s && final(editor)@ == old(editor)@;
            match current_offset(s) {
                None => unchanged && r is Err && r->Err_0@ == "No current match"@,
                Some(o) => if plen == 0 {
                    unchanged && r is Err && r->Err_0@ == "Invalid search pattern"@
                } else {
                    match replacement_bytes(s.mode, s.replace_with) {
                        Err(m) => unchanged && r is Err && r->Err_0@ == m,
                        Ok(b) => if b.len() != plen {
                            unchanged && r is Err && r->Err_0@ == length_mismatch_message(
                                b.len(),
                                plen as nat,
                            )
                        } else if range_protected(
                            views(sections@),
                            header_protection,
                            o as int,
                            plen as int,
                        ) {
                            match next_unprotected(
                                s.matches,
                                s.current_match->Some_0 as int,
                                views(sections@),
                                header_protection,
                                plen as int,
                            ) {
                                None => unchanged && r is Err && r->Err_0@
                                    == "All matches are in protected header regions"@,
                                Some(i) => {
                                    &&& r is Ok
                                    &&& r->Ok_0 == (ReplaceOutcome::SkippedToUnprotected {
                                        skipped_offset: o,
                                    })
                                    &&& final(search)@ == (SearchView {
                                        current_match: Some(i as usize),
                                        ..s
                                    })
                                    &&& final(editor)@ == cursor_placed_at(
                                        old(editor)@,
                                        s.matches[i],
                                    )
                                },
                            }
                        } else if o + plen > old(editor)@.working.len() {
                            unchanged && r is Err && r->Err_0@ == out_of_range_message(o as nat)
                        } else {
                            &&& r is Ok
                            &&& r->Ok_0 == (ReplaceOutcome::Replaced { offset: o })
                            &&& final(search)@ == s
                            &&& bytes_replaced(old(editor)@, final(editor)@, o, b)
                        },
                    }
                },
            }
        }),
{
    let current_index: usize = match search.current_match_index() {
        Some(i) => i,
        None => {
            return Err(owned("No current match"));
        },
    };
    if current_index >= search.match_offsets().len() {
        return Err(owned("No current match"));
    }
    let current_offset: usize = search.match_offsets()[current_index];
    let pattern_len: usize = search.pattern_length();
    if pattern_len == 0 {
        return Err(owned("Invalid search pattern"));
    }
    let replacement = match get_replacement_bytes(search) {
        Ok(b) => b,
        Err(e) => {
            return Err(e);
        },
    };
    if replacement.len() != pattern_len {
        return Err(length_mismatch(replacement.len(), pattern_len));
    }
    if is_range_protected(sections, header_protection, current_offset, pattern_len) {
        let next = next_unprotected_match(
            search.match_offsets(),
            current_index,
            sections,
            header_protection,
            pattern_len,
        );
        return match next {
            Some(idx) => {
                let target: usize = search.match_offsets()[idx];
                search.select_match(Some(idx));
                editor.set_cursor(target);
                Ok(ReplaceOutcome::SkippedToUnprotected { skipped_offset: current_offset })
            },
            None => Err(owned("All matches are in protected header regions")),
        };
    }
    if current_offset > editor.len() || pattern_len > editor.len() - current_offset {
        return Err(out_of_range(current_offset));
    }
    editor.replace_bytes(current_offset, replacement.as_slice());
    Ok(ReplaceOutcome::Replaced { offset: current_offset })
}

/// Keeps the offsets whose `len` bytes are all unprotected.
pub open spec fn unprotected_pred(s: Seq<SectionView>, protection: bool, len: int) -> spec_fn(
    usize,
) -> bool {
    |o: usize| !range_protected(s, protection, o as int, len)
}

/// The matches of `m` that Replace All writes to.
pub open spec fn replaceable(m: Seq<usize>, s: Seq<SectionView>, protection: bool, len: int) -> Seq<
    usize,
> {
    m.filter(unprotected_pred(s, protection, len))
}

/// Replace every unprotected match with the replacement bytes, as one
/// undoable edit; returns how many were replaced. Protected matches are
/// skipped, and a note says how many; an error comes when every match is
/// protected, or when the replacement does not parse or has another length
/// than the pattern.
pub fn replace_all(
    search: &mut SearchState,
    editor: &mut EditorState,
    sections: &[FileSection],
    header_protection: bool,
) -> (r: Result<usize, String>)
    requires
        old(editor).wf(),
        forall|i: int, j: int|
            0 <= i <= j < old(search)@.matches.len() ==> #[trigger] old(search)@.matches[i]
                <= #[trigger] old(search)@.matches[j],
        forall|i: int|
            0 <= i < old(search)@.matches.len() ==> #[trigger] old(search)@.matches[i]
                + old(search)@.pattern_len <= usize::MAX,
    ensures
        final(editor).wf(),
        ({
            let s = old(search)@;
            let m = s.matches;
            let plen = s.pattern_len;
            let keep = replaceable(m, views(sections@), header_protection, plen as int);
            let skipped = m.len() - keep.len();
            let unchanged = final(search)@ == s && final(editor)@ == old(editor)@;
            if m.len() == 0 {
                unchanged && r == Ok::<usize, String>(0)
            } else if plen == 0 {
                unchanged && r is Err && r->Err_0@ == "Invalid search pattern"@
            } else {
                match replacement_bytes(s.mode, s.replace_with) {
                    Err(e) => unchanged && r is Err && r->Err_0@ == e,
                    Ok(b) => if b.len() != plen {
                        unchanged && r is Err && r->Err_0@ == length_mismatch_message(
                            b.len(),
                            plen as nat,
                        )
                    } else if keep.len() == 0 {
                        unchanged && r is Err && r->Err_0@ == all_protected_message(m.len())
                    } else if keep.last() + plen > old(editor)@.working.len() {
                        unchanged && r is Err && r->Err_0@ == out_of_range_message(
                            keep.last() as nat,
                        )
                    } else {
                        &&& r == Ok::<usize, String>(keep.len() as usize)
                        &&& all_bytes_replaced(old(editor)@, final(editor)@, keep, b)
                        &&& final(search)@ == if skipped > 0 {
                            SearchView {
                                message: Some(
                                    MessageView::Info(
                                        replaced_some_message(keep.len(), m.len(), skipped as nat),
                                    ),
                                ),
                                ..s
                            }
                        } else {
                            s
                        }
                    },
                }
            }
        }),
{
    let n: usize = search.match_offsets().len();
    if n == 0 {
        return Ok(0);
    }
    let pattern_len: usize = search.pattern_length();
    if pattern_len == 0 {
        return Err(owned("Invalid search pattern"));
    }
    let replacement = match get_replacement_bytes(search) {
        Ok(b) => b,
        Err(e) => {
            return Err(e);
        },
    };
    if replacement.len() != pattern_len {
        return Err(length_mismatch(replacement.len(), pattern_len));
    }
    let ghost m = search@.matches;
    let ghost pred = unprotected_pred(views(sections@), header_protection, pattern_len as int);
    let matches = search.match_offsets();
    let mut keep: Vec<usize> = Vec::new();
    let mut skipped: usize = 0;
    let mut i: usize = 0;
    while i < n
        invariant
            i <= n,
            n == m.len(),
            matches@ == m,
            pred == unprotected_pred(views(sections@), header_protection, pattern_len as int),
            forall|a: int, b: int| 0 <= a <= b < m.len() ==> #[trigger] m[a] <= #[trigger] m[b],
            forall|a: int| 0 <= a < m.len() ==> #[trigger] m[a] + pattern_len <= usize::MAX,
            keep@ == m.subrange(0, i as int).filter(pred),
            keep@.len() + skipped == i,
            forall|a: int, b: int| 0 <= a <= b < keep@.len() ==> #[trigger] keep@[a] <= #[trigger] keep@[b],
            i > 0 ==> forall|a: int| 0 <= a < keep@.len() ==> #[trigger] keep@[a] <= m[i - 1],
        decreases n - i,
    {
        let off: usize = matches[i];
        proof {
            assert(m.subrange(0, i + 1) =~= m.subrange(0, i as int).push(m[i as int]));
            m.subrange(0, i as int).lemma_filter_push(m[i as int], pred);
            if i > 0 {
                assert(m[i - 1] <= m[i as int]);
            }
        }
        if !is_range_protected(sections, header_protection, off, pattern_len) {
            keep.push(off);
        } else {
            skipped += 1;
        }
        i += 1;
    }
    assert(m.subrange(0, n as int) =~= m);
    if keep.len() == 0 {
        let mut msg = owned("All ");
        push_decimal(&mut msg, n);
        msg.append(" matches are in protected header regions");
        return Err(msg);
    }
    let last: usize = keep[keep.len() - 1];
    if last > editor.len() || pattern_len > editor.len() - last {
        return Err(out_of_range(last));
    }
    editor.replace_all_bytes(keep.as_slice(), replacement.as_slice());
    let replaced: usize = keep.len();
    if skipped > 0 {
        let mut msg = owned("Replaced ");
        push_decimal(&mut msg, replaced);
        msg.append(" of ");
        push_decimal(&mut msg, replaced + skipped);
        msg.append(" matches (");
        push_decimal(&mut msg, skipped);
        msg.append(" skipped in protected regions)");
        search.set_message(Some(SearchMessage::Info(msg)));
    }
    Ok(replaced)
}

} // verus!
