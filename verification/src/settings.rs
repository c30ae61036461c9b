//! User preferences.

use vstd::prelude::*;
use crate::text::{owned, push_char, str_eq};

verus! {

/// User preference for the application theme.
#[derive(Debug, Clone, Copy, PartialEq, Eq, Structural)]
pub enum ThemePreference {
    Dark,
    Light,
    System,
}

impl Default for ThemePreference {
    fn default() -> (r: Self)
        ensures
            r == ThemePreference::System,
    {
        ThemePreference::System
    }
}

/// The display name of a theme preference.
pub open spec fn theme_name(t: ThemePreference) -> Seq<char> {
    match t {
        ThemePreference::Dark => "Dark"@,
        ThemePreference::Light => "Light"@,
        ThemePreference::System => "System"@,
    }
}

impl ThemePreference {
    /// The display name of this preference.
    pub fn to_string(&self) -> (r: String)
        ensures
            r@ == theme_name(*self),
    {
        match self {
            ThemePreference::Dark => owned("Dark"),
            ThemePreference::Light => owned("Light"),
            ThemePreference::System => owned("System"),
        }
    }
}

/// Maximum number of recent files kept.
pub const MAX_RECENT_FILES: usize = 10;

/// `s` without the entries equal to `p`, in order.
pub open spec fn without(s: Seq<Seq<char>>, p: Seq<char>) -> Seq<Seq<char>>
    decreases s.len(),
{
    if s.len() == 0 {
        s
    } else if s.last() == p {
        without(s.drop_last(), p)
    } else {
        without(s.drop_last(), p).push(s.last())
    }
}

/// The recent files after opening `p`: `p` first, then the others in their
/// order, at most [`MAX_RECENT_FILES`] of them.
pub open spec fn after_open(s: Seq<Seq<char>>, p: Seq<char>) -> Seq<Seq<char>> {
    let t = seq![p] + without(s, p);
    if t.len() > MAX_RECENT_FILES {
        t.subrange(0, MAX_RECENT_FILES as int)
    } else {
        t
    }
}

/// Whether no entry occurs twice.
pub open spec fn no_duplicates(s: Seq<Seq<char>>) -> bool {
    forall|i: int, j: int| 0 <= i < j < s.len() ==> s[i] != s[j]
}

/// The list of recently opened files, most recent first.
pub struct RecentFiles {
    files: Vec<String>,
}

impl View for RecentFiles {
    type V = Seq<Seq<char>>;

    closed spec fn view(&self) -> Seq<Seq<char>> {
        self.files@.map_values(|f: String| f@)
    }
}

impl RecentFiles {
    /// An empty list.
    pub fn new() -> (r: Self)
        ensures
            r@ == Seq::<Seq<char>>::empty(),
    {
        let r = RecentFiles { files: Vec::new() };
        assert(r@ =~= Seq::<Seq<char>>::empty());
        r
    }

    /// Record that `path` was opened: it moves to the front (appearing once),
    /// and the list keeps at most [`MAX_RECENT_FILES`] entries.
    pub fn add_recent_file(&mut self, path: String)
        ensures
            final(self)@ == after_open(old(self)@, path@),
    {
        let ghost s = old(self)@;
        let ghost p = path@;
        let mut kept: Vec<String> = Vec::new();
        kept.push(path);
        assert(kept@.map_values(|f: String| f@) =~= seq![p] + without(s.subrange(0, 0), p));
        let mut i: usize = 0;
        while i < self.files.len()
            invariant
                self@ == s,
                i <= s.len(),
                kept@.len() >= 1,
                kept@[0]@ == p,
                kept@.map_values(|f: String| f@) == seq![kept@[0]@] + without(
                    s.subrange(0, i as int),
                    kept@[0]@,
                ),
            decreases s.len() - i,
        {
            let ghost before = kept@.map_values(|f: String| f@);
            proof {
                assert(s.subrange(0, i + 1).drop_last() =~= s.subrange(0, i as int));
                assert(s[i as int] == self.files@[i as int]@);
            }
            if !str_eq(self.files[i].as_str(), kept[0].as_str()) {
                let copy = copy_string(&self.files[i]);
                kept.push(copy);
                proof {
                    assert(kept@.map_values(|f: String| f@) =~= before.push(s[i as int]));
                }
            }
            i += 1;
        }
        proof {
            assert(s.subrange(0, s.len() as int) =~= s);
        }
        let ghost full = kept@;
        kept.truncate(MAX_RECENT_FILES);
        proof {
            let t = seq![p] + without(s, p);
            assert(full.map_values(|f: String| f@) == t);
            if full.len() > MAX_RECENT_FILES {
                assert(kept@.map_values(|f: String| f@) =~= t.subrange(0, MAX_RECENT_FILES as int));
            } else {
                assert(kept@ == full);
            }
        }
        self.files = kept;
        assert(self@ =~= after_open(s, p));
    }

    /// The recent files, most recent first.
    pub fn recent_files(&self) -> (r: &[String])
        ensures
            r@.map_values(|f: String| f@) == self@,
    {
        self.files.as_slice()
    }

    /// Forget all recent files.
    pub fn clear_recent_files(&mut self)
        ensures
            final(self)@ == Seq::<Seq<char>>::empty(),
    {
        self.files.clear();
        assert(self@ =~= Seq::<Seq<char>>::empty());
    }
}

/// A string with the same characters as `s`.
fn copy_string(s: &String) -> (r: String)
    ensures
        r@ == s@,
{
    let mut r = String::new();
    let n = s.as_str().unicode_len();
    let mut i: usize = 0;
    while i < n
        invariant
            n == s@.len(),
            i <= n,
            r@ == s@.subrange(0, i as int),
        decreases n - i,
    {
        push_char(&mut r, s.as_str().get_char(i));
        i += 1;
        assert(r@ =~= s@.subrange(0, i as int));
    }
    assert(r@ =~= s@);
    r
}

/// An entry kept by `without` is not the removed one and comes from `s`.
proof fn lemma_without(s: Seq<Seq<char>>, p: Seq<char>)
    ensures
        forall|k: int| 0 <= k < without(s, p).len() ==> #[trigger] without(s, p)[k] != p,
        no_duplicates(s) ==> no_duplicates(without(s, p)),
        forall|k: int| 0 <= k < without(s, p).len() ==> s.contains(#[trigger] without(s, p)[k]),
    decreases s.len(),
{
    if s.len() > 0 {
        let d = s.drop_last();
        lemma_without(d, p);
        let w = without(d, p);
        assert forall|k: int| 0 <= k < w.len() implies s.contains(#[trigger] w[k]) by {
            let j = choose|j: int| 0 <= j < d.len() && d[j] == w[k];
            assert(s[j] == w[k]);
        }
        if s.last() != p {
            let w2 = w.push(s.last());
            assert forall|k: int| 0 <= k < w2.len() implies #[trigger] w2[k] != p by {
                if k < w.len() {
                    assert(w2[k] == w[k]);
                }
            }
            assert forall|k: int| 0 <= k < w2.len() implies s.contains(#[trigger] w2[k]) by {
                if k < w.len() {
                    assert(w2[k] == w[k]);
                } else {
                    assert(s[s.len() - 1] == w2[k]);
                }
            }
            if no_duplicates(s) {
                assert(no_duplicates(d)) by {
                    assert forall|i: int, j: int| 0 <= i < j < d.len() implies d[i] != d[j] by {
                        assert(d[i] == s[i] && d[j] == s[j]);
                    }
                }
                assert forall|i: int, j: int| 0 <= i < j < w2.len() implies w2[i] != w2[j] by {
                    if j == w.len() {
                        assert(w2[i] == w[i]);
                        let m = choose|m: int| 0 <= m < d.len() && d[m] == w[i];
                        assert(s[m] == d[m]);
                        assert(s[m] != s[s.len() - 1]);
                    } else {
                        assert(w2[i] == w[i] && w2[j] == w[j]);
                    }
                }
            }
        } else if no_duplicates(s) {
            assert forall|i: int, j: int| 0 <= i < j < d.len() implies d[i] != d[j] by {
                assert(d[i] == s[i] && d[j] == s[j]);
            }
        }
    }
}

/// Opening a file puts it first, keeps at most [`MAX_RECENT_FILES`]
/// entries, lists it once, and keeps a duplicate-free list duplicate-free.
pub proof fn law_recent_files(s: Seq<Seq<char>>, p: Seq<char>)
    ensures
        after_open(s, p)[0] == p,
        after_open(s, p).len() <= MAX_RECENT_FILES,
        forall|k: int| 1 <= k < after_open(s, p).len() ==> #[trigger] after_open(s, p)[k] != p,
        no_duplicates(s) ==> no_duplicates(after_open(s, p)),
{
    lemma_without(s, p);
    let w = without(s, p);
    let t = seq![p] + w;
    let r = after_open(s, p);
    assert forall|k: int| 1 <= k < r.len() implies #[trigger] r[k] != p by {
        assert(r[k] == t[k]);
        assert(t[k] == w[k - 1]);
    }
    if no_duplicates(s) {
        assert forall|i: int, j: int| 0 <= i < j < r.len() implies r[i] != r[j] by {
            assert(r[i] == t[i] && r[j] == t[j]);
            if i == 0 {
                assert(t[j] == w[j - 1]);
            } else {
                assert(t[i] == w[i - 1] && t[j] == w[j - 1]);
            }
        }
    }
}

/// The ASCII lowercase of a character (other characters unchanged).
pub open spec fn lower_char(c: char) -> char {
    if 'A' <= c <= 'Z' {
        ((c as u32) + 32) as char
    } else {
        c
    }
}

/// Whether a file extension names a format the editor opens: bmp, jpg,
/// jpeg or gif, in any ASCII case.
pub open spec fn supported_extension(ext: Option<Seq<char>>) -> bool {
    match ext {
        Some(e) => {
            let l = e.map_values(|c: char| lower_char(c));
            l == "bmp"@ || l == "jpg"@ || l == "jpeg"@ || l == "gif"@
        },
        None => false,
    }
}

/// Whether a file with extension `ext` (none when the name has none) can be
/// opened: bmp, jpg, jpeg or gif, in any ASCII case.
pub fn is_supported_extension(ext: Option<&str>) -> (r: bool)
    ensures
        r == supported_extension(
            match ext {
                Some(e) => Some(e@),
                None => None,
            },
        ),
{
    let e = match ext {
        Some(e) => e,
        None => {
            return false;
        },
    };
    let n = e.unicode_len();
    let mut lower = String::new();
    let mut i: usize = 0;
    while i < n
        invariant
            n == e@.len(),
            i <= n,
            lower@ == e@.subrange(0, i as int).map_values(|c: char| lower_char(c)),
        decreases n - i,
    {
        let c = e.get_char(i);
        let l = if 'A' <= c && c <= 'Z' {
            ((c as u32) + 32) as u8 as char
        } else {
            c
        };
        let ghost before = lower@;
        push_char(&mut lower, l);
        proof {
            assert(lower@ =~= e@.subrange(0, i + 1).map_values(|c: char| lower_char(c)));
        }
        i += 1;
    }
    assert(e@.subrange(0, n as int) =~= e@);
    let l = lower.as_str();
    str_eq(l, "bmp") || str_eq(l, "jpg") || str_eq(l, "jpeg") || str_eq(l, "gif")
}

} // verus!
