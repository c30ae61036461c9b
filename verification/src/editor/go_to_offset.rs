//! "Go to offset": parsing a decimal or `0x`-prefixed hexadecimal offset.

use vstd::prelude::*;
use crate::text::{owned, push_char, spec_digit_value, spec_is_whitespace};

verus! {

/// State of the "Go to offset" dialog.
#[derive(Debug)]
pub struct GoToOffsetState {
    /// Whether the dialog is visible.
    pub dialog_open: bool,
    /// The user's input (decimal, or hexadecimal with a `0x` prefix).
    pub input_text: String,
    /// Error message for invalid input.
    pub error: Option<String>,
}

impl Default for GoToOffsetState {
    fn default() -> (r: Self)
        ensures
            !r.dialog_open,
            r.input_text@ == Seq::<char>::empty(),
            r.error is None,
    {
        GoToOffsetState { dialog_open: false, input_text: String::new(), error: None }
    }
}

impl GoToOffsetState {
    /// Open the dialog, clearing previous input and error.
    pub fn open_dialog(&mut self)
        ensures
            final(self).dialog_open,
            final(self).input_text@ == Seq::<char>::empty(),
            final(self).error is None,
    {
        self.dialog_open = true;
        self.input_text = String::new();
        self.error = None;
    }

    /// Close the dialog.
    pub fn close_dialog(&mut self)
        ensures
            !final(self).dialog_open,
            final(self).input_text == old(self).input_text,
            final(self).error == old(self).error,
    {
        self.dialog_open = false;
    }
}

/// `s` without leading whitespace.
pub open spec fn trim_start(s: Seq<char>) -> Seq<char>
    decreases s.len(),
{
    if s.len() > 0 && spec_is_whitespace(s[0]) {
        trim_start(s.drop_first())
    } else {
        s
    }
}

/// `s` without trailing whitespace.
pub open spec fn trim_end(s: Seq<char>) -> Seq<char>
    decreases s.len(),
{
    if s.len() > 0 && spec_is_whitespace(s.last()) {
        trim_end(s.drop_last())
    } else {
        s
    }
}

/// `s` without leading and trailing whitespace.
pub open spec fn trim(s: Seq<char>) -> Seq<char> {
    trim_end(trim_start(s))
}

/// Whether every character of `s` is a digit in `radix`.
pub open spec fn all_digits(s: Seq<char>, radix: u32) -> bool {
    forall|i: int| 0 <= i < s.len() ==> spec_digit_value(#[trigger] s[i]) < radix
}

/// The value of the digit string `s` in `radix`.
pub open spec fn digits_value(s: Seq<char>, radix: u32) -> int
    decreases s.len(),
{
    if s.len() == 0 {
        0
    } else {
        digits_value(s.drop_last(), radix) * radix + spec_digit_value(s.last())
    }
}

/// The number written by `s` in `radix` (an optional `+` sign, then at least one
/// digit), if it fits in a `usize`.
pub open spec fn parse_unsigned(s: Seq<char>, radix: u32) -> Option<usize> {
    let body = if s.len() > 0 && s[0] == '+' {
        s.drop_first()
    } else {
        s
    };
    if body.len() > 0 && all_digits(body, radix) && digits_value(body, radix) <= usize::MAX {
        Some(digits_value(body, radix) as usize)
    } else {
        None
    }
}

/// Whether `s` starts with `0x` or `0X`.
pub open spec fn has_hex_prefix(s: Seq<char>) -> bool {
    s.len() >= 2 && s[0] == '0' && (s[1] == 'x' || s[1] == 'X')
}

/// The result of parsing an offset: `Ok` with the value, or `Err` with the message.
pub open spec fn parse_offset_result(input: Seq<char>) -> Result<usize, Seq<char>> {
    let t = trim(input);
    if t.len() == 0 {
        Err("Please enter an offset"@)
    } else if has_hex_prefix(t) {
        let hex = t.subrange(2, t.len() as int);
        if hex.len() == 0 {
            Err("Invalid hex value: missing digits after 0x"@)
        } else {
            match parse_unsigned(hex, 16) {
                Some(v) => Ok(v),
                None => Err("Invalid hex value: "@ + t),
            }
        }
    } else {
        match parse_unsigned(t, 10) {
            Some(v) => Ok(v),
            None => Err("Invalid offset '"@ + t + "' (use decimal or 0x prefix for hex)"@),
        }
    }
}

/// The characters of `s`.
pub fn chars_of(s: &str) -> (r: Vec<char>)
    ensures
        r@ == s@,
{
    let n = s.unicode_len();
    let mut r: Vec<char> = Vec::new();
    let mut i: usize = 0;
    while i < n
        invariant
            n == s@.len(),
            i <= n,
            r@ == s@.subrange(0, i as int),
        decreases n - i,
    {
        r.push(s.get_char(i));
        i += 1;
        assert(r@ =~= s@.subrange(0, i as int));
    }
    assert(r@ =~= s@);
    r
}

proof fn lemma_trim_start_suffix(s: Seq<char>, i: int)
    requires
        0 <= i <= s.len(),
        forall|k: int| 0 <= k < i ==> spec_is_whitespace(#[trigger] s[k]),
    ensures
        trim_start(s) == trim_start(s.subrange(i, s.len() as int)),
    decreases i,
{
    if i > 0 {
        assert(s.drop_first().subrange(i - 1, s.drop_first().len() as int) =~= s.subrange(
            i,
            s.len() as int,
        ));
        assert forall|k: int| 0 <= k < i - 1 implies spec_is_whitespace(
            #[trigger] s.drop_first()[k],
        ) by {
            assert(s.drop_first()[k] == s[k + 1]);
        }
        lemma_trim_start_suffix(s.drop_first(), i - 1);
    } else {
        assert(s.subrange(0, s.len() as int) =~= s);
    }
}

proof fn lemma_trim_end_prefix(s: Seq<char>, j: int)
    requires
        0 <= j <= s.len(),
        forall|k: int| j <= k < s.len() ==> spec_is_whitespace(#[trigger] s[k]),
    ensures
        trim_end(s) == trim_end(s.subrange(0, j)),
    decreases s.len() - j,
{
    if j < s.len() {
        assert(s.drop_last().subrange(0, j) =~= s.subrange(0, j));
        lemma_trim_end_prefix(s.drop_last(), j);
    } else {
        assert(s.subrange(0, s.len() as int) =~= s);
    }
}

/// The characters of `c` without leading and trailing whitespace.
pub fn trim_chars(c: &Vec<char>) -> (r: Vec<char>)
    ensures
        r@ == trim(c@),
{
    let n = c.len();
    let mut start: usize = 0;
    while start < n && c[start].is_whitespace()
        invariant
            n == c@.len(),
            start <= n,
            forall|k: int| 0 <= k < start ==> spec_is_whitespace(#[trigger] c@[k]),
        decreases n - start,
    {
        start += 1;
    }
    proof {
        lemma_trim_start_suffix(c@, start as int);
    }
    let ghost rest = c@.subrange(start as int, n as int);
    proof {
        assert(trim_start(rest) == rest);
    }
    let mut end: usize = n;
    while end > start && c[end - 1].is_whitespace()
        invariant
            n == c@.len(),
            start <= end <= n,
            rest == c@.subrange(start as int, n as int),
            forall|k: int| end <= k < n ==> spec_is_whitespace(#[trigger] c@[k]),
        decreases end,
    {
        end -= 1;
    }
    proof {
        let e = end - start;
        assert forall|k: int| e <= k < rest.len() implies spec_is_whitespace(#[trigger] rest[k]) by {
            assert(rest[k] == c@[k + start]);
        }
        lemma_trim_end_prefix(rest, e);
        assert(rest.subrange(0, e) =~= c@.subrange(start as int, end as int));
    }
    let mut r: Vec<char> = Vec::new();
    let mut i: usize = start;
    while i < end
        invariant
            start <= i <= end <= n,
            n == c@.len(),
            r@ == c@.subrange(start as int, i as int),
        decreases end - i,
    {
        r.push(c[i]);
        i += 1;
        assert(r@ =~= c@.subrange(start as int, i as int));
    }
    r
}

proof fn lemma_digits_value_nonneg(s: Seq<char>, radix: u32)
    requires
        all_digits(s, radix),
    ensures
        digits_value(s, radix) >= 0,
    decreases s.len(),
{
    if s.len() > 0 {
        lemma_digits_value_nonneg(s.drop_last(), radix);
        assert(all_digits(s.drop_last(), radix)) by {
            assert forall|i: int| 0 <= i < s.drop_last().len() implies spec_digit_value(
                #[trigger] s.drop_last()[i],
            ) < radix by {
                assert(s.drop_last()[i] == s[i]);
            }
        }
        lemma_digits_value_nonneg(s.drop_last(), radix);
        assert(digits_value(s.drop_last(), radix) * radix >= 0) by (nonlinear_arith)
            requires
                digits_value(s.drop_last(), radix) >= 0,
        ;
    }
}

proof fn lemma_digits_value_grows(s: Seq<char>, radix: u32)
    requires
        all_digits(s, radix),
        radix >= 2,
        s.len() > 0,
    ensures
        digits_value(s, radix) >= digits_value(s.drop_last(), radix),
{
    let p = s.drop_last();
    assert(all_digits(p, radix)) by {
        assert forall|i: int| 0 <= i < p.len() implies spec_digit_value(#[trigger] p[i]) < radix by {
            assert(p[i] == s[i]);
        }
    }
    lemma_digits_value_nonneg(p, radix);
    assert(digits_value(p, radix) * radix >= digits_value(p, radix)) by (nonlinear_arith)
        requires
            digits_value(p, radix) >= 0,
            radix >= 2,
    ;
}

/// Once a prefix of digits exceeds `usize::MAX`, so does any longer digit string.
proof fn lemma_digits_value_monotone(s: Seq<char>, i: int, radix: u32)
    requires
        all_digits(s, radix),
        radix >= 2,
        0 <= i <= s.len(),
    ensures
        digits_value(s, radix) >= digits_value(s.subrange(0, i), radix),
    decreases s.len() - i,
{
    if i < s.len() {
        lemma_digits_value_grows(s, radix);
        assert(all_digits(s.drop_last(), radix)) by {
            assert forall|k: int| 0 <= k < s.drop_last().len() implies spec_digit_value(
                #[trigger] s.drop_last()[k],
            ) < radix by {
                assert(s.drop_last()[k] == s[k]);
            }
        }
        lemma_digits_value_monotone(s.drop_last(), i, radix);
        assert(s.drop_last().subrange(0, i) =~= s.subrange(0, i));
    } else {
        assert(s.subrange(0, i) =~= s);
    }
}

/// Parse the characters `s[from..]` as an unsigned number in `radix`
/// (an optional `+`, then at least one digit, no overflow).
fn parse_unsigned_chars(s: &Vec<char>, from: usize, radix: u32) -> (r: Option<usize>)
    requires
        from <= s@.len(),
        2 <= radix <= 36,
    ensures
        r == parse_unsigned(s@.subrange(from as int, s@.len() as int), radix),
{
    let ghost t = s@.subrange(from as int, s@.len() as int);
    let n = s.len();
    let mut i = from;
    if i < n && s[i] == '+' {
        i += 1;
    }
    let ghost body = s@.subrange(i as int, n as int);
    proof {
        if t.len() > 0 && t[0] == '+' {
            assert(body =~= t.drop_first());
        } else {
            assert(body =~= t);
        }
    }
    if i == n {
        return None;
    }
    let start = i;
    let mut value: usize = 0;
    while i < n
        invariant
            from <= start <= i <= n,
            n == s@.len(),
            2 <= radix <= 36,
            body == s@.subrange(start as int, n as int),
            body.len() > 0,
            parse_unsigned(s@.subrange(from as int, n as int), radix) == (if body.len() > 0
                && all_digits(body, radix) && digits_value(body, radix) <= usize::MAX {
                Some(digits_value(body, radix) as usize)
            } else {
                None
            }),
            all_digits(s@.subrange(start as int, i as int), radix),
            value as int == digits_value(s@.subrange(start as int, i as int), radix),
        decreases n - i,
    {
        let ghost pre = s@.subrange(start as int, i as int);
        let ghost next = s@.subrange(start as int, i + 1);
        proof {
            assert(next.drop_last() =~= pre);
            assert(next.last() == s@[i as int]);
        }
        let d = match s[i].to_digit(radix) {
            Some(d) => d,
            None => {
                proof {
                    assert(body[i - start] == s@[i as int]);
                }
                return None;
            },
        };
        proof {
            assert forall|k: int| 0 <= k < next.len() implies spec_digit_value(#[trigger] next[k])
                < radix by {
                if k < pre.len() {
                    assert(next[k] == pre[k]);
                }
            }
        }
        let scaled = value.checked_mul(radix as usize);
        let step = match scaled {
            Some(m) => m.checked_add(d as usize),
            None => None,
        };
        match step {
            Some(v) => {
                value = v;
            },
            None => {
                proof {
                    assert(digits_value(next, radix) > usize::MAX) by (nonlinear_arith)
                        requires
                            digits_value(next, radix) == value * radix + d,
                            value * radix > usize::MAX || value * radix + d > usize::MAX,
                            d >= 0,
                    ;
                    // every digit of the body is checked later; if all are digits the
                    // whole value is at least this prefix's value
                    if all_digits(body, radix) {
                        lemma_digits_value_monotone(body, i + 1 - start, radix);
                        assert(body.subrange(0, i + 1 - start) =~= next);
                    }
                }
                return None;
            },
        }
        i += 1;
    }
    proof {
        assert(s@.subrange(start as int, n as int) =~= body);
    }
    Some(value)
}

/// `prefix`, then the characters of `c`.
fn message_with(prefix: &str, c: &Vec<char>) -> (r: String)
    ensures
        r@ == prefix@ + c@,
{
    let mut r = owned(prefix);
    let mut i: usize = 0;
    while i < c.len()
        invariant
            i <= c@.len(),
            r@ == prefix@ + c@.subrange(0, i as int),
        decreases c@.len() - i,
    {
        push_char(&mut r, c[i]);
        i += 1;
        assert(r@ =~= prefix@ + c@.subrange(0, i as int));
    }
    assert(c@.subrange(0, c@.len() as int) =~= c@);
    r
}

/// Parse an offset written in decimal or in hexadecimal with a `0x`/`0X` prefix,
/// ignoring surrounding whitespace.
pub fn parse_offset(input: &str) -> (r: Result<usize, String>)
    ensures
        match parse_offset_result(input@) {
            Ok(v) => r == Ok::<usize, String>(v),
            Err(m) => r is Err && r->Err_0@ == m,
        },
{
    let all = chars_of(input);
    let t = trim_chars(&all);
    if t.len() == 0 {
        return Err(owned("Please enter an offset"));
    }
    if t.len() >= 2 && t[0] == '0' && (t[1] == 'x' || t[1] == 'X') {
        if t.len() == 2 {
            return Err(owned("Invalid hex value: missing digits after 0x"));
        }
        return match parse_unsigned_chars(&t, 2, 16) {
            Some(v) => Ok(v),
            None => Err(message_with("Invalid hex value: ", &t)),
        };
    }
    proof {
        assert(t@.subrange(0, t@.len() as int) =~= t@);
    }
    match parse_unsigned_chars(&t, 0, 10) {
        Some(v) => Ok(v),
        None => {
            let mut m = message_with("Invalid offset '", &t);
            m.append("' (use decimal or 0x prefix for hex)");
            Err(m)
        },
    }
}

} // verus!
