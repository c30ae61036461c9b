//! Character and string helpers, with the behaviour of the standard library
//! functions they rely on.

use vstd::prelude::*;

verus! {

/// Whether `c` has the Unicode `White_Space` property.
pub open spec fn spec_is_whitespace(c: char) -> bool {
    let u = c as u32;
    (0x09 <= u <= 0x0D) || u == 0x20 || u == 0x85 || u == 0xA0 || u == 0x1680 || (0x2000 <= u
        <= 0x200A) || u == 0x2028 || u == 0x2029 || u == 0x202F || u == 0x205F || u == 0x3000
}

/// `char::is_whitespace`: true exactly for characters with the Unicode
/// `White_Space` property (as its documentation states).
pub assume_specification[ char::is_whitespace ](c: char) -> (r: bool)
    ensures
        r == spec_is_whitespace(c),
;

/// The digit value of `c` in bases up to 36 (`0-9`, then `a-z` / `A-Z` from 10);
/// 36 for any other character.
pub open spec fn spec_digit_value(c: char) -> u32 {
    let u = c as u32;
    if 0x30 <= u <= 0x39 {
        (u - 0x30) as u32
    } else if 0x61 <= u <= 0x7A {
        (u - 0x61 + 10) as u32
    } else if 0x41 <= u <= 0x5A {
        (u - 0x41 + 10) as u32
    } else {
        36
    }
}

/// `char::to_digit`: the digit value of `c` when it is below `radix`, `None`
/// otherwise. It panics for a radix below 2 or above 36, which `requires`
/// rules out.
pub assume_specification[ char::to_digit ](c: char, radix: u32) -> (r: Option<u32>)
    requires
        2 <= radix <= 36,
    ensures
        r == if spec_digit_value(c) < radix {
            Some(spec_digit_value(c))
        } else {
            None
        },
;

/// The ASCII lowercase of a byte (other bytes unchanged).
pub open spec fn spec_ascii_lower(b: u8) -> u8 {
    if 0x41 <= b <= 0x5A {
        (b + 32) as u8
    } else {
        b
    }
}

/// `u8::to_ascii_lowercase`: maps `A-Z` to `a-z` and leaves other bytes as they are.
pub assume_specification[ u8::to_ascii_lowercase ](b: &u8) -> (r: u8)
    ensures
        r == spec_ascii_lower(*b),
;

/// Calls `String::push`: appends `c` to the string.
#[verifier::external_body]
pub fn push_char(s: &mut String, c: char)
    ensures
        final(s)@ == old(s)@.push(c),
{
    s.push(c);
}

/// A string holding the characters of a literal.
pub fn owned(s: &str) -> (r: String)
    ensures
        r@ == s@,
{
    String::from_str(s)
}

/// `prefix`, then `c`, then `suffix`.
pub fn around_char(prefix: &str, c: char, suffix: &str) -> (r: String)
    ensures
        r@ == prefix@ + seq![c] + suffix@,
{
    let mut r = String::from_str(prefix);
    push_char(&mut r, c);
    r.append(suffix);
    r
}

/// The character of the decimal digit `d`.
pub open spec fn digit_char(d: int) -> char {
    (d + 48) as char
}

/// The decimal representation of `n`, without leading zeros.
pub open spec fn decimal(n: nat) -> Seq<char>
    decreases n,
{
    if n < 10 {
        seq![digit_char(n as int)]
    } else {
        decimal(n / 10).push(digit_char((n % 10) as int))
    }
}

/// Append the decimal representation of `n` to `s`.
pub fn push_decimal(s: &mut String, n: usize)
    ensures
        final(s)@ == old(s)@ + decimal(n as nat),
    decreases n,
{
    if n >= 10 {
        push_decimal(s, n / 10);
    }
    let d = (n % 10) as u8;
    push_char(s, (48 + d) as char);
    proof {
        assert(old(s)@ + decimal(n as nat) =~= if n >= 10 {
            old(s)@ + decimal((n / 10) as nat) + seq![digit_char((n % 10) as int)]
        } else {
            old(s)@ + seq![digit_char(n as int)]
        });
    }
}

/// The upper-case hexadecimal digit character of `v` (< 16).
pub open spec fn hex_char(v: int) -> char {
    if v < 10 {
        (v + 48) as char
    } else {
        (v + 55) as char
    }
}

/// Append the two upper-case hexadecimal digits of `b` to `s`.
pub fn push_hex_byte(s: &mut String, b: u8)
    ensures
        final(s)@ == old(s)@ + seq![hex_char(b as int / 16), hex_char(b as int % 16)],
{
    let hi = b / 16;
    let lo = b % 16;
    let c1 = if hi < 10 {
        (48 + hi) as char
    } else {
        (55 + hi) as char
    };
    let c2 = if lo < 10 {
        (48 + lo) as char
    } else {
        (55 + lo) as char
    };
    push_char(s, c1);
    push_char(s, c2);
    assert(s@ =~= old(s)@ + seq![hex_char(b as int / 16), hex_char(b as int % 16)]);
}

/// The upper-case hexadecimal representation of `n`, without leading zeros.
pub open spec fn hex_upper(n: nat) -> Seq<char>
    decreases n,
{
    if n < 16 {
        seq![hex_char(n as int)]
    } else {
        hex_upper(n / 16).push(hex_char((n % 16) as int))
    }
}

/// Append the upper-case hexadecimal representation of `n` to `s`.
pub fn push_hex(s: &mut String, n: usize)
    ensures
        final(s)@ == old(s)@ + hex_upper(n as nat),
    decreases n,
{
    if n >= 16 {
        push_hex(s, n / 16);
    }
    let d = (n % 16) as u8;
    let c = if d < 10 {
        (48 + d) as char
    } else {
        (55 + d) as char
    };
    push_char(s, c);
    proof {
        assert(old(s)@ + hex_upper(n as nat) =~= if n >= 16 {
            old(s)@ + hex_upper((n / 16) as nat) + seq![hex_char((n % 16) as int)]
        } else {
            old(s)@ + seq![hex_char(n as int)]
        });
    }
}

/// `count` zero characters.
pub open spec fn zeros(count: nat) -> Seq<char> {
    Seq::new(count, |i: int| '0')
}

/// The upper-case hexadecimal representation of `n`, padded with leading
/// zeros to at least `width` digits.
pub open spec fn hex_padded(n: nat, width: nat) -> Seq<char> {
    let h = hex_upper(n);
    if h.len() < width {
        zeros((width - h.len()) as nat) + h
    } else {
        h
    }
}

/// Append `n` in upper-case hexadecimal, padded with leading zeros to at
/// least `width` digits, to `s`.
pub fn push_hex_padded(s: &mut String, n: usize, width: usize)
    ensures
        final(s)@ == old(s)@ + hex_padded(n as nat, width as nat),
{
    let mut digits = String::new();
    push_hex(&mut digits, n);
    assert(digits@ =~= hex_upper(n as nat));
    let len: usize = digits.as_str().unicode_len();
    let mut i: usize = len;
    while i < width
        invariant
            len <= i,
            i <= width || i == len,
            s@ == old(s)@ + zeros((i - len) as nat),
        decreases width - i,
    {
        push_char(s, '0');
        i += 1;
        assert(s@ =~= old(s)@ + zeros((i - len) as nat));
    }
    if len >= width {
        assert(zeros(0) =~= Seq::<char>::empty());
        assert(s@ =~= old(s)@);
    }
    s.append(digits.as_str());
    assert(s@ =~= old(s)@ + hex_padded(n as nat, width as nat));
}

/// Whether two strings hold the same characters.
pub fn str_eq(a: &str, b: &str) -> (r: bool)
    ensures
        r == (a@ == b@),
{
    let n = a.unicode_len();
    if n != b.unicode_len() {
        return false;
    }
    let mut i: usize = 0;
    while i < n
        invariant
            n == a@.len(),
            n == b@.len(),
            i <= n,
            forall|k: int| 0 <= k < i ==> a@[k] == b@[k],
        decreases n - i,
    {
        if a.get_char(i) != b.get_char(i) {
            return false;
        }
        i += 1;
    }
    assert(a@ =~= b@);
    true
}

} // verus!
