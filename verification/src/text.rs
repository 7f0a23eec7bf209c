//! Text helpers: case mapping, whitespace, radix-16 numbers and decimal digits.
use vstd::prelude::*;

verus! {

/// What `str::to_lowercase` returns for a string (Unicode lowercase mapping).
pub uninterp spec fn lowercase(s: Seq<char>) -> Seq<char>;

/// What `str::to_uppercase` returns for a string (Unicode uppercase mapping).
pub uninterp spec fn uppercase(s: Seq<char>) -> Seq<char>;

/// What `char::is_whitespace` returns (the Unicode White_Space property).
pub uninterp spec fn white_space(c: char) -> bool;

/// Calls `str::to_lowercase`. Claimed: the result is `lowercase` of the
/// input, a function of the input alone; the mapping itself is not stated.
#[verifier::external_body]
pub(crate) fn to_lowercase(s: &str) -> (r: String)
    ensures
        r@ == lowercase(s@),
{
    s.to_lowercase()
}

/// Calls `str::to_uppercase`. Claimed: the result is `uppercase` of the
/// input, a function of the input alone; the mapping itself is not stated.
#[verifier::external_body]
pub(crate) fn to_uppercase(s: &str) -> (r: String)
    ensures
        r@ == uppercase(s@),
{
    s.to_uppercase()
}

/// Calls `char::is_whitespace`. Claimed: the answer is `white_space` of the
/// character; which characters count is not stated.
#[verifier::external_body]
pub(crate) fn is_whitespace(c: char) -> (r: bool)
    ensures
        r == white_space(c),
{
    c.is_whitespace()
}

/// The value of an ASCII hexadecimal digit.
pub open spec fn hex_digit(c: char) -> Option<nat> {
    if '0' <= c && c <= '9' {
        Some((c as nat - '0' as nat) as nat)
    } else if 'a' <= c && c <= 'f' {
        Some((c as nat - 'a' as nat + 10) as nat)
    } else if 'A' <= c && c <= 'F' {
        Some((c as nat - 'A' as nat + 10) as nat)
    } else {
        None
    }
}

/// The value of a sequence of hexadecimal digits (0 for none).
pub open spec fn hex_digits(s: Seq<char>) -> Option<nat>
    decreases s.len(),
{
    if s.len() == 0 {
        Some(0)
    } else {
        match (hex_digits(s.drop_last()), hex_digit(s.last())) {
            (Some(a), Some(d)) => Some(a * 16 + d),
            _ => None,
        }
    }
}

/// Whether every character is an ASCII hexadecimal digit.
pub open spec fn all_hex(s: Seq<char>) -> bool {
    forall|i: int| 0 <= i < s.len() ==> #[trigger] hex_digit(s[i]) is Some
}

/// Whether `c` is an ASCII hexadecimal digit.
pub fn is_hex_digit(c: char) -> (r: bool)
    ensures
        r == hex_digit(c) is Some,
{
    ('0' <= c && c <= '9') || ('a' <= c && c <= 'f') || ('A' <= c && c <= 'F')
}

/// Whether every character of `s` is an ASCII hexadecimal digit.
pub fn all_hex_digits(s: &str) -> (r: bool)
    ensures
        r == all_hex(s@),
{
    let n = s.unicode_len();
    let mut i: usize = 0;
    while i < n
        invariant
            i <= n,
            n == s@.len(),
            forall|j: int| 0 <= j < i ==> #[trigger] hex_digit(s@[j]) is Some,
        decreases n - i,
    {
        if !is_hex_digit(s.get_char(i)) {
            return false;
        }
        i = i + 1;
    }
    true
}

/// Two hexadecimal digits read by `from_str_radix(s, 16)` give their value.
pub proof fn lemma_two_hex_digits(s: Seq<char>)
    requires
        s.len() == 2,
        all_hex(s),
    ensures
        radix16(s) == Some(hex_digit(s[0]).unwrap() * 16 + hex_digit(s[1]).unwrap()),
        hex_digit(s[0]).unwrap() * 16 + hex_digit(s[1]).unwrap() <= 255,
{
    assert(hex_digit(s[0]) is Some);
    assert(hex_digit(s[1]) is Some);
    let p = s.drop_last();
    assert(p.drop_last() =~= Seq::<char>::empty());
    assert(p.last() == s[0]);
    assert(hex_digits(p.drop_last()) == Some(0nat));
    assert(hex_digits(p) == Some(hex_digit(s[0]).unwrap()));
}

/// The number that `from_str_radix(s, 16)` reads for an unsigned type: an
/// optional `+` followed by at least one hexadecimal digit.
pub open spec fn radix16(s: Seq<char>) -> Option<nat> {
    let digits = if s.len() > 0 && s[0] == '+' {
        s.drop_first()
    } else {
        s
    };
    if digits.len() == 0 {
        None
    } else {
        hex_digits(digits)
    }
}

/// Calls `u8::from_str_radix(s, 16)`: as its documentation says, an optional
/// `+` then digits, failing on anything else or on a value over `u8::MAX`.
#[verifier::external_body]
pub(crate) fn u8_from_hex(s: &str) -> (r: Option<u8>)
    ensures
        r == (match radix16(s@) {
            Some(n) => if n <= u8::MAX {
                Some(n as u8)
            } else {
                None::<u8>
            },
            None => None::<u8>,
        }),
{
    u8::from_str_radix(s, 16).ok()
}

/// Calls `u32::from_str_radix(s, 16)`: as its documentation says, an optional
/// `+` then digits, failing on anything else or on a value over `u32::MAX`.
#[verifier::external_body]
pub(crate) fn u32_from_hex(s: &str) -> (r: Option<u32>)
    ensures
        r == (match radix16(s@) {
            Some(n) => if n <= u32::MAX {
                Some(n as u32)
            } else {
                None::<u32>
            },
            None => None::<u32>,
        }),
{
    u32::from_str_radix(s, 16).ok()
}

/// Number of leading characters of `s` equal to `c`.
pub open spec fn leading_count(s: Seq<char>, c: char) -> nat
    decreases s.len(),
{
    if s.len() > 0 && s[0] == c {
        1 + leading_count(s.drop_first(), c)
    } else {
        0
    }
}

/// Number of trailing characters of `s` equal to `c`.
pub open spec fn trailing_count(s: Seq<char>, c: char) -> nat
    decreases s.len(),
{
    if s.len() > 0 && s.last() == c {
        1 + trailing_count(s.drop_last(), c)
    } else {
        0
    }
}

proof fn lemma_leading_count(s: Seq<char>, c: char, n: int)
    requires
        0 <= n <= s.len(),
        forall|i: int| 0 <= i < n ==> s[i] == c,
        n == s.len() || s[n] != c,
    ensures
        leading_count(s, c) == n,
    decreases n,
{
    if n > 0 {
        lemma_leading_count(s.drop_first(), c, n - 1);
    }
}

proof fn lemma_trailing_count(s: Seq<char>, c: char, n: int)
    requires
        0 <= n <= s.len(),
        forall|i: int| s.len() - n <= i < s.len() ==> s[i] == c,
        n == s.len() || s[s.len() - n - 1] != c,
    ensures
        trailing_count(s, c) == n,
    decreases n,
{
    if n > 0 {
        lemma_trailing_count(s.drop_last(), c, n - 1);
    }
}

/// `s.trim_start_matches(c)`: `s` without its leading run of `c`.
pub fn trim_start_char(s: &str, c: char) -> (r: &str)
    ensures
        r@ == s@.skip(leading_count(s@, c) as int),
        leading_count(s@, c) <= s@.len(),
{
    let n = s.unicode_len();
    let mut i: usize = 0;
    while i < n && s.get_char(i) == c
        invariant
            i <= n,
            n == s@.len(),
            forall|j: int| 0 <= j < i ==> s@[j] == c,
        decreases n - i,
    {
        i = i + 1;
    }
    proof {
        lemma_leading_count(s@, c, i as int);
    }
    s.substring_char(i, n)
}

/// `s.trim_end_matches(c)`: `s` without its trailing run of `c`.
pub fn trim_end_char(s: &str, c: char) -> (r: &str)
    ensures
        r@ == s@.take(s@.len() - trailing_count(s@, c)),
        trailing_count(s@, c) <= s@.len(),
{
    let n = s.unicode_len();
    let mut k: usize = n;
    while k > 0 && s.get_char(k - 1) == c
        invariant
            k <= n,
            n == s@.len(),
            forall|j: int| k <= j < n ==> s@[j] == c,
        decreases k,
    {
        k = k - 1;
    }
    proof {
        lemma_trailing_count(s@, c, n - k);
    }
    s.substring_char(0, k)
}

/// Number of leading white-space characters.
pub open spec fn leading_space(s: Seq<char>) -> nat
    decreases s.len(),
{
    if s.len() > 0 && white_space(s[0]) {
        1 + leading_space(s.drop_first())
    } else {
        0
    }
}

/// Number of trailing white-space characters.
pub open spec fn trailing_space(s: Seq<char>) -> nat
    decreases s.len(),
{
    if s.len() > 0 && white_space(s.last()) {
        1 + trailing_space(s.drop_last())
    } else {
        0
    }
}

/// `s.trim()`: `s` without leading and trailing white space.
pub open spec fn trimmed(s: Seq<char>) -> Seq<char> {
    if leading_space(s) == s.len() {
        Seq::empty()
    } else {
        s.subrange(leading_space(s) as int, s.len() - trailing_space(s))
    }
}

proof fn lemma_leading_space(s: Seq<char>, n: int)
    requires
        0 <= n <= s.len(),
        forall|i: int| 0 <= i < n ==> white_space(#[trigger] s[i]),
        n == s.len() || !white_space(s[n]),
    ensures
        leading_space(s) == n,
    decreases n,
{
    if n > 0 {
        assert forall|i: int| 0 <= i < n - 1 implies white_space(#[trigger] s.drop_first()[i]) by {
            assert(s.drop_first()[i] == s[i + 1]);
        }
        lemma_leading_space(s.drop_first(), n - 1);
    }
}

proof fn lemma_trailing_space(s: Seq<char>, n: int)
    requires
        0 <= n <= s.len(),
        forall|i: int| s.len() - n <= i < s.len() ==> white_space(#[trigger] s[i]),
        n == s.len() || !white_space(s[s.len() - n - 1]),
    ensures
        trailing_space(s) == n,
    decreases n,
{
    if n > 0 {
        assert forall|i: int| s.drop_last().len() - (n - 1) <= i < s.drop_last().len() implies white_space(#[trigger] s.drop_last()[i]) by {
            assert(s.drop_last()[i] == s[i]);
        }
        lemma_trailing_space(s.drop_last(), n - 1);
    }
}

/// `s.trim()`.
pub fn trim(s: &str) -> (r: &str)
    ensures
        r@ == trimmed(s@),
{
    let n = s.unicode_len();
    let mut i: usize = 0;
    while i < n && is_whitespace(s.get_char(i))
        invariant
            i <= n,
            n == s@.len(),
            forall|j: int| 0 <= j < i ==> white_space(#[trigger] s@[j]),
        decreases n - i,
    {
        i = i + 1;
    }
    proof {
        lemma_leading_space(s@, i as int);
    }
    if i == n {
        return s.substring_char(n, n);
    }
    let mut k: usize = n;
    while k > i && is_whitespace(s.get_char(k - 1))
        invariant
            i < n,
            i <= k <= n,
            n == s@.len(),
            !white_space(s@[i as int]),
            forall|j: int| k <= j < n ==> white_space(#[trigger] s@[j]),
        decreases k,
    {
        k = k - 1;
    }
    proof {
        lemma_trailing_space(s@, n - k);
    }
    s.substring_char(i, k)
}

/// Whether `s` starts with `prefix`.
pub fn starts_with(s: &str, prefix: &str) -> (r: bool)
    ensures
        r == (prefix@.len() <= s@.len() && s@.take(prefix@.len() as int) == prefix@),
{
    let n = s.unicode_len();
    let m = prefix.unicode_len();
    if m > n {
        return false;
    }
    let mut i: usize = 0;
    while i < m
        invariant
            i <= m <= n,
            n == s@.len(),
            m == prefix@.len(),
            forall|j: int| 0 <= j < i ==> s@[j] == prefix@[j],
        decreases m - i,
    {
        if s.get_char(i) != prefix.get_char(i) {
            assert(s@.take(m as int)[i as int] != prefix@[i as int]);
            return false;
        }
        i = i + 1;
    }
    assert(s@.take(m as int) =~= prefix@);
    true
}

/// Whether two strings are equal.
pub fn str_eq(a: &str, b: &str) -> (r: bool)
    ensures
        r == (a@ == b@),
{
    String::from_str(a) == String::from_str(b)
}

/// The decimal digits of `n`, most significant first, without leading zeros
/// (a single `0` for zero).
pub open spec fn decimal(n: nat) -> Seq<char>
    decreases n,
{
    if n < 10 {
        seq![digit_char(n)]
    } else {
        decimal(n / 10).push(digit_char(n % 10))
    }
}

pub open spec fn digit_char(d: nat) -> char {
    if d == 0 { '0' } else if d == 1 { '1' } else if d == 2 { '2' } else if d == 3 { '3' }
    else if d == 4 { '4' } else if d == 5 { '5' } else if d == 6 { '6' } else if d == 7 { '7' }
    else if d == 8 { '8' } else { '9' }
}

/// `n` in decimal, left-padded with zeros to at least `width` characters
/// (as the format `{:0width$}` prints an unsigned integer).
pub open spec fn zero_padded(n: nat, width: nat) -> Seq<char> {
    let d = decimal(n);
    if d.len() >= width {
        d
    } else {
        Seq::new((width - d.len()) as nat, |i: int| '0') + d
    }
}

fn digit_str(d: u64) -> (r: &'static str)
    requires
        d < 10,
    ensures
        r@ == seq![digit_char(d as nat)],
{
    let r = if d == 0 { "0" } else if d == 1 { "1" } else if d == 2 { "2" } else if d == 3 { "3" }
        else if d == 4 { "4" } else if d == 5 { "5" } else if d == 6 { "6" } else if d == 7 { "7" }
        else if d == 8 { "8" } else { "9" };
    proof {
        reveal_strlit("0");
        reveal_strlit("1");
        reveal_strlit("2");
        reveal_strlit("3");
        reveal_strlit("4");
        reveal_strlit("5");
        reveal_strlit("6");
        reveal_strlit("7");
        reveal_strlit("8");
        reveal_strlit("9");
    }
    assert(r@ =~= seq![digit_char(d as nat)]);
    r
}

/// `n` in decimal, as `n.to_string()` prints it.
pub fn decimal_string(n: u64) -> (r: String)
    ensures
        r@ == decimal(n as nat),
    decreases n,
{
    if n < 10 {
        String::from_str(digit_str(n))
    } else {
        let mut s = decimal_string(n / 10);
        s.append(digit_str(n % 10));
        s
    }
}

/// `n` in decimal padded with zeros to `width` characters, as `{:0width$}`.
pub fn zero_padded_string(n: u64, width: usize) -> (r: String)
    ensures
        r@ == zero_padded(n as nat, width as nat),
{
    let d = decimal_string(n);
    let len = d.as_str().unicode_len();
    if len >= width {
        return d;
    }
    let mut out = String::new();
    let mut i: usize = 0;
    while i < width - len
        invariant
            len < width,
            len == decimal(n as nat).len(),
            i <= width - len,
            out@ == Seq::new(i as nat, |j: int| '0'),
        decreases width - len - i,
    {
        out.append("0");
        proof {
            reveal_strlit("0");
            assert(out@ =~= Seq::new((i + 1) as nat, |j: int| '0'));
        }
        i = i + 1;
    }
    out.append(d.as_str());
    out
}

/// The length of a text in bytes of UTF-8, as `str::len` gives it.
pub open spec fn byte_len(s: Seq<char>) -> usize {
    vstd::utf8::encode_utf8(s).len() as usize
}

/// The value of a decimal digit.
pub open spec fn dec_digit(c: char) -> Option<nat> {
    if '0' <= c && c <= '9' {
        Some((c as nat - '0' as nat) as nat)
    } else {
        None
    }
}

/// The value of a sequence of decimal digits (0 for none).
pub open spec fn dec_digits(s: Seq<char>) -> Option<nat>
    decreases s.len(),
{
    if s.len() == 0 {
        Some(0)
    } else {
        match (dec_digits(s.drop_last()), dec_digit(s.last())) {
            (Some(a), Some(d)) => Some(a * 10 + d),
            _ => None,
        }
    }
}

/// The number that `str::parse` reads for an unsigned integer type: an
/// optional `+` followed by at least one decimal digit.
pub open spec fn unsigned_decimal(s: Seq<char>) -> Option<nat> {
    let digits = if s.len() > 0 && s[0] == '+' {
        s.drop_first()
    } else {
        s
    };
    if digits.len() == 0 {
        None
    } else {
        dec_digits(digits)
    }
}

/// The number that `str::parse` reads for a signed integer type: an optional
/// `+` or `-` followed by at least one decimal digit.
pub open spec fn signed_decimal(s: Seq<char>) -> Option<int> {
    if s.len() > 0 && s[0] == '-' {
        if s.len() == 1 {
            None
        } else {
            match dec_digits(s.drop_first()) {
                Some(n) => Some(-(n as int)),
                None => None,
            }
        }
    } else {
        match unsigned_decimal(s) {
            Some(n) => Some(n as int),
            None => None,
        }
    }
}

/// Calls `str::parse::<i32>`: as its documentation says, an optional sign then
/// decimal digits, failing on anything else or on a value out of range.
#[verifier::external_body]
pub(crate) fn parse_i32(s: &str) -> (r: Option<i32>)
    ensures
        r == (match signed_decimal(s@) {
            Some(n) => if i32::MIN <= n <= i32::MAX {
                Some(n as i32)
            } else {
                None::<i32>
            },
            None => None::<i32>,
        }),
{
    s.parse::<i32>().ok()
}

/// Calls `str::parse::<u64>`: as its documentation says, an optional `+` then
/// decimal digits, failing on anything else or on a value out of range.
#[verifier::external_body]
pub(crate) fn parse_u64(s: &str) -> (r: Option<u64>)
    ensures
        r == (match unsigned_decimal(s@) {
            Some(n) => if n <= u64::MAX {
                Some(n as u64)
            } else {
                None::<u64>
            },
            None => None::<u64>,
        }),
{
    s.parse::<u64>().ok()
}

/// Whether `s` ends with `suffix`.
pub fn ends_with(s: &str, suffix: &str) -> (r: bool)
    ensures
        r == (suffix@.len() <= s@.len() && s@.skip(s@.len() - suffix@.len()) == suffix@),
{
    let n = s.unicode_len();
    let m = suffix.unicode_len();
    if m > n {
        return false;
    }
    let mut i: usize = 0;
    while i < m
        invariant
            i <= m <= n,
            n == s@.len(),
            m == suffix@.len(),
            forall|j: int| 0 <= j < i ==> s@[n - m + j] == suffix@[j],
        decreases m - i,
    {
        if s.get_char(n - m + i) != suffix.get_char(i) {
            assert(s@.skip(n - m)[i as int] != suffix@[i as int]);
            return false;
        }
        i = i + 1;
    }
    assert(s@.skip(n - m) =~= suffix@);
    true
}

/// `s.strip_prefix(prefix)`.
pub fn strip_prefix<'a>(s: &'a str, prefix: &str) -> (r: Option<&'a str>)
    ensures
        match r {
            Some(t) => prefix@.len() <= s@.len() && s@.take(prefix@.len() as int) == prefix@
                && t@ == s@.skip(prefix@.len() as int),
            None => !(prefix@.len() <= s@.len() && s@.take(prefix@.len() as int) == prefix@),
        },
{
    if starts_with(s, prefix) {
        let n = s.unicode_len();
        let m = prefix.unicode_len();
        Some(s.substring_char(m, n))
    } else {
        None
    }
}

/// `s.strip_suffix(suffix)`.
pub fn strip_suffix<'a>(s: &'a str, suffix: &str) -> (r: Option<&'a str>)
    ensures
        match r {
            Some(t) => suffix@.len() <= s@.len() && s@.skip(s@.len() - suffix@.len()) == suffix@
                && t@ == s@.take(s@.len() - suffix@.len()),
            None => !(suffix@.len() <= s@.len() && s@.skip(s@.len() - suffix@.len()) == suffix@),
        },
{
    if ends_with(s, suffix) {
        let n = s.unicode_len();
        let m = suffix.unicode_len();
        Some(s.substring_char(0, n - m))
    } else {
        None
    }
}

/// Index of the first `c` in `s`, or -1 when there is none.
pub open spec fn first_index(s: Seq<char>, c: char) -> int
    decreases s.len(),
{
    if s.len() == 0 {
        -1
    } else if s[0] == c {
        0
    } else {
        let r = first_index(s.drop_first(), c);
        if r < 0 { -1 } else { r + 1 }
    }
}

pub proof fn lemma_first_index(s: Seq<char>, c: char)
    ensures
        -1 <= first_index(s, c) < s.len(),
        first_index(s, c) >= 0 ==> s[first_index(s, c)] == c,
        forall|j: int| 0 <= j < s.len() && (first_index(s, c) < 0 || j < first_index(s, c)) ==> #[trigger] s[j] != c,
    decreases s.len(),
{
    if s.len() > 0 && s[0] != c {
        lemma_first_index(s.drop_first(), c);
        assert forall|j: int| 0 <= j < s.len() && (first_index(s, c) < 0 || j < first_index(s, c)) implies #[trigger] s[j] != c by {
            if j > 0 {
                assert(s.drop_first()[j - 1] == s[j]);
            }
        }
    }
}

/// The index of the first `c` at or after `from`, found by scanning.
pub fn find_char_from(s: &str, c: char, from: usize) -> (r: Option<usize>)
    requires
        from <= s@.len(),
    ensures
        match r {
            Some(j) => from <= j < s@.len() && first_index(s@.skip(from as int), c) == j - from,
            None => first_index(s@.skip(from as int), c) == -1,
        },
{
    let n = s.unicode_len();
    let mut j = from;
    let ghost t = s@.skip(from as int);
    proof {
        lemma_first_index(t, c);
    }
    while j < n
        invariant
            from <= j <= n,
            n == s@.len(),
            t == s@.skip(from as int),
            forall|k: int| from <= k < j ==> s@[k] != c,
        decreases n - j,
    {
        if s.get_char(j) == c {
            proof {
                lemma_first_index(t, c);
                assert(t[j - from] == c);
                let f = first_index(t, c);
                if f < 0 || f > j - from {
                    assert(t[j - from] != c);
                }
                if 0 <= f && f < j - from {
                    assert(t[f] == s@[from + f]);
                }
            }
            return Some(j);
        }
        j = j + 1;
    }
    proof {
        lemma_first_index(t, c);
        let f = first_index(t, c);
        if f >= 0 {
            assert(t[f] == s@[from + f]);
        }
    }
    None
}

/// A line without the `\r` of a `\r\n` ending.
pub open spec fn strip_cr(l: Seq<char>) -> Seq<char> {
    if l.len() > 0 && l.last() == '\r' {
        l.drop_last()
    } else {
        l
    }
}

/// The lines of a text as `str::lines` gives them: split at `\n` (a `\r`
/// before it is part of the ending), with an optional final ending.
pub open spec fn lines_of(s: Seq<char>) -> Seq<Seq<char>>
    decreases s.len(),
{
    if s.len() == 0 {
        Seq::empty()
    } else {
        let i = first_index(s, '\n');
        if i < 0 {
            seq![s]
        } else {
            proof {
                lemma_first_index(s, '\n');
            }
            seq![strip_cr(s.take(i))] + lines_of(s.skip(i + 1))
        }
    }
}

/// `s.lines()`.
pub fn lines(s: &str) -> (r: Vec<String>)
    ensures
        r@.map_values(|l: String| l@) == lines_of(s@),
{
    let n = s.unicode_len();
    let mut out: Vec<String> = Vec::new();
    let mut pos: usize = 0;
    proof {
        assert(s@.skip(0) =~= s@);
    }
    while pos < n
        invariant
            pos <= n,
            n == s@.len(),
            out@.map_values(|l: String| l@) + lines_of(s@.skip(pos as int)) == lines_of(s@),
        decreases n - pos,
    {
        let ghost t = s@.skip(pos as int);
        let ghost before = out@;
        match find_char_from(s, '\n', pos) {
            Some(j) => {
                let piece = s.substring_char(pos, j);
                let line = if j > pos && piece.get_char(j - pos - 1) == '\r' {
                    String::from_str(piece.substring_char(0, j - pos - 1))
                } else {
                    String::from_str(piece)
                };
                out.push(line);
                proof {
                    assert(piece@ =~= t.take(j - pos));
                    assert(line@ =~= strip_cr(t.take(j - pos)));
                    assert(t.skip(j - pos + 1) =~= s@.skip(j + 1));
                    assert(lines_of(t) == seq![strip_cr(t.take(j - pos))] + lines_of(t.skip(j - pos + 1)));
                    assert(out@.map_values(|l: String| l@) =~= before.map_values(|l: String| l@).push(line@));
                    assert(out@.map_values(|l: String| l@) + lines_of(s@.skip(j + 1)) =~= before.map_values(|l: String| l@) + lines_of(t));
                }
                pos = j + 1;
            },
            None => {
                let line = String::from_str(s.substring_char(pos, n));
                out.push(line);
                proof {
                    assert(line@ =~= t);
                    assert(lines_of(t) == seq![t]);
                    assert(out@.map_values(|l: String| l@) =~= before.map_values(|l: String| l@).push(line@));
                    assert(s@.skip(n as int) =~= Seq::<char>::empty());
                    assert(out@.map_values(|l: String| l@) + lines_of(s@.skip(n as int)) =~= before.map_values(|l: String| l@) + lines_of(t));
                }
                pos = n;
            },
        }
    }
    proof {
        assert(s@.skip(n as int) =~= Seq::<char>::empty());
        assert(out@.map_values(|l: String| l@) + lines_of(s@.skip(n as int)) =~= out@.map_values(|l: String| l@));
    }
    out
}

/// Length of the run of non-white-space characters at the start of `s`.
pub open spec fn word_end(s: Seq<char>) -> nat
    decreases s.len(),
{
    if s.len() == 0 || white_space(s[0]) {
        0
    } else {
        1 + word_end(s.drop_first())
    }
}

pub proof fn lemma_word_end(s: Seq<char>)
    ensures
        word_end(s) <= s.len(),
        forall|j: int| 0 <= j < word_end(s) ==> !white_space(#[trigger] s[j]),
        word_end(s) < s.len() ==> white_space(s[word_end(s) as int]),
    decreases s.len(),
{
    if s.len() > 0 && !white_space(s[0]) {
        lemma_word_end(s.drop_first());
        assert forall|j: int| 0 <= j < word_end(s) implies !white_space(#[trigger] s[j]) by {
            if j > 0 {
                assert(s.drop_first()[j - 1] == s[j]);
            }
        }
        if word_end(s) < s.len() {
            assert(s.drop_first()[word_end(s) - 1] == s[word_end(s) as int]);
        }
    }
}

proof fn lemma_word_end_at(s: Seq<char>, k: int)
    requires
        0 <= k <= s.len(),
        forall|j: int| 0 <= j < k ==> !white_space(#[trigger] s[j]),
        k == s.len() || white_space(s[k]),
    ensures
        word_end(s) == k,
    decreases k,
{
    if k > 0 {
        assert forall|j: int| 0 <= j < k - 1 implies !white_space(#[trigger] s.drop_first()[j]) by {
            assert(s.drop_first()[j] == s[j + 1]);
        }
        lemma_word_end_at(s.drop_first(), k - 1);
    }
}

/// The words of a text as `str::split_whitespace` gives them: the maximal
/// runs of characters that are not white space.
pub open spec fn words_of(s: Seq<char>) -> Seq<Seq<char>>
    decreases s.len(),
{
    if s.len() == 0 {
        Seq::empty()
    } else if white_space(s[0]) {
        words_of(s.drop_first())
    } else {
        proof {
            lemma_word_end(s);
        }
        seq![s.take(word_end(s) as int)] + words_of(s.skip(word_end(s) as int))
    }
}

/// `s.split_whitespace()`.
pub fn words(s: &str) -> (r: Vec<String>)
    ensures
        r@.map_values(|w: String| w@) == words_of(s@),
{
    let n = s.unicode_len();
    let mut out: Vec<String> = Vec::new();
    let mut pos: usize = 0;
    proof {
        assert(s@.skip(0) =~= s@);
    }
    while pos < n
        invariant
            pos <= n,
            n == s@.len(),
            out@.map_values(|w: String| w@) + words_of(s@.skip(pos as int)) == words_of(s@),
        decreases n - pos,
    {
        let ghost t = s@.skip(pos as int);
        if is_whitespace(s.get_char(pos)) {
            proof {
                assert(t.drop_first() =~= s@.skip(pos + 1));
            }
            pos = pos + 1;
        } else {
            let mut k = pos + 1;
            while k < n && !is_whitespace(s.get_char(k))
                invariant
                    pos < k <= n,
                    n == s@.len(),
                    t == s@.skip(pos as int),
                    forall|j: int| pos <= j < k ==> !white_space(#[trigger] s@[j]),
                decreases n - k,
            {
                k = k + 1;
            }
            let ghost before = out@;
            let w = String::from_str(s.substring_char(pos, k));
            out.push(w);
            proof {
                assert forall|j: int| 0 <= j < k - pos implies !white_space(#[trigger] t[j]) by {
                    assert(t[j] == s@[pos + j]);
                }
                if k < n {
                    assert(t[k - pos] == s@[k as int]);
                }
                lemma_word_end_at(t, k - pos);
                assert(w@ =~= t.take(k - pos));
                assert(t.skip(k - pos) =~= s@.skip(k as int));
                assert(out@.map_values(|w: String| w@) =~= before.map_values(|w: String| w@).push(w@));
                assert(out@.map_values(|w: String| w@) + words_of(s@.skip(k as int)) =~= before.map_values(|w: String| w@) + words_of(t));
            }
            pos = k;
        }
    }
    proof {
        assert(s@.skip(n as int) =~= Seq::<char>::empty());
        assert(out@.map_values(|w: String| w@) + words_of(s@.skip(n as int)) =~= out@.map_values(|w: String| w@));
    }
    out
}

/// Whether `pat` occurs in `s`.
pub open spec fn contains(s: Seq<char>, pat: Seq<char>) -> bool {
    exists|i: int| 0 <= i && i + pat.len() <= s.len() && #[trigger] s.subrange(i, i + pat.len()) == pat
}

/// `s.contains(pat)`.
pub fn contains_str(s: &str, pat: &str) -> (r: bool)
    ensures
        r == contains(s@, pat@),
{
    let n = s.unicode_len();
    let m = pat.unicode_len();
    if m > n {
        return false;
    }
    if m == 0 {
        assert(s@.subrange(0int, 0int + pat@.len()) =~= pat@);
        return true;
    }
    let mut i: usize = 0;
    while i <= n - m
        invariant
            0 < m <= n,
            n == s@.len(),
            m == pat@.len(),
            i <= n - m + 1,
            forall|a: int| 0 <= a < i ==> #[trigger] s@.subrange(a, a + m) != pat@,
        decreases n - m + 1 - i,
    {
        if starts_with(s.substring_char(i, n), pat) {
            proof {
                assert(s@.subrange(i as int, n as int).take(m as int) =~= s@.subrange(i as int, i + m));
            }
            return true;
        }
        proof {
            assert(s@.subrange(i as int, n as int).take(m as int) =~= s@.subrange(i as int, i + m));
        }
        i = i + 1;
    }
    proof {
        assert forall|a: int| 0 <= a && a + m <= n implies #[trigger] s@.subrange(a, a + m) != pat@ by {
            assert(a < i);
        }
    }
    false
}

} // verus!
