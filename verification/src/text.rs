//! Character-level helpers on which the text-processing parts of the library are built.

use vstd::prelude::*;

verus! {

/// `String::push` appends exactly one character to the end of the string.
pub assume_specification[ String::push ](s: &mut String, c: char)
    ensures
        final(s)@ == old(s)@.push(c),
;

/// The characters of `s`, in order.
pub fn chars_of(s: &str) -> (out: Vec<char>)
    ensures
        out@ == s@,
{
    let mut out: Vec<char> = Vec::new();
    for c in it: s.chars()
        invariant
            out@ == it.seq().take(it.index() as int),
            it.seq() == s@,
    {
        out.push(c);
    }
    out
}

/// The string made of the characters of `v`, in order.
pub fn string_of(v: &Vec<char>) -> (out: String)
    ensures
        out@ == v@,
{
    let mut out = String::new();
    let mut i: usize = 0;
    while i < v.len()
        invariant
            i <= v.len(),
            out@ == v@.take(i as int),
        decreases v.len() - i,
    {
        out.push(v[i]);
        i += 1;
    }
    out
}

/// Whether a character is a digit or a letter from `a` to `f`.
pub open spec fn is_lower_hex_char(c: char) -> bool {
    ('0' <= c && c <= '9') || ('a' <= c && c <= 'f')
}

/// Whether a text consists of the digits and the letters `a` to `f` alone.
pub open spec fn is_lower_hex(s: Seq<char>) -> bool {
    forall|i: int| 0 <= i < s.len() ==> is_lower_hex_char(#[trigger] s[i])
}

/// The character of a decimal digit.
pub open spec fn digit_char(d: int) -> char {
    (48 + d) as u8 as char
}

/// The decimal digits of a natural number, most significant first, without padding.
pub open spec fn decimal_digits(n: nat) -> Seq<char>
    decreases n,
{
    if n < 10 {
        seq![digit_char(n as int)]
    } else {
        decimal_digits(n / 10).push(digit_char((n % 10) as int))
    }
}

/// The decimal rendering of an integer: a minus sign where it is negative, then the
/// digits of its magnitude.
pub open spec fn decimal_of_int(i: int) -> Seq<char> {
    if i < 0 {
        seq!['-'] + decimal_digits((-i) as nat)
    } else {
        decimal_digits(i as nat)
    }
}

/// Whether every character of `s` is an ASCII digit.
pub open spec fn all_digits(s: Seq<char>) -> bool {
    forall|i: int| 0 <= i < s.len() ==> '0' <= #[trigger] s[i] && s[i] <= '9'
}

/// The number that a sequence of ASCII digits denotes; leading zeros count for nothing.
pub open spec fn digits_value(s: Seq<char>) -> nat
    decreases s.len(),
{
    if s.len() == 0 {
        0
    } else {
        (digits_value(s.drop_last()) * 10 + (s.last() as int - 48)) as nat
    }
}

/// The integer that a decimal text denotes: an optional sign, then at least one digit.
pub open spec fn parse_int(s: Seq<char>) -> Option<int> {
    if s.len() == 0 {
        None
    } else if s[0] == '-' || s[0] == '+' {
        let body = s.subrange(1, s.len() as int);
        if body.len() > 0 && all_digits(body) {
            if s[0] == '-' {
                Some(-(digits_value(body) as int))
            } else {
                Some(digits_value(body) as int)
            }
        } else {
            None
        }
    } else if all_digits(s) {
        Some(digits_value(s) as int)
    } else {
        None
    }
}

/// The integer that a decimal text denotes, where it lies between `lo` and `hi`.
pub open spec fn parse_int_within(s: Seq<char>, lo: int, hi: int) -> Option<int> {
    match parse_int(s) {
        Some(v) => if lo <= v && v <= hi {
            Some(v)
        } else {
            None
        },
        None => None,
    }
}

/// Appends the decimal digits of `n` to `out`.
pub fn push_decimal(out: &mut Vec<char>, n: u64)
    ensures
        final(out)@ == old(out)@ + decimal_digits(n as nat),
    decreases n,
{
    if n >= 10 {
        push_decimal(out, n / 10);
    }
    let ghost before = out@;
    let d: u8 = (n % 10) as u8;
    out.push((48u8 + d) as char);
    proof {
        if n >= 10 {
            assert(out@ =~= old(out)@ + decimal_digits(n as nat));
        } else {
            assert(out@ =~= old(out)@ + decimal_digits(n as nat));
        }
    }
}

/// The decimal rendering of an unsigned integer.
pub fn decimal_of_u64(n: u64) -> (out: String)
    ensures
        out@ == decimal_of_int(n as int),
{
    let mut digits: Vec<char> = Vec::new();
    push_decimal(&mut digits, n);
    proof {
        assert(digits@ =~= decimal_digits(n as nat));
    }
    string_of(&digits)
}

/// The decimal rendering of a signed integer.
pub fn decimal_of_i64(i: i64) -> (out: String)
    ensures
        out@ == decimal_of_int(i as int),
{
    let mut digits: Vec<char> = Vec::new();
    if i < 0 {
        digits.push('-');
        let magnitude: u64 = (-(i + 1)) as u64 + 1;
        push_decimal(&mut digits, magnitude);
        proof {
            assert(digits@ =~= seq!['-'] + decimal_digits((-i) as nat));
        }
    } else {
        push_decimal(&mut digits, i as u64);
        proof {
            assert(digits@ =~= decimal_digits(i as nat));
        }
    }
    string_of(&digits)
}

/// Reads `s[from..]` as a run of digits. Returns `None` where it is empty or holds
/// anything else, and otherwise its value, capped at `limit + 1`.
fn read_digits(s: &Vec<char>, from: usize, limit: u64) -> (r: Option<u64>)
    requires
        from <= s.len(),
        limit <= 0x8000_0000_0000_0000,
    ensures
        ({
            let body = s@.subrange(from as int, s@.len() as int);
            match r {
                Some(v) => body.len() > 0 && all_digits(body) && if digits_value(body) <= limit {
                    v == digits_value(body)
                } else {
                    v == limit + 1
                },
                None => !(body.len() > 0 && all_digits(body)),
            }
        }),
{
    let ghost body = s@.subrange(from as int, s@.len() as int);
    if from == s.len() {
        return None;
    }
    let mut acc: u64 = 0;
    let mut i: usize = from;
    while i < s.len()
        invariant
            from <= i <= s.len(),
            limit <= 0x8000_0000_0000_0000,
            body == s@.subrange(from as int, s@.len() as int),
            all_digits(body.take(i - from)),
            acc <= limit + 1,
            if digits_value(body.take(i - from)) <= limit {
                acc == digits_value(body.take(i - from))
            } else {
                acc == limit + 1
            },
        decreases s.len() - i,
    {
        let c = s[i];
        if !('0' <= c && c <= '9') {
            proof {
                assert(body[i - from] == c);
            }
            return None;
        }
        let d: u64 = (c as u8 - 48u8) as u64;
        proof {
            let shorter = body.take(i - from);
            let longer = body.take(i - from + 1);
            assert(longer.drop_last() =~= shorter);
            assert(longer.last() == c);
            assert(digits_value(longer) == digits_value(shorter) * 10 + d);
            assert forall|j: int| 0 <= j < longer.len() implies '0' <= #[trigger] longer[j]
                && longer[j] <= '9' by {
                if j < shorter.len() {
                    assert(shorter[j] == longer[j]);
                }
            }
        }
        if acc > limit || (acc as u128) * 10 + (d as u128) > (limit as u128) {
            acc = limit + 1;
        } else {
            acc = acc * 10 + d;
        }
        i += 1;
    }
    proof {
        assert(body.take(i - from) =~= body);
    }
    Some(acc)
}

/// Reads a decimal integer between `-below` and `above`.
fn parse_within(s: &str, below: u64, above: u64) -> (r: Option<i64>)
    requires
        above < below <= 0x8000_0000_0000_0000,
    ensures
        match r {
            Some(v) => parse_int_within(s@, -(below as int), above as int) == Some(v as int),
            None => parse_int_within(s@, -(below as int), above as int) is None,
        },
{
    let chars = chars_of(s);
    if chars.len() == 0 {
        return None;
    }
    let first = chars[0];
    let signed = first == '-' || first == '+';
    let from: usize = if signed {
        1
    } else {
        0
    };
    proof {
        if !signed {
            assert(chars@.subrange(0, chars@.len() as int) =~= chars@);
            if all_digits(chars@) {
                assert('0' <= chars@[0] && chars@[0] <= '9');
            }
        }
    }
    let limit = if first == '-' {
        below
    } else {
        above
    };
    match read_digits(&chars, from, limit) {
        None => None,
        Some(v) => {
            if v > limit {
                None
            } else if first == '-' {
                if v == 0x8000_0000_0000_0000 {
                    Some(i64::MIN)
                } else {
                    Some(-(v as i64))
                }
            } else {
                Some(v as i64)
            }
        },
    }
}

/// Reads a decimal `i32`: an optional sign and at least one digit, within range.
pub fn parse_i32(s: &str) -> (r: Option<i32>)
    ensures
        match r {
            Some(v) => parse_int_within(s@, i32::MIN as int, i32::MAX as int) == Some(v as int),
            None => parse_int_within(s@, i32::MIN as int, i32::MAX as int) is None,
        },
{
    match parse_within(s, 0x8000_0000, 0x7fff_ffff) {
        Some(v) => Some(v as i32),
        None => None,
    }
}

/// Reads a decimal `i64`: an optional sign and at least one digit, within range.
pub fn parse_i64(s: &str) -> (r: Option<i64>)
    ensures
        match r {
            Some(v) => parse_int_within(s@, i64::MIN as int, i64::MAX as int) == Some(v as int),
            None => parse_int_within(s@, i64::MIN as int, i64::MAX as int) is None,
        },
{
    parse_within(s, 0x8000_0000_0000_0000, 0x7fff_ffff_ffff_ffff)
}

/// Whether `pat` occurs in `s` at index `i`.
pub open spec fn occurs_at(s: Seq<char>, pat: Seq<char>, i: int) -> bool {
    0 <= i && i + pat.len() <= s.len() && s.subrange(i, i + pat.len()) == pat
}

/// The least index at or after `from` at which `pat` occurs in `s`, if there is one.
/// The empty text occurs at every index up to the end of `s`.
pub open spec fn first_occurrence(s: Seq<char>, pat: Seq<char>, from: int) -> Option<int>
    decreases s.len() - from,
{
    if from < 0 || from + pat.len() > s.len() {
        None
    } else if pat.len() == 0 || occurs_at(s, pat, from) {
        Some(from)
    } else {
        first_occurrence(s, pat, from + 1)
    }
}

/// Whether `pat` occurs anywhere in `s`.
pub open spec fn contains_text(s: Seq<char>, pat: Seq<char>) -> bool {
    first_occurrence(s, pat, 0) is Some
}

/// Whether `pat` occurs in `s` at index `i`.
pub fn occurs_here(s: &Vec<char>, pat: &Vec<char>, i: usize) -> (b: bool)
    requires
        i + pat.len() <= s.len(),
    ensures
        b == occurs_at(s@, pat@, i as int),
{
    let mut k: usize = 0;
    while k < pat.len()
        invariant
            k <= pat.len(),
            i + pat.len() <= s.len(),
            forall|j: int| 0 <= j < k ==> s@[i + j] == pat@[j],
        decreases pat.len() - k,
    {
        if s[i + k] != pat[k] {
            proof {
                let window = s@.subrange(i as int, i + pat.len());
                assert(window[k as int] == s@[i + k]);
            }
            return false;
        }
        k += 1;
    }
    proof {
        assert(s@.subrange(i as int, i + pat.len()) =~= pat@);
    }
    true
}

/// The least index at or after `from` at which `pat` occurs in `s`.
pub fn find_first(s: &Vec<char>, pat: &Vec<char>, from: usize) -> (r: Option<usize>)
    ensures
        match r {
            Some(i) => first_occurrence(s@, pat@, from as int) == Some(i as int) && from <= i
                && i + pat.len() <= s.len(),
            None => first_occurrence(s@, pat@, from as int) is None,
        },
{
    if from > s.len() {
        return None;
    }
    if pat.len() == 0 {
        return Some(from);
    }
    let mut i: usize = from;
    while pat.len() <= s.len() - i
        invariant
            from <= i <= s.len(),
            pat.len() > 0,
            first_occurrence(s@, pat@, i as int) == first_occurrence(s@, pat@, from as int),
        decreases s.len() - i,
    {
        if occurs_here(s, pat, i) {
            return Some(i);
        }
        i += 1;
    }
    None
}

/// Whether `pat` occurs anywhere in `s`.
pub fn text_contains(s: &str, pat: &str) -> (b: bool)
    ensures
        b == contains_text(s@, pat@),
{
    let haystack = chars_of(s);
    let needle = chars_of(pat);
    find_first(&haystack, &needle, 0).is_some()
}

/// Whether two texts hold the same characters.
pub fn same_text(a: &str, b: &str) -> (eq: bool)
    ensures
        eq == (a@ == b@),
{
    let x = chars_of(a);
    let y = chars_of(b);
    if x.len() != y.len() {
        return false;
    }
    let mut i: usize = 0;
    while i < x.len()
        invariant
            i <= x.len(),
            x.len() == y.len(),
            x@ == a@,
            y@ == b@,
            forall|j: int| 0 <= j < i ==> x@[j] == y@[j],
        decreases x.len() - i,
    {
        if x[i] != y[i] {
            return false;
        }
        i += 1;
    }
    proof {
        assert(x@ =~= y@);
    }
    true
}

/// The content of an optional text.
pub open spec fn text_view(text: Option<String>) -> Option<Seq<char>> {
    match text {
        Some(t) => Some(t@),
        None => None,
    }
}

/// A copy of an optional text.
pub fn clone_text(text: &Option<String>) -> (out: Option<String>)
    ensures
        text_view(out) == text_view(*text),
{
    match text {
        Some(t) => Some(t.clone()),
        None => None,
    }
}

} // verus!
