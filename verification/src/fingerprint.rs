//! Fingerprint engine: maps an error report to the key under which its issue is grouped.
//!
//! The key is the SHA-256 digest, in lowercase hex, of the normalised message followed by
//! a trimmed fragment of the first stack frames. Normalisation erases the runtime details
//! (numbers, hex addresses) that differ between occurrences of one error.

use vstd::prelude::*;
use sha2::{Digest, Sha256};
use crate::text::{chars_of, find_first, first_occurrence, is_lower_hex, string_of};

verus! {

/// How many leading lines of the stack trace take part in the fingerprint.
pub const STACK_LINES_USED: usize = 3;

/// Whether `char::is_numeric` holds of a character beyond ASCII.
pub uninterp spec fn unicode_numeric(c: char) -> bool;

/// The lowercase hex SHA-256 digest of the UTF-8 encoding of a text.
pub uninterp spec fn sha256_hex_of(text: Seq<char>) -> Seq<char>;

/// A character that normalisation treats as part of a number: an ASCII digit, or a
/// numeric character beyond ASCII. No other ASCII character is one.
pub open spec fn is_numeric_char(c: char) -> bool {
    ('0' <= c && c <= '9') || (c > '\u{7f}' && unicode_numeric(c))
}

/// A hexadecimal letter, in either case.
pub open spec fn is_hex_letter(c: char) -> bool {
    ('a' <= c && c <= 'f') || ('A' <= c && c <= 'F')
}

/// What normalisation makes of one character: numbers become `'0'`, the remaining
/// hexadecimal letters become `'X'`, anything else stays.
pub open spec fn normalize_char(c: char) -> char {
    if is_numeric_char(c) {
        '0'
    } else if is_hex_letter(c) {
        'X'
    } else {
        c
    }
}

/// The normalised message: every character replaced on its own.
pub open spec fn normalize_message(message: Seq<char>) -> Seq<char> {
    Seq::new(message.len(), |i: int| normalize_char(message[i]))
}

/// The marker that introduces a call site in a stack line.
pub open spec fn call_marker() -> Seq<char> {
    seq!['a', 't', ' ']
}

/// The marker that introduces the file and line suffix of a call site.
pub open spec fn suffix_marker() -> Seq<char> {
    seq![' ', '(']
}

/// The index of the first line feed at or after `from`, or the length of `s`.
pub open spec fn line_end(s: Seq<char>, from: int) -> int
    decreases s.len() - from,
{
    if from < 0 || from >= s.len() {
        s.len() as int
    } else if s[from] == '\n' {
        from
    } else {
        line_end(s, from + 1)
    }
}

/// The line that starts at `from`: up to the next line feed, without the carriage
/// return that may precede it. A last line that no line feed ends is kept as it is.
pub open spec fn line_at(s: Seq<char>, from: int) -> Seq<char> {
    let end = line_end(s, from);
    if end < s.len() && from < end && s[end - 1] == '\r' {
        s.subrange(from, end - 1)
    } else {
        s.subrange(from, end)
    }
}

/// Where the line after the one starting at `from` begins.
pub open spec fn next_line_start(s: Seq<char>, from: int) -> int {
    let end = line_end(s, from);
    if end < s.len() {
        end + 1
    } else {
        end
    }
}

/// What one stack line contributes: the call site from its marker up to the file and
/// line suffix where both are present, else the whole line; a line feed ends it.
pub open spec fn frame_fragment(line: Seq<char>) -> Seq<char> {
    match first_occurrence(line, call_marker(), 0) {
        Some(call) => match first_occurrence(line, suffix_marker(), call) {
            Some(suffix) => line.subrange(call, suffix).push('\n'),
            None => line.push('\n'),
        },
        None => line.push('\n'),
    }
}

/// The fragments of at most `limit` lines of `stack`, starting with the line at `from`.
pub open spec fn stack_fragment_from(stack: Seq<char>, from: int, limit: nat) -> Seq<char>
    decreases limit,
{
    if limit == 0 || from < 0 || from >= stack.len() {
        Seq::empty()
    } else {
        frame_fragment(line_at(stack, from)) + stack_fragment_from(
            stack,
            next_line_start(stack, from),
            (limit - 1) as nat,
        )
    }
}

/// The part of the stack trace that takes part in the fingerprint.
pub open spec fn stack_fragment(stack: Seq<char>) -> Seq<char> {
    stack_fragment_from(stack, 0, STACK_LINES_USED as nat)
}

/// The text that is digested: normalised message, then stack fragment.
pub open spec fn fingerprint_source(message: Seq<char>, stack: Seq<char>) -> Seq<char> {
    normalize_message(message) + stack_fragment(stack)
}

/// The grouping key of an error report.
pub open spec fn group_hash(message: Seq<char>, stack: Seq<char>) -> Seq<char> {
    sha256_hex_of(fingerprint_source(message, stack))
}

/// `char::is_numeric` holds of the characters of the Unicode categories Nd, Nl and No:
/// among the ASCII characters these are the digits and no others; which characters
/// beyond ASCII they are is left to `unicode_numeric`.
pub assume_specification[ char::is_numeric ](c: char) -> (r: bool)
    ensures
        r == (('0' <= c && c <= '9') || (c > '\u{7f}' && unicode_numeric(c))),
;

/// Digests the UTF-8 bytes of `text` with `sha2::Sha256` and renders the 32 bytes of
/// the digest in lower-case hex: 64 characters, each a digit or a letter from `a` to `f`.
#[verifier::external_body]
fn sha256_hex(text: &str) -> (out: String)
    ensures
        out@ == sha256_hex_of(text@),
        out@.len() == 64,
        is_lower_hex(out@),
{
    let mut hasher = Sha256::new();
    hasher.update(text);
    format!("{:x}", hasher.finalize())
}

/// The index of the first line feed at or after `from`, or the length of `s`.
fn find_line_end(s: &Vec<char>, from: usize) -> (end: usize)
    requires
        from <= s.len(),
    ensures
        end == line_end(s@, from as int),
        from <= end <= s.len(),
{
    let mut i: usize = from;
    while i < s.len() && s[i] != '\n'
        invariant
            from <= i <= s.len(),
            line_end(s@, i as int) == line_end(s@, from as int),
        decreases s.len() - i,
    {
        i += 1;
    }
    i
}

/// Copies `s[from..to]` to the end of `out`.
fn push_range(out: &mut Vec<char>, s: &Vec<char>, from: usize, to: usize)
    requires
        from <= to <= s.len(),
    ensures
        final(out)@ == old(out)@ + s@.subrange(from as int, to as int),
{
    let mut i: usize = from;
    while i < to
        invariant
            from <= i <= to,
            to <= s.len(),
            out@ == old(out)@ + s@.subrange(from as int, i as int),
        decreases to - i,
    {
        out.push(s[i]);
        i += 1;
        proof {
            assert(out@ =~= old(out)@ + s@.subrange(from as int, i as int));
        }
    }
}

/// Appends to `out` what the line `stack[from..to]` contributes to the fingerprint.
fn push_frame_fragment(out: &mut Vec<char>, stack: &Vec<char>, from: usize, to: usize)
    requires
        from <= to <= stack.len(),
    ensures
        final(out)@ == old(out)@ + frame_fragment(stack@.subrange(from as int, to as int)),
{
    let mut line: Vec<char> = Vec::new();
    push_range(&mut line, stack, from, to);
    proof {
        assert(line@ =~= stack@.subrange(from as int, to as int));
    }
    let call_pat: Vec<char> = vec!['a', 't', ' '];
    let suffix_pat: Vec<char> = vec![' ', '('];
    proof {
        assert(call_pat@ =~= call_marker());
        assert(suffix_pat@ =~= suffix_marker());
    }
    let ghost before = out@;
    let mut cut: Option<(usize, usize)> = None;
    if let Some(call) = find_first(&line, &call_pat, 0) {
        if let Some(suffix) = find_first(&line, &suffix_pat, call) {
            cut = Some((call, suffix));
        }
    }
    match cut {
        Some((call, suffix)) => {
            push_range(out, &line, call, suffix);
        },
        None => {
            push_range(out, &line, 0, line.len());
            proof {
                assert(line@.subrange(0, line@.len() as int) =~= line@);
            }
        },
    }
    out.push('\n');
    proof {
        assert(out@ =~= before + frame_fragment(line@));
    }
}

/// The normalised form of one character.
fn normalize_one(c: char) -> (out: char)
    ensures
        out == normalize_char(c),
{
    if c.is_numeric() {
        '0'
    } else if ('a' <= c && c <= 'f') || ('A' <= c && c <= 'F') {
        'X'
    } else {
        c
    }
}

/// The text whose digest is the fingerprint of a report: the normalised message
/// followed by the fragments of the leading stack lines.
pub fn fingerprint_text(message: &str, stack: &str) -> (out: String)
    ensures
        out@ == fingerprint_source(message@, stack@),
{
    let msg = chars_of(message);
    let st = chars_of(stack);
    let mut acc: Vec<char> = Vec::new();
    let mut i: usize = 0;
    while i < msg.len()
        invariant
            i <= msg.len(),
            acc@.len() == i,
            forall|j: int| 0 <= j < i ==> acc@[j] == normalize_char(msg@[j]),
        decreases msg.len() - i,
    {
        acc.push(normalize_one(msg[i]));
        i += 1;
    }
    proof {
        assert(acc@ =~= normalize_message(msg@));
    }
    let mut from: usize = 0;
    let mut used: usize = 0;
    while used < STACK_LINES_USED && from < st.len()
        invariant
            used <= STACK_LINES_USED,
            from <= st.len(),
            acc@ + stack_fragment_from(st@, from as int, (STACK_LINES_USED - used) as nat)
                == normalize_message(msg@) + stack_fragment(st@),
        decreases STACK_LINES_USED - used,
    {
        let end = find_line_end(&st, from);
        let line_to = if end < st.len() && from < end && st[end - 1] == '\r' {
            end - 1
        } else {
            end
        };
        let ghost before = acc@;
        let ghost rest = stack_fragment_from(
            st@,
            next_line_start(st@, from as int),
            (STACK_LINES_USED - used - 1) as nat,
        );
        push_frame_fragment(&mut acc, &st, from, line_to);
        proof {
            let frag = frame_fragment(line_at(st@, from as int));
            assert(acc@ == before + frag);
            assert(stack_fragment_from(st@, from as int, (STACK_LINES_USED - used) as nat) == frag
                + rest);
            assert(acc@ + rest =~= before + (frag + rest));
        }
        from = if end < st.len() {
            end + 1
        } else {
            end
        };
        used += 1;
    }
    proof {
        let left = stack_fragment_from(st@, from as int, (STACK_LINES_USED - used) as nat);
        assert(left =~= Seq::<char>::empty());
        assert(acc@ + left =~= acc@);
    }
    string_of(&acc)
}

/// The grouping key of an error report: the digest of its fingerprint text, as 64
/// lower-case hex digits.
pub fn calculate_group_hash(message: &str, stack: &str) -> (hash: String)
    ensures
        hash@ == group_hash(message@, stack@),
        hash@.len() == 64,
        is_lower_hex(hash@),
{
    let text = fingerprint_text(message, stack);
    sha256_hex(text.as_str())
}

/// Two messages of one length that agree wherever either holds anything but a number.
pub open spec fn differ_only_in_digits(a: Seq<char>, b: Seq<char>) -> bool {
    &&& a.len() == b.len()
    &&& forall|i: int|
        0 <= i < a.len() ==> a[i] == b[i] || (is_numeric_char(#[trigger] a[i]) && is_numeric_char(
            b[i],
        ))
}

/// The fingerprint depends on the message and the stack trace alone: reports that
/// agree in both have the same fingerprint.
pub proof fn fingerprint_is_deterministic(
    message1: Seq<char>,
    stack1: Seq<char>,
    message2: Seq<char>,
    stack2: Seq<char>,
)
    requires
        message1 == message2,
        stack1 == stack2,
    ensures
        group_hash(message1, stack1) == group_hash(message2, stack2),
{
}

/// Messages that differ only in the digits of the numbers embedded in them, digit for
/// digit, have the same fingerprint under one stack trace.
pub proof fn fingerprint_ignores_digit_values(a: Seq<char>, b: Seq<char>, stack: Seq<char>)
    requires
        differ_only_in_digits(a, b),
    ensures
        normalize_message(a) == normalize_message(b),
        group_hash(a, stack) == group_hash(b, stack),
{
    assert(normalize_message(a) =~= normalize_message(b));
}

/// Two messages of one length that agree wherever either holds anything but a
/// hexadecimal letter.
pub open spec fn differ_only_in_hex_letters(a: Seq<char>, b: Seq<char>) -> bool {
    &&& a.len() == b.len()
    &&& forall|i: int|
        0 <= i < a.len() ==> a[i] == b[i] || (is_hex_letter(#[trigger] a[i]) && is_hex_letter(b[i]))
}

/// A hexadecimal letter is no number: normalisation makes it the letter placeholder.
pub proof fn hex_letter_becomes_placeholder(c: char)
    requires
        is_hex_letter(c),
    ensures
        !is_numeric_char(c),
        normalize_char(c) == 'X',
{
}

/// Messages that differ only in hexadecimal letters, letter for letter, have the same
/// fingerprint under one stack trace.
pub proof fn fingerprint_ignores_hex_letters(a: Seq<char>, b: Seq<char>, stack: Seq<char>)
    requires
        differ_only_in_hex_letters(a, b),
    ensures
        normalize_message(a) == normalize_message(b),
        group_hash(a, stack) == group_hash(b, stack),
{
    assert forall|i: int| 0 <= i < a.len() implies normalize_char(a[i]) == normalize_char(b[i]) by {
        if a[i] != b[i] {
            hex_letter_becomes_placeholder(a[i]);
            hex_letter_becomes_placeholder(b[i]);
        }
    }
    assert(normalize_message(a) =~= normalize_message(b));
}

} // verus!
