//! The numeric tokenizer: decimal digit runs and single-key lines.
//!
//! Counter tables are line oriented; every number in them is a run of ASCII
//! decimal digits read most-significant-first into an unsigned 64-bit value.

use vstd::prelude::*;

verus! {

/// A structural failure of the counter-table grammar. Every deviation
/// (missing line, missing key, wrong field count, non-numeric field) is
/// reported as this single kind; no partial value is ever returned.
#[derive(Debug, Clone, Copy, PartialEq, Eq, Structural)]
pub enum ParseError {
    InvalidData,
}

/// One ASCII decimal digit.
pub open spec fn is_digit(c: char) -> bool {
    48 <= c as u32 && c as u32 <= 57
}

/// Horizontal whitespace between fields of a line.
pub open spec fn is_space(c: char) -> bool {
    c == ' ' || c == '\t'
}

/// The numeric value of one decimal digit.
pub open spec fn digit_val(c: char) -> int {
    c as u32 - 48
}

/// The decimal value of a sequence of digit characters, most significant
/// digit first.
pub open spec fn dec_value(s: Seq<char>) -> int
    decreases s.len(),
{
    if s.len() == 0 {
        0
    } else {
        dec_value(s.drop_last()) * 10 + digit_val(s.last())
    }
}

/// The decimal value of `s[from..to]`.
pub open spec fn seg_value(s: Seq<char>, from: int, to: int) -> int {
    dec_value(s.subrange(from, to))
}

/// The end of the run of decimal digits starting at `from`: the first index
/// at or after `from` that is past the end of `s` or holds a non-digit.
pub open spec fn digit_end(s: Seq<char>, from: int) -> int
    decreases s.len() - from,
{
    if 0 <= from < s.len() && is_digit(s[from]) {
        digit_end(s, from + 1)
    } else {
        from
    }
}

/// The end of the run of spaces and tabs starting at `from`.
pub open spec fn space_end(s: Seq<char>, from: int) -> int
    decreases s.len() - from,
{
    if 0 <= from < s.len() && is_space(s[from]) {
        space_end(s, from + 1)
    } else {
        from
    }
}

/// The number that begins at `from`: the maximal digit run starting there,
/// read as decimal. Absent when no digit stands at `from` or the value does
/// not fit in an unsigned 64-bit counter.
pub open spec fn num_at(s: Seq<char>, from: int) -> Option<u64> {
    let e = digit_end(s, from);
    if e > from && seg_value(s, from, e) <= u64::MAX {
        Some(seg_value(s, from, e) as u64)
    } else {
        None
    }
}

/// The value of a line of the shape `<name> <number>`: the literal key,
/// exactly one space, then a decimal number (whatever follows the digit run
/// is ignored).
pub open spec fn single_spec(name: Seq<char>, s: Seq<char>) -> Option<u64> {
    if name.len() + 1 <= s.len() && s.subrange(0, name.len() as int) == name && s[name.len() as int]
        == ' ' {
        num_at(s, name.len() + 1 as int)
    } else {
        None
    }
}

pub proof fn lemma_digit_end(s: Seq<char>, from: int)
    requires
        0 <= from <= s.len(),
    ensures
        from <= digit_end(s, from) <= s.len(),
        forall|j: int| from <= j < digit_end(s, from) ==> is_digit(#[trigger] s[j]),
        digit_end(s, from) < s.len() ==> !is_digit(s[digit_end(s, from)]),
    decreases s.len() - from,
{
    if from < s.len() && is_digit(s[from]) {
        lemma_digit_end(s, from + 1);
    }
}

/// Extending a digit segment by one digit multiplies its value by ten and
/// adds the digit.
pub proof fn lemma_seg_value_step(s: Seq<char>, from: int, i: int)
    requires
        0 <= from <= i < s.len(),
    ensures
        seg_value(s, from, i + 1) == seg_value(s, from, i) * 10 + digit_val(s[i]),
{
    let a = s.subrange(from, i + 1);
    let b = s.subrange(from, i);
    assert(a.drop_last() =~= b);
    assert(a.last() == s[i]);
}

/// A digit segment's value never shrinks as the segment is extended to the
/// right by further digits.
pub proof fn lemma_seg_value_grows(s: Seq<char>, from: int, i: int, j: int)
    requires
        0 <= from <= i <= j <= s.len(),
        forall|k: int| i <= k < j ==> is_digit(#[trigger] s[k]),
        seg_value(s, from, i) >= 0,
    ensures
        seg_value(s, from, j) >= seg_value(s, from, i),
    decreases j - i,
{
    if i < j {
        lemma_seg_value_step(s, from, i);
        lemma_seg_value_grows(s, from, i + 1, j);
    }
}

/// Recognizes one decimal digit and returns its value.
fn char_digit(c: char) -> (r: Option<u8>)
    ensures
        r matches Some(d) ==> is_digit(c) && d == digit_val(c),
        r is None ==> !is_digit(c),
{
    let u = c as u32;
    if 48 <= u && u <= 57 {
        Some((u - 48) as u8)
    } else {
        None
    }
}

/// Recognizes one decimal digit.
pub fn digit_char(c: char) -> (r: bool)
    ensures
        r == is_digit(c),
{
    let u = c as u32;
    48 <= u && u <= 57
}

/// Recognizes horizontal whitespace.
fn char_space(c: char) -> (r: bool)
    ensures
        r == is_space(c),
{
    c == ' ' || c == '\t'
}

/// Advances past the run of decimal digits beginning at `from`.
pub fn skip_digits(input: &str, from: usize) -> (r: usize)
    requires
        from <= input@.len(),
    ensures
        r == digit_end(input@, from as int),
        from <= r <= input@.len(),
{
    proof {
        lemma_digit_end(input@, from as int);
    }
    let len = input.unicode_len();
    let mut i = from;
    while i < len
        invariant
            from <= i <= digit_end(input@, from as int),
            digit_end(input@, from as int) <= input@.len(),
            forall|j: int| from <= j < digit_end(input@, from as int) ==> is_digit(#[trigger] input@[j]),
            digit_end(input@, from as int) < input@.len() ==> !is_digit(
                input@[digit_end(input@, from as int)],
            ),
            len == input@.len(),
        decreases len - i,
    {
        if char_digit(input.get_char(i)).is_none() {
            assert(i == digit_end(input@, from as int));
            return i;
        }
        assert(i < digit_end(input@, from as int));
        i = i + 1;
    }
    i
}

/// Advances past the run of spaces and tabs beginning at `from`.
pub fn skip_spaces(input: &str, from: usize) -> (r: usize)
    requires
        from <= input@.len(),
    ensures
        r == space_end(input@, from as int),
        from <= r <= input@.len(),
{
    let len = input.unicode_len();
    let mut i = from;
    while i < len
        invariant
            from <= i <= input@.len(),
            space_end(input@, from as int) == space_end(input@, i as int),
            len == input@.len(),
        decreases len - i,
    {
        if !char_space(input.get_char(i)) {
            return i;
        }
        i = i + 1;
    }
    i
}

/// Reads the maximal digit run of `input` beginning at `from` as a decimal
/// number, returning the value and the index just past the run. Fails when
/// no digit stands at `from` or the value does not fit in 64 bits.
pub fn scan_u64(input: &str, from: usize) -> (r: Option<(u64, usize)>)
    requires
        from <= input@.len(),
    ensures
        r matches Some(p) ==> num_at(input@, from as int) == Some(p.0) && p.1 == digit_end(
            input@,
            from as int,
        ) && from < p.1 <= input@.len(),
        r is None ==> num_at(input@, from as int) is None,
{
    let ghost s = input@;
    let ghost e = digit_end(s, from as int);
    proof {
        lemma_digit_end(s, from as int);
    }
    let len = input.unicode_len();
    if from >= len {
        return None;
    }
    let first = match char_digit(input.get_char(from)) {
        Some(d) => d,
        None => {
            return None;
        },
    };
    let mut num: u64 = first as u64;
    let mut i: usize = from + 1;
    proof {
        let a = s.subrange(from as int, from + 1);
        assert(a.drop_last() =~= Seq::<char>::empty());
        assert(a.last() == s[from as int]);
        assert(dec_value(a) == dec_value(a.drop_last()) * 10 + digit_val(a.last()));
        assert(dec_value(Seq::<char>::empty()) == 0);
        assert(num == seg_value(s, from as int, i as int));
    }
    while i < len
        invariant
            from < i <= e,
            e == digit_end(s, from as int),
            from <= e <= s.len(),
            forall|j: int| from <= j < e ==> is_digit(#[trigger] s[j]),
            e < s.len() ==> !is_digit(s[e]),
            num == seg_value(s, from as int, i as int),
            len == s.len(),
            s == input@,
        decreases len - i,
    {
        let d = match char_digit(input.get_char(i)) {
            Some(d) => d,
            None => {
                assert(i == e);
                return Some((num, i));
            },
        };
        assert(i < e);
        proof {
            lemma_seg_value_step(s, from as int, i as int);
        }
        let grown = match num.checked_mul(10) {
            Some(m) => m.checked_add(d as u64),
            None => None,
        };
        num = match grown {
            Some(v) => v,
            None => {
                proof {
                    assert(seg_value(s, from as int, i + 1) > u64::MAX);
                    lemma_seg_value_grows(s, from as int, i + 1, e);
                }
                return None;
            },
        };
        i = i + 1;
    }
    assert(i == e);
    Some((num, i))
}

/// Parses a decimal number at the head of `input`, yielding the value and
/// the unconsumed remainder of the input. Fails when the input is empty,
/// does not begin with a digit, or the digit run's value does not fit in an
/// unsigned 64-bit counter.
pub fn parse_u64<'a>(input: &'a str) -> (r: Result<(&'a str, u64), ParseError>)
    ensures
        r matches Ok(p) ==> num_at(input@, 0) == Some(p.1) && p.0@ == input@.subrange(
            digit_end(input@, 0),
            input@.len() as int,
        ),
        r is Err ==> num_at(input@, 0) is None,
{
    match scan_u64(input, 0) {
        Some((v, end)) => {
            let len = input.unicode_len();
            let rest = input.substring_char(end, len);
            Ok((rest, v))
        },
        None => Err(ParseError::InvalidData),
    }
}

/// Extracts the value of the line `<name> <number>`: the literal key,
/// exactly one space, then a decimal number.
pub fn parse_single(name: &str, input: &str) -> (r: Option<u64>)
    ensures
        r == single_spec(name@, input@),
{
    let nlen = name.unicode_len();
    let ilen = input.unicode_len();
    if ilen <= nlen {
        return None;
    }
    let mut i: usize = 0;
    while i < nlen
        invariant
            i <= nlen,
            nlen == name@.len(),
            ilen == input@.len(),
            nlen < ilen,
            forall|j: int| 0 <= j < i ==> input@[j] == name@[j],
        decreases nlen - i,
    {
        if input.get_char(i) != name.get_char(i) {
            proof {
                assert(input@.subrange(0, nlen as int)[i as int] == input@[i as int]);
            }
            return None;
        }
        i = i + 1;
    }
    proof {
        assert(input@.subrange(0, nlen as int) =~= name@);
    }
    if input.get_char(nlen) != ' ' {
        return None;
    }
    match scan_u64(input, nlen + 1) {
        Some((v, _)) => Some(v),
        None => None,
    }
}

} // verus!
