//! Helpers on text.

use vstd::prelude::*;

verus! {

/// The lowercase form that `str::to_lowercase` gives a text.
pub uninterp spec fn lowercase(text: Seq<char>) -> Seq<char>;

/// Calls `str::to_lowercase`. Its result depends on the characters of `text`
/// alone and is known here only by the name `lowercase`.
#[verifier::external_body]
pub(crate) fn to_lowercase(text: &str) -> (r: String)
    ensures
        r@ == lowercase(text@),
{
    text.to_lowercase()
}

/// Calls `==` on two string slices, which holds when they have the same characters.
#[verifier::external_body]
pub(crate) fn same_text(a: &str, b: &str) -> (r: bool)
    ensures
        r == (a@ == b@),
{
    a == b
}

/// Calls `String::push`, which appends one character.
#[verifier::external_body]
pub(crate) fn push_char(text: &mut String, c: char)
    ensures
        final(text)@ == old(text)@.push(c),
{
    text.push(c)
}

/// Whether `needle` occurs in `text` as a run of consecutive characters.
pub open spec fn occurs_in(needle: Seq<char>, text: Seq<char>) -> bool {
    exists|i: int|
        0 <= i && i + needle.len() <= text.len() && #[trigger] text.subrange(
            i,
            i + needle.len(),
        ) == needle
}

/// Calls `str::contains` with a string slice as the pattern, which tells
/// whether the pattern matches a part of the text.
#[verifier::external_body]
pub(crate) fn contains_text(text: &str, needle: &str) -> (r: bool)
    ensures
        r == occurs_in(needle@, text@),
{
    text.contains(needle)
}

/// `text` with every space turned into an underscore.
pub open spec fn underscored(text: Seq<char>) -> Seq<char> {
    text.map_values(|c: char| if c == ' ' { '_' } else { c })
}

/// Replaces every space of `text` by an underscore.
pub fn underscore_spaces(text: &str) -> (r: String)
    ensures
        r@ == underscored(text@),
{
    let mut out = String::new();
    for c in it: text.chars()
        invariant
            it.seq() == text@,
            out@ == underscored(text@.take(it.index())),
    {
        push_char(&mut out, if c == ' ' { '_' } else { c });
    }
    out
}

/// Whether `c` is one of the ten decimal digits.
pub open spec fn is_digit(c: char) -> bool {
    '0' <= c && c <= '9'
}

/// The number that a sequence of decimal digits writes, zero for the empty one.
pub open spec fn digits_value(digits: Seq<char>) -> int
    decreases digits.len(),
{
    if digits.len() == 0 {
        0
    } else {
        10 * digits_value(digits.drop_last()) + (digits.last() as int - '0' as int)
    }
}

/// The digits of a decimal integer: the text behind its sign, if it has one.
pub open spec fn unsigned_part(text: Seq<char>) -> Seq<char> {
    if text.len() > 0 && (text[0] == '-' || text[0] == '+') {
        text.skip(1)
    } else {
        text
    }
}

/// The integer that `text` writes in decimal: an optional sign, then at least
/// one digit and nothing else.
pub open spec fn decimal_integer(text: Seq<char>) -> Option<int> {
    let digits = unsigned_part(text);
    if digits.len() == 0 || exists|i: int| 0 <= i < digits.len() && !is_digit(#[trigger] digits[i]) {
        None
    } else if text[0] == '-' {
        Some(-digits_value(digits))
    } else {
        Some(digits_value(digits))
    }
}

/// The 32-bit integer that `text` writes, if it writes one.
pub open spec fn decimal_i32(text: Seq<char>) -> Option<i32> {
    match decimal_integer(text) {
        Some(v) => if i32::MIN <= v <= i32::MAX {
            Some(v as i32)
        } else {
            None
        },
        None => None,
    }
}

proof fn lemma_digits_push(digits: Seq<char>, c: char)
    requires
        is_digit(c),
        digits_value(digits) >= 0,
    ensures
        digits_value(digits.push(c)) == 10 * digits_value(digits) + (c as int - '0' as int),
        digits_value(digits.push(c)) >= digits_value(digits),
{
    assert(digits.push(c).drop_last() =~= digits);
}

/// Reads a decimal 32-bit integer: an optional `+` or `-`, then digits.
pub fn parse_i32(text: &str) -> (r: Option<i32>)
    ensures
        r == decimal_i32(text@),
{
    let mut at_start = true;
    let mut signed = false;
    let mut negative = false;
    let mut any = false;
    let mut too_big = false;
    let mut acc: i64 = 0;
    for c in it: text.chars()
        invariant
            it.seq() == text@,
            at_start == (it.index() == 0),
            at_start ==> !signed && !negative && !any && !too_big && acc == 0,
            signed == (it.index() > 0 && (text@[0] == '-' || text@[0] == '+')),
            negative == (it.index() > 0 && text@[0] == '-'),
            any == (it.index() > (if signed { 1int } else { 0int })),
            forall|j: int| (if signed { 1int } else { 0int }) <= j < it.index() ==> is_digit(#[trigger] text@[j]),
            0 <= acc <= 0x8000_0000,
            !too_big ==> acc == digits_value(text@.subrange(if signed { 1int } else { 0int }, it.index() as int)),
            too_big ==> digits_value(text@.subrange(if signed { 1int } else { 0int }, it.index() as int)) > 0x8000_0000,
    {
        let ghost idx = it.index() as int;
        let ghost start = if signed { 1int } else { 0int };
        if at_start && (c == '-' || c == '+') {
            signed = true;
            negative = c == '-';
            at_start = false;
        } else if c >= '0' && c <= '9' {
            at_start = false;
            any = true;
            proof {
                assert(text@.subrange(start, idx + 1) =~= text@.subrange(start, idx).push(c));
                if !too_big {
                    lemma_digits_push(text@.subrange(start, idx), c);
                } else {
                    lemma_digits_push(text@.subrange(start, idx), c);
                }
            }
            if !too_big {
                let d: i64 = (c as u32 - '0' as u32) as i64;
                let next: i64 = acc * 10 + d;
                if next > 0x8000_0000 {
                    too_big = true;
                } else {
                    acc = next;
                }
            }
        } else {
            proof {
                let digits = unsigned_part(text@);
                if idx > 0 {
                    assert(!is_digit(digits[idx - start]));
                }
            }
            return None;
        }
    }
    proof {
        let start = if signed { 1int } else { 0int };
        let digits = unsigned_part(text@);
        if text@.len() > 0 {
            assert(digits =~= text@.subrange(start, text@.len() as int));
        }
    }
    if !any || too_big {
        return None;
    }
    if negative {
        Some((-acc) as i32)
    } else if acc > 0x7fff_ffff {
        None
    } else {
        Some(acc as i32)
    }
}

/// The character of a digit below ten.
pub open spec fn digit_char(d: nat) -> char {
    ('0' as u8 + d) as char
}

/// The decimal digits of a number, without leading zeros.
pub open spec fn digits_of(n: nat) -> Seq<char>
    decreases n,
{
    if n < 10 {
        seq![digit_char(n)]
    } else {
        digits_of(n / 10).push(digit_char(n % 10))
    }
}

/// Writes a number in decimal.
pub fn decimal_text(n: usize) -> (r: String)
    ensures
        r@ == digits_of(n as nat),
{
    let mut low: Vec<char> = Vec::new();
    let mut rest: usize = n;
    while rest >= 10
        invariant
            digits_of(n as nat) == digits_of(rest as nat) + low@.reverse(),
        decreases rest,
    {
        let d: u8 = (rest % 10) as u8;
        low.push((48u8 + d) as char);
        rest = rest / 10;
    }
    let mut out = String::new();
    push_char(&mut out, (48u8 + rest as u8) as char);
    let mut i: usize = low.len();
    while i > 0
        invariant
            i <= low.len(),
            out@ == digits_of(rest as nat) + low@.reverse().take(low.len() - i),
        decreases i,
    {
        i -= 1;
        push_char(&mut out, low[i]);
    }
    out
}

} // verus!
