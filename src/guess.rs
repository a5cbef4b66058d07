use vstd::prelude::*;

verus! {

/// What one line typed at the guess prompt means.
#[derive(Clone, Copy, Debug, PartialEq, Eq, Structural)]
pub enum GuessInput {
    /// The cancel word: no outcome this round.
    Cancel,
    /// A note number.
    Note(i32),
    /// Neither: the prompt is asked again.
    Invalid,
}

/// The text left once leading and trailing whitespace is removed.
pub uninterp spec fn trimmed_of(s: Seq<char>) -> Seq<char>;

/// Whether `c` is an ASCII decimal digit.
pub open spec fn is_digit(c: char) -> bool {
    '0' <= c && c <= '9'
}

/// A non-empty run of ASCII decimal digits.
pub open spec fn all_digits(ds: Seq<char>) -> bool {
    ds.len() > 0 && forall|i: int| 0 <= i < ds.len() ==> is_digit(#[trigger] ds[i])
}

/// The value of a run of decimal digits.
pub open spec fn decimal_value(ds: Seq<char>) -> int
    decreases ds.len(),
{
    if ds.len() == 0 {
        0
    } else {
        decimal_value(ds.drop_last()) * 10 + (ds.last() as int - '0' as int)
    }
}

/// The integer written in `s`: an optional `+` or `-` sign, then only digits.
pub open spec fn int_of_text(s: Seq<char>) -> Option<int> {
    if s.len() > 0 && (s[0] == '+' || s[0] == '-') {
        if all_digits(s.drop_first()) {
            let v = decimal_value(s.drop_first());
            Some(if s[0] == '-' { -v } else { v })
        } else {
            None
        }
    } else if all_digits(s) {
        Some(decimal_value(s))
    } else {
        None
    }
}

/// The `i32` written in `s`, when there is one and it fits.
pub open spec fn i32_of_text(s: Seq<char>) -> Option<i32> {
    match int_of_text(s) {
        Some(v) => if i32::MIN <= v <= i32::MAX {
            Some(v as i32)
        } else {
            None
        },
        None => None,
    }
}

/// The meaning of an already trimmed line `t` when `cancel` is the cancel word.
pub open spec fn meaning_of(t: Seq<char>, cancel: Seq<char>) -> GuessInput {
    if t == cancel {
        GuessInput::Cancel
    } else {
        match i32_of_text(t) {
            Some(v) => GuessInput::Note(v),
            None => GuessInput::Invalid,
        }
    }
}

/// Relies on `str::trim`: it removes leading and trailing whitespace; what is
/// left depends on the text alone.
#[verifier::external_body]
fn trim_text(s: &str) -> (r: &str)
    ensures
        r@ == trimmed_of(s@),
{
    s.trim()
}

/// Relies on `str::parse::<i32>`: it accepts an optional `+` or `-` sign followed
/// by ASCII digits only, and fails on anything else or on a value outside `i32`.
#[verifier::external_body]
fn parse_i32(s: &str) -> (r: Option<i32>)
    ensures
        r == i32_of_text(s@),
{
    s.parse::<i32>().ok()
}

/// Classifies a trimmed line: the cancel word, a note number, or neither.
pub fn classify_trimmed(t: &str, cancel: &str) -> (g: GuessInput)
    ensures
        g == meaning_of(t@, cancel@),
{
    let line = t.to_owned();
    let word = cancel.to_owned();
    if line == word {
        GuessInput::Cancel
    } else {
        match parse_i32(t) {
            Some(v) => GuessInput::Note(v),
            None => GuessInput::Invalid,
        }
    }
}

/// Classifies one raw line typed at the guess prompt, surrounding whitespace ignored.
pub fn classify_input(line: &str, cancel: &str) -> (g: GuessInput)
    ensures
        g == meaning_of(trimmed_of(line@), cancel@),
{
    let t = trim_text(line);
    classify_trimmed(t, cancel)
}

} // verus!
