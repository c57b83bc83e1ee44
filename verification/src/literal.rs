//! Literals: which words are integers, floating-point numbers or booleans.
use crate::scan::{decode, scan};
use crate::token::{Expression, ExpressionView, Primitive, PrimitiveView};
use vstd::prelude::*;

verus! {

/// A decimal digit.
pub open spec fn is_digit(c: char) -> bool {
    '0' <= c && c <= '9'
}

/// One for a leading sign, zero without one.
pub open spec fn sign_len(s: Seq<char>) -> int {
    if s.len() > 0 && (s[0] == '+' || s[0] == '-') {
        1
    } else {
        0
    }
}

/// What a decimal digit counts for.
pub open spec fn digit_value(c: char) -> int {
    if c == '1' {
        1
    } else if c == '2' {
        2
    } else if c == '3' {
        3
    } else if c == '4' {
        4
    } else if c == '5' {
        5
    } else if c == '6' {
        6
    } else if c == '7' {
        7
    } else if c == '8' {
        8
    } else if c == '9' {
        9
    } else {
        0
    }
}

/// The number that a run of decimal digits denotes.
pub open spec fn decimal_value(digits: Seq<char>) -> int
    decreases digits.len(),
{
    if digits.len() == 0 {
        0
    } else {
        10 * decimal_value(digits.drop_last()) + digit_value(digits.last())
    }
}

/// The 64-bit signed integer that a word denotes: an optional sign, then
/// one or more decimal digits and nothing else, with a value in range.
pub open spec fn int_value_of(s: Seq<char>) -> Option<i64> {
    let digits = s.subrange(sign_len(s), s.len() as int);
    let value = if s.len() > 0 && s[0] == '-' {
        -decimal_value(digits)
    } else {
        decimal_value(digits)
    };
    if digits.len() > 0 && (forall|i: int| 0 <= i < digits.len() ==> is_digit(#[trigger] digits[i]))
        && i64::MIN <= value <= i64::MAX {
        Some(value as i64)
    } else {
        None
    }
}

/// Calls `str::parse` for a 64-bit signed integer, which accepts an
/// optional `+` or `-` followed by decimal digits only, and fails on an
/// empty text, on any other character and on a value out of range. The
/// contract says so and maps the error to `None`.
#[verifier::external_body]
fn parse_int(value: &str) -> (r: Option<i64>)
    ensures
        r == int_value_of(value@),
{
    match value.parse::<i64>() {
        Ok(v) => Some(v),
        Err(_) => None,
    }
}

/// The integer that a word denotes, if it denotes one.
pub fn maybe_parse_int(value: &str) -> (r: Option<i64>)
    ensures
        r == int_value_of(value@),
{
    parse_int(value)
}

/// The end of the run of decimal digits that starts at `from`.
pub open spec fn digits_end(s: Seq<char>, from: int) -> int {
    scan(|i: int| !is_digit(s[i]), from, s.len() as int)
}

/// A letter in either case.
pub open spec fn either(c: char, lower: char, upper: char) -> bool {
    c == lower || c == upper
}

/// `s[from..]` is `inf`, in any mix of cases.
pub open spec fn spells_inf(s: Seq<char>, from: int) -> bool {
    &&& s.len() - from == 3
    &&& either(s[from], 'i', 'I')
    &&& either(s[from + 1], 'n', 'N')
    &&& either(s[from + 2], 'f', 'F')
}

/// `s[from..]` is `nan`, in any mix of cases.
pub open spec fn spells_nan(s: Seq<char>, from: int) -> bool {
    &&& s.len() - from == 3
    &&& either(s[from], 'n', 'N')
    &&& either(s[from + 1], 'a', 'A')
    &&& either(s[from + 2], 'n', 'N')
}

/// `s[from..]` is `infinity`, in any mix of cases.
pub open spec fn spells_infinity(s: Seq<char>, from: int) -> bool {
    &&& s.len() - from == 8
    &&& either(s[from], 'i', 'I')
    &&& either(s[from + 1], 'n', 'N')
    &&& either(s[from + 2], 'f', 'F')
    &&& either(s[from + 3], 'i', 'I')
    &&& either(s[from + 4], 'n', 'N')
    &&& either(s[from + 5], 'i', 'I')
    &&& either(s[from + 6], 't', 'T')
    &&& either(s[from + 7], 'y', 'Y')
}

/// `s[from..]` is an exponent: `e` or `E`, an optional sign, and one or
/// more digits up to the end of the text.
pub open spec fn exponent_at(s: Seq<char>, from: int) -> bool {
    let n = s.len() as int;
    from < n && either(s[from], 'e', 'E') && {
        let digits = if from + 1 < n && (s[from + 1] == '+' || s[from + 1] == '-') {
            from + 2
        } else {
            from + 1
        };
        digits < digits_end(s, digits) && digits_end(s, digits) == n
    }
}

/// `s[from..]` is a decimal number: digits with an optional point among
/// them, at least one digit in all, and an optional exponent.
pub open spec fn number_at(s: Seq<char>, from: int) -> bool {
    let n = s.len() as int;
    let whole = digits_end(s, from);
    if whole < n && s[whole] == '.' {
        let fraction = digits_end(s, whole + 1);
        (whole - from) + (fraction - (whole + 1)) >= 1 && (fraction == n || exponent_at(
            s,
            fraction,
        ))
    } else {
        whole - from >= 1 && (whole == n || exponent_at(s, whole))
    }
}

/// The grammar of a floating-point literal: an optional sign, then `inf`,
/// `infinity` or `nan` in any mix of cases, or a decimal number.
pub open spec fn is_float_text(s: Seq<char>) -> bool {
    let from = sign_len(s);
    spells_inf(s, from) || spells_infinity(s, from) || spells_nan(s, from) || number_at(s, from)
}

/// The boolean that a word spells: `true` or `false`, exactly.
pub open spec fn bool_value_of(s: Seq<char>) -> Option<bool> {
    if s =~= seq!['t', 'r', 'u', 'e'] {
        Some(true)
    } else if s =~= seq!['f', 'a', 'l', 's', 'e'] {
        Some(false)
    } else {
        None
    }
}

/// The literal that a word denotes: an integer first, else a
/// floating-point number, else a boolean.
pub open spec fn literal_of(s: Seq<char>) -> Option<ExpressionView> {
    match int_value_of(s) {
        Some(v) => Some(ExpressionView::Primitive(PrimitiveView::Int(v))),
        None => if is_float_text(s) {
            Some(ExpressionView::Primitive(PrimitiveView::Float(s)))
        } else {
            match bool_value_of(s) {
                Some(b) => Some(ExpressionView::Primitive(PrimitiveView::Bool(b))),
                None => None,
            }
        },
    }
}

fn skip_digits(chars: &Vec<char>, from: usize) -> (end: usize)
    requires
        from <= chars.len(),
    ensures
        end == digits_end(chars@, from as int),
        from <= end <= chars.len(),
{
    let mut i: usize = from;
    while i < chars.len() && chars[i] >= '0' && chars[i] <= '9'
        invariant
            from <= i <= chars.len(),
            digits_end(chars@, from as int) == digits_end(chars@, i as int),
        decreases chars.len() - i,
    {
        i += 1;
    }
    i
}

fn letter(chars: &Vec<char>, at: usize, lower: char, upper: char) -> (b: bool)
    requires
        at < chars.len(),
    ensures
        b == either(chars@[at as int], lower, upper),
{
    chars[at] == lower || chars[at] == upper
}

fn special_at(chars: &Vec<char>, from: usize) -> (b: bool)
    requires
        from <= chars.len(),
    ensures
        b == (spells_inf(chars@, from as int) || spells_infinity(chars@, from as int)
            || spells_nan(chars@, from as int)),
{
    let rest = chars.len() - from;
    if rest == 3 {
        (letter(chars, from, 'i', 'I') && letter(chars, from + 1, 'n', 'N') && letter(
            chars,
            from + 2,
            'f',
            'F',
        )) || (letter(chars, from, 'n', 'N') && letter(chars, from + 1, 'a', 'A') && letter(
            chars,
            from + 2,
            'n',
            'N',
        ))
    } else if rest == 8 {
        letter(chars, from, 'i', 'I') && letter(chars, from + 1, 'n', 'N') && letter(
            chars,
            from + 2,
            'f',
            'F',
        ) && letter(chars, from + 3, 'i', 'I') && letter(chars, from + 4, 'n', 'N') && letter(
            chars,
            from + 5,
            'i',
            'I',
        ) && letter(chars, from + 6, 't', 'T') && letter(chars, from + 7, 'y', 'Y')
    } else {
        false
    }
}

fn exponent_from(chars: &Vec<char>, from: usize) -> (b: bool)
    requires
        from <= chars.len(),
    ensures
        b == exponent_at(chars@, from as int),
{
    let n = chars.len();
    if from < n && letter(chars, from, 'e', 'E') {
        let digits: usize = if from + 1 < n && (chars[from + 1] == '+' || chars[from + 1] == '-') {
            from + 2
        } else {
            from + 1
        };
        let end = skip_digits(chars, digits);
        digits < end && end == n
    } else {
        false
    }
}

fn number_from(chars: &Vec<char>, from: usize) -> (b: bool)
    requires
        from <= chars.len(),
    ensures
        b == number_at(chars@, from as int),
{
    let n = chars.len();
    let whole = skip_digits(chars, from);
    if whole < n && chars[whole] == '.' {
        let fraction = skip_digits(chars, whole + 1);
        (whole - from) + (fraction - (whole + 1)) >= 1 && (fraction == n || exponent_from(
            chars,
            fraction,
        ))
    } else {
        whole - from >= 1 && (whole == n || exponent_from(chars, whole))
    }
}

/// Whether the characters follow the grammar of a floating-point literal.
pub fn is_float_literal(chars: &Vec<char>) -> (b: bool)
    ensures
        b == is_float_text(chars@),
{
    let from: usize = if chars.len() > 0 && (chars[0] == '+' || chars[0] == '-') {
        1
    } else {
        0
    };
    special_at(chars, from) || number_from(chars, from)
}

/// The boolean that the characters spell, if they spell one.
pub fn bool_literal(chars: &Vec<char>) -> (r: Option<bool>)
    ensures
        r == bool_value_of(chars@),
{
    if chars.len() == 4 && chars[0] == 't' && chars[1] == 'r' && chars[2] == 'u' && chars[3]
        == 'e' {
        assert(chars@ =~= seq!['t', 'r', 'u', 'e']);
        Some(true)
    } else if chars.len() == 5 && chars[0] == 'f' && chars[1] == 'a' && chars[2] == 'l'
        && chars[3] == 's' && chars[4] == 'e' {
        assert(chars@ =~= seq!['f', 'a', 'l', 's', 'e']);
        Some(false)
    } else {
        assert(!(chars@ =~= seq!['t', 'r', 'u', 'e']));
        assert(!(chars@ =~= seq!['f', 'a', 'l', 's', 'e']));
        None
    }
}

/// The text of a floating-point literal, where the word is one.
pub fn maybe_parse_float(value: &str) -> (r: Option<String>)
    ensures
        match r {
            Some(text) => is_float_text(value@) && text@ == value@,
            None => !is_float_text(value@),
        },
{
    let chars = decode(value);
    if is_float_literal(&chars) {
        Some(value.to_owned())
    } else {
        None
    }
}

/// The boolean that a word spells, if it spells one.
pub fn maybe_parse_bool(value: &str) -> (r: Option<bool>)
    ensures
        r == bool_value_of(value@),
{
    let chars = decode(value);
    bool_literal(&chars)
}

/// The literal token that a word denotes, if it denotes one.
pub fn maybe_parse_primitive(value: &str) -> (r: Option<Expression>)
    ensures
        match r {
            Some(e) => literal_of(value@) == Some(e@),
            None => literal_of(value@) is None,
        },
{
    if let Some(v) = maybe_parse_int(value) {
        return Some(Expression::Primitive(Primitive::Int(v)));
    }
    if let Some(text) = maybe_parse_float(value) {
        return Some(Expression::Primitive(Primitive::Float(text)));
    }
    match maybe_parse_bool(value) {
        Some(b) => Some(Expression::Primitive(Primitive::Bool(b))),
        None => None,
    }
}

} // verus!
