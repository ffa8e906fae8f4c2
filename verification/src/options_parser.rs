//! A line-oriented `key: value` options format.
//!
//! Each line holds a key, a colon, and a value; keys and values are
//! trimmed of surrounding whitespace. A value is read as the first of
//! these that fits: an integer, a floating-point literal (kept as its
//! text), a boolean (`true`/`false`, bare or in double quotes), a
//! bracketed comma-separated list of strings, or a plain string. Empty
//! lines and lines starting with `#` are ignored, as is any line whose
//! key is missing.

use vstd::prelude::*;

use crate::text::find_char;
use crate::text::first_index_of;
use crate::text::trim;
use crate::text::trim_spec;
use crate::text::str_eq;
use vstd::string::StringExecFns;

verus! {

/// Whether a character is an ASCII decimal digit.
pub open spec fn is_digit_char(c: char) -> bool {
    '0' <= c && c <= '9'
}

/// The value of an ASCII decimal digit.
pub open spec fn digit_val(c: char) -> int
    recommends
        is_digit_char(c),
{
    c as int - '0' as int
}

/// Whether every character of `s` is an ASCII decimal digit.
pub open spec fn all_digits(s: Seq<char>) -> bool {
    forall|j: int| 0 <= j < s.len() ==> is_digit_char(s[j])
}

/// The numeric value of a digit sequence, most significant digit first.
pub open spec fn digits_value(s: Seq<char>) -> int
    decreases s.len(),
{
    if s.len() == 0 {
        0
    } else {
        digits_value(s.drop_last()) * 10 + digit_val(s.last())
    }
}

/// `s` without its single optional leading sign.
pub open spec fn int_body(s: Seq<char>) -> Seq<char> {
    if s.len() > 0 && (s[0] == '+' || s[0] == '-') {
        s.drop_first()
    } else {
        s
    }
}

/// The sign `s`'s optional leading sign denotes.
pub open spec fn int_sign(s: Seq<char>) -> int {
    if s.len() > 0 && s[0] == '-' {
        -1
    } else {
        1
    }
}

/// Whether `s` is an integer literal: an optional sign followed by one
/// or more ASCII digits (the strings `i64::from_str` accepts, before its
/// range check).
pub open spec fn is_int_literal(s: Seq<char>) -> bool {
    int_body(s).len() > 0 && all_digits(int_body(s))
}

/// The mathematical value of an integer literal.
pub open spec fn int_literal_value(s: Seq<char>) -> int {
    int_sign(s) * digits_value(int_body(s))
}

/// Whether `s` is an integer literal whose value fits in an `i64`:
/// exactly the strings `i64::from_str` accepts.
pub open spec fn is_i64_literal(s: Seq<char>) -> bool {
    is_int_literal(s) && -0x8000_0000_0000_0000 <= int_literal_value(s) && int_literal_value(s)
        <= 0x7fff_ffff_ffff_ffff
}

/// Digit sequences have nonnegative values.
proof fn lemma_digits_value_nonneg(s: Seq<char>)
    requires
        all_digits(s),
    ensures
        digits_value(s) >= 0,
    decreases s.len(),
{
    if s.len() > 0 {
        lemma_digits_value_nonneg(s.drop_last());
    }
}

/// Whether a character marks an exponent in a float literal.
pub open spec fn is_exp_marker(c: char) -> bool {
    c == 'e' || c == 'E'
}

/// The index of the first exponent marker in `s`, or `s.len()` when none
/// occurs.
pub open spec fn first_marker_index(s: Seq<char>) -> int
    decreases s.len(),
{
    if s.len() == 0 {
        0
    } else if is_exp_marker(s[0]) {
        0
    } else {
        1 + first_marker_index(s.drop_first())
    }
}

proof fn lemma_first_marker_index_at(s: Seq<char>, k: int)
    requires
        0 <= k <= s.len(),
        forall|j: int| 0 <= j < k ==> !is_exp_marker(s[j]),
        k < s.len() ==> is_exp_marker(s[k]),
    ensures
        first_marker_index(s) == k,
    decreases k,
{
    if k > 0 {
        lemma_first_marker_index_at(s.drop_first(), k - 1);
    }
}

/// Whether `s` is a float mantissa: only digits and dots, at most one
/// dot, and at least one digit. Together with an optional exponent this
/// is the `Number` form of `f64::from_str`'s documented grammar.
pub open spec fn is_mantissa(s: Seq<char>) -> bool {
    s.len() > 0 && (forall|j: int| 0 <= j < s.len() ==> (is_digit_char(s[j]) || s[j] == '.')) && (
    exists|j: int| 0 <= j < s.len() && is_digit_char(s[j])) && (forall|j: int, k: int|
        0 <= j < k < s.len() && s[j] == '.' ==> s[k] != '.')
}

/// Whether `s` spells `inf`, in any letter case.
pub open spec fn is_inf_seq(s: Seq<char>) -> bool {
    s.len() == 3 && (s[0] == 'i' || s[0] == 'I') && (s[1] == 'n' || s[1] == 'N') && (s[2] == 'f'
        || s[2] == 'F')
}

/// Whether `s` spells `infinity`, in any letter case.
pub open spec fn is_infinity_seq(s: Seq<char>) -> bool {
    s.len() == 8 && (s[0] == 'i' || s[0] == 'I') && (s[1] == 'n' || s[1] == 'N') && (s[2] == 'f'
        || s[2] == 'F') && (s[3] == 'i' || s[3] == 'I') && (s[4] == 'n' || s[4] == 'N') && (s[5]
        == 'i' || s[5] == 'I') && (s[6] == 't' || s[6] == 'T') && (s[7] == 'y' || s[7] == 'Y')
}

/// Whether `s` spells `nan`, in any letter case.
pub open spec fn is_nan_seq(s: Seq<char>) -> bool {
    s.len() == 3 && (s[0] == 'n' || s[0] == 'N') && (s[1] == 'a' || s[1] == 'A') && (s[2] == 'n'
        || s[2] == 'N')
}

/// Whether `s` is a number: a mantissa, optionally followed by an
/// exponent marker and a signed digit count.
pub open spec fn is_number_seq(s: Seq<char>) -> bool {
    let i = first_marker_index(s);
    if i == s.len() {
        is_mantissa(s)
    } else {
        is_mantissa(s.subrange(0, i)) && is_int_literal(s.subrange(i + 1, s.len() as int))
    }
}

/// Whether `s` is a float literal: an optional sign followed by `inf`,
/// `infinity` or `nan` in any case, or by a number. These are exactly
/// the strings `f64::from_str`'s documented grammar accepts.
pub open spec fn is_f64_literal(s: Seq<char>) -> bool {
    let b = int_body(s);
    is_inf_seq(b) || is_infinity_seq(b) || is_nan_seq(b) || is_number_seq(b)
}

/// Parses an integer literal, accepting exactly the strings
/// `i64::from_str` accepts and returning its value.
pub fn parse_i64(s: &str) -> (r: Option<i64>)
    ensures
        (r is Some <==> is_i64_literal(s@)),
        (r matches Some(v) ==> v as int == int_literal_value(s@)),
{
    let n = s.unicode_len();
    if n == 0 {
        return None;
    }
    let first = s.get_char(0);
    let neg = first == '-';
    let start: usize = if first == '-' || first == '+' {
        1
    } else {
        0
    };
    proof {
        assert(int_body(s@) =~= s@.subrange(start as int, n as int));
    }
    if start == n {
        return None;
    }
    let ghost body = s@.subrange(start as int, n as int);
    let mut acc: u128 = 0;
    let mut i: usize = start;
    while i < n
        invariant
            start <= i <= n,
            n == s@.len(),
            start < n,
            body == s@.subrange(start as int, n as int),
            int_body(s@) == body,
            neg == (s@[0] == '-'),
            forall|j: int| start <= j < i ==> is_digit_char(s@[j]),
            digits_value(s@.subrange(start as int, i as int)) < 0x1_0000_0000_0000_0000 ==> acc
                == digits_value(s@.subrange(start as int, i as int)),
            digits_value(s@.subrange(start as int, i as int)) >= 0x1_0000_0000_0000_0000 ==> acc
                == 0x1_0000_0000_0000_0000,
            acc <= 0x1_0000_0000_0000_0000,
            digits_value(s@.subrange(start as int, i as int)) >= 0,
        decreases n - i,
    {
        let c = s.get_char(i);
        if !('0' <= c && c <= '9') {
            proof {
                assert(body[i - start] == s@[i as int]);
                assert(!is_digit_char(int_body(s@)[i - start]));
                assert(!is_i64_literal(s@));
            }
            return None;
        }
        let d: u32 = c as u32 - '0' as u32;
        let ghost pre = s@.subrange(start as int, i as int);
        let ghost post = s@.subrange(start as int, i + 1 as int);
        proof {
            assert(post.drop_last() =~= pre);
            assert(post.last() == s@[i as int]);
            lemma_digits_value_nonneg(pre);
            assert(digits_value(post) == digits_value(pre) * 10 + digit_val(s@[i as int]));
        }
        if acc >= 0x1_0000_0000_0000_0000 {
            acc = 0x1_0000_0000_0000_0000;
        } else {
            acc = acc * 10 + d as u128;
            if acc > 0x1_0000_0000_0000_0000 {
                acc = 0x1_0000_0000_0000_0000;
            }
        }
        i += 1;
    }
    proof {
        assert(s@.subrange(start as int, n as int) =~= body);
        assert(all_digits(body)) by {
            assert forall|j: int| 0 <= j < body.len() implies is_digit_char(body[j]) by {
                assert(body[j] == s@[start + j]);
            }
        }
        lemma_digits_value_nonneg(body);
        assert(is_int_literal(s@));
        assert(int_literal_value(s@) == int_sign(s@) * digits_value(body));
    }
    if neg {
        if acc > 0x8000_0000_0000_0000 {
            None
        } else if acc == 0x8000_0000_0000_0000 {
            Some((-0x7fff_ffff_ffff_ffffi64) - 1)
        } else {
            Some(-(acc as i64))
        }
    } else {
        if acc > 0x7fff_ffff_ffff_ffff {
            None
        } else {
            Some(acc as i64)
        }
    }
}

/// Whether `s[from..to]` is one or more ASCII digits.
fn digits_only_text(s: &str, from: usize, to: usize) -> (r: bool)
    requires
        from <= to <= s@.len(),
    ensures
        r == (to - from > 0 && all_digits(s@.subrange(from as int, to as int))),
{
    let ghost t = s@.subrange(from as int, to as int);
    if from == to {
        return false;
    }
    let mut i: usize = from;
    while i < to
        invariant
            from <= i <= to <= s@.len(),
            t == s@.subrange(from as int, to as int),
            forall|j: int| from <= j < i ==> is_digit_char(s@[j]),
        decreases to - i,
    {
        let c = s.get_char(i);
        if !('0' <= c && c <= '9') {
            proof {
                assert(t[i - from] == s@[i as int]);
            }
            return false;
        }
        i += 1;
    }
    proof {
        assert forall|j: int| 0 <= j < t.len() implies is_digit_char(t[j]) by {
            assert(t[j] == s@[from + j]);
        }
    }
    true
}

/// Whether `s[from..to]` is an integer literal: an optional sign and one
/// or more digits.
fn signed_digits_text(s: &str, from: usize, to: usize) -> (r: bool)
    requires
        from <= to <= s@.len(),
    ensures
        r == is_int_literal(s@.subrange(from as int, to as int)),
{
    let ghost t = s@.subrange(from as int, to as int);
    if from == to {
        return false;
    }
    let c = s.get_char(from);
    if c == '+' || c == '-' {
        proof {
            assert(int_body(t) =~= s@.subrange(from + 1 as int, to as int));
        }
        digits_only_text(s, from + 1, to)
    } else {
        proof {
            assert(int_body(t) =~= t);
        }
        digits_only_text(s, from, to)
    }
}

/// Whether `s[from..to]` is a float mantissa.
fn mantissa_text(s: &str, from: usize, to: usize) -> (r: bool)
    requires
        from <= to <= s@.len(),
    ensures
        r == is_mantissa(s@.subrange(from as int, to as int)),
{
    let ghost t = s@.subrange(from as int, to as int);
    if from == to {
        return false;
    }
    let mut saw_digit = false;
    let ghost mut digit_at: int = 0;
    let mut saw_dot = false;
    let ghost mut dot_at: int = 0;
    let mut i: usize = from;
    while i < to
        invariant
            from <= i <= to <= s@.len(),
            t == s@.subrange(from as int, to as int),
            forall|j: int| from <= j < i ==> (is_digit_char(s@[j]) || s@[j] == '.'),
            saw_digit ==> from <= digit_at < i && is_digit_char(s@[digit_at]),
            !saw_digit ==> forall|j: int| from <= j < i ==> !is_digit_char(s@[j]),
            saw_dot ==> from <= dot_at < i && s@[dot_at] == '.' && (forall|j: int|
                from <= j < i && j != dot_at ==> s@[j] != '.'),
            !saw_dot ==> forall|j: int| from <= j < i ==> s@[j] != '.',
        decreases to - i,
    {
        let c = s.get_char(i);
        if '0' <= c && c <= '9' {
            if !saw_digit {
                saw_digit = true;
                proof {
                    digit_at = i as int;
                }
            }
        } else if c == '.' {
            if saw_dot {
                proof {
                    assert(t[dot_at - from] == '.' && t[i - from] == '.');
                    assert(!is_mantissa(t));
                }
                return false;
            }
            saw_dot = true;
            proof {
                dot_at = i as int;
            }
        } else {
            proof {
                assert(t[i - from] == s@[i as int]);
                assert(!is_mantissa(t));
            }
            return false;
        }
        i += 1;
    }
    if saw_digit {
        proof {
            assert(is_mantissa(t)) by {
                assert forall|j: int| 0 <= j < t.len() implies (is_digit_char(t[j]) || t[j]
                    == '.') by {
                    assert(t[j] == s@[from + j]);
                }
                assert(t[digit_at - from] == s@[digit_at]);
                assert(is_digit_char(t[digit_at - from]));
                assert forall|j: int, k: int|
                    0 <= j < k < t.len() && t[j] == '.' implies t[k] != '.' by {
                    assert(t[j] == s@[from + j]);
                    assert(t[k] == s@[from + k]);
                }
            }
        }
        true
    } else {
        proof {
            assert forall|j: int| 0 <= j < t.len() implies !is_digit_char(t[j]) by {
                assert(t[j] == s@[from + j]);
            }
        }
        false
    }
}

/// The first exponent marker in `s` at or after `from`, or the length of
/// `s` when none occurs there.
fn find_marker_from(s: &str, from: usize) -> (i: usize)
    requires
        from <= s@.len(),
    ensures
        from <= i <= s@.len(),
        i - from == first_marker_index(s@.subrange(from as int, s@.len() as int)),
        i < s@.len() ==> is_exp_marker(s@[i as int]),
        forall|j: int| from <= j < i ==> !is_exp_marker(s@[j]),
{
    let ghost t = s@.subrange(from as int, s@.len() as int);
    let n = s.unicode_len();
    let mut i: usize = from;
    while i < n
        invariant
            from <= i <= n,
            n == s@.len(),
            t == s@.subrange(from as int, s@.len() as int),
            forall|j: int| from <= j < i ==> !is_exp_marker(s@[j]),
        decreases n - i,
    {
        let c = s.get_char(i);
        if c == 'e' || c == 'E' {
            proof {
                assert forall|j: int| 0 <= j < i - from implies !is_exp_marker(t[j]) by {
                    assert(t[j] == s@[from + j]);
                }
                assert(t[i - from] == s@[i as int]);
                lemma_first_marker_index_at(t, i - from);
            }
            return i;
        }
        i += 1;
    }
    proof {
        assert forall|j: int| 0 <= j < t.len() implies !is_exp_marker(t[j]) by {
            assert(t[j] == s@[from + j]);
        }
        lemma_first_marker_index_at(t, t.len() as int);
    }
    n
}

/// Whether the three characters at `from` spell `inf`, in any case, and
/// end the string.
fn inf_text(s: &str, from: usize) -> (r: bool)
    requires
        from <= s@.len(),
    ensures
        r == is_inf_seq(s@.subrange(from as int, s@.len() as int)),
{
    let n = s.unicode_len();
    if n - from != 3 {
        return false;
    }
    let c0 = s.get_char(from);
    let c1 = s.get_char(from + 1);
    let c2 = s.get_char(from + 2);
    (c0 == 'i' || c0 == 'I') && (c1 == 'n' || c1 == 'N') && (c2 == 'f' || c2 == 'F')
}

/// Whether the eight characters at `from` spell `infinity`, in any case,
/// and end the string.
fn infinity_text(s: &str, from: usize) -> (r: bool)
    requires
        from <= s@.len(),
    ensures
        r == is_infinity_seq(s@.subrange(from as int, s@.len() as int)),
{
    let n = s.unicode_len();
    if n - from != 8 {
        return false;
    }
    let c0 = s.get_char(from);
    let c1 = s.get_char(from + 1);
    let c2 = s.get_char(from + 2);
    let c3 = s.get_char(from + 3);
    let c4 = s.get_char(from + 4);
    let c5 = s.get_char(from + 5);
    let c6 = s.get_char(from + 6);
    let c7 = s.get_char(from + 7);
    (c0 == 'i' || c0 == 'I') && (c1 == 'n' || c1 == 'N') && (c2 == 'f' || c2 == 'F') && (c3 == 'i'
        || c3 == 'I') && (c4 == 'n' || c4 == 'N') && (c5 == 'i' || c5 == 'I') && (c6 == 't' || c6
        == 'T') && (c7 == 'y' || c7 == 'Y')
}

/// Whether the three characters at `from` spell `nan`, in any case, and
/// end the string.
fn nan_text(s: &str, from: usize) -> (r: bool)
    requires
        from <= s@.len(),
    ensures
        r == is_nan_seq(s@.subrange(from as int, s@.len() as int)),
{
    let n = s.unicode_len();
    if n - from != 3 {
        return false;
    }
    let c0 = s.get_char(from);
    let c1 = s.get_char(from + 1);
    let c2 = s.get_char(from + 2);
    (c0 == 'n' || c0 == 'N') && (c1 == 'a' || c1 == 'A') && (c2 == 'n' || c2 == 'N')
}

/// Whether `s` is a float literal, accepting exactly the strings
/// `f64::from_str`'s documented grammar accepts.
pub fn is_float_literal(s: &str) -> (r: bool)
    ensures
        r == is_f64_literal(s@),
{
    let n = s.unicode_len();
    if n == 0 {
        return false;
    }
    let first = s.get_char(0);
    let start: usize = if first == '-' || first == '+' {
        1
    } else {
        0
    };
    proof {
        assert(int_body(s@) =~= s@.subrange(start as int, n as int));
    }
    let ghost b = s@.subrange(start as int, n as int);
    if inf_text(s, start) {
        return true;
    }
    if infinity_text(s, start) {
        return true;
    }
    if nan_text(s, start) {
        return true;
    }
    let mi = find_marker_from(s, start);
    proof {
        assert(first_marker_index(b) == mi - start);
    }
    if mi < n {
        proof {
            assert(b.subrange(0, mi - start) =~= s@.subrange(start as int, mi as int));
            assert(b.subrange(mi - start + 1, b.len() as int) =~= s@.subrange(
                mi + 1 as int,
                n as int,
            ));
        }
        mantissa_text(s, start, mi) && signed_digits_text(s, mi + 1, n)
    } else {
        proof {
            assert(b =~= s@.subrange(start as int, n as int));
        }
        mantissa_text(s, start, n)
    }
}

/// The possible data types of a parsed options value. A float value is
/// kept as its literal text, exactly as it stood in the line.
#[derive(Debug, Clone, PartialEq)]
pub enum OptionsDataType {
    /// An integer value.
    Integer(i64),
    /// A floating-point literal, kept as its text.
    Float(String),
    /// A boolean value.
    Boolean(bool),
    /// A string value.
    String(String),
    /// A list of string values.
    StringList(Vec<String>),
}

/// The mathematical value of a parsed options value.
pub enum OptionsValue {
    Integer(int),
    Float(Seq<char>),
    Boolean(bool),
    Text(Seq<char>),
    List(Seq<Seq<char>>),
}

impl View for OptionsDataType {
    type V = OptionsValue;

    open spec fn view(&self) -> OptionsValue {
        match self {
            OptionsDataType::Integer(i) => OptionsValue::Integer(*i as int),
            OptionsDataType::Float(t) => OptionsValue::Float(t@),
            OptionsDataType::Boolean(b) => OptionsValue::Boolean(*b),
            OptionsDataType::String(v) => OptionsValue::Text(v@),
            OptionsDataType::StringList(items) => OptionsValue::List(items.deep_view()),
        }
    }
}

impl DeepView for OptionsDataType {
    type V = OptionsValue;

    open spec fn deep_view(&self) -> OptionsValue {
        self.view()
    }
}

/// A parsed line: a key and its value.
#[derive(Debug, Clone, PartialEq)]
pub struct ParsedLine {
    /// The key parsed from the line.
    pub key: String,
    /// The value associated with the key.
    pub value: OptionsDataType,
}

/// The mathematical value of a parsed line.
pub struct ParsedLineView {
    pub key: Seq<char>,
    pub value: OptionsValue,
}

impl View for ParsedLine {
    type V = ParsedLineView;

    open spec fn view(&self) -> ParsedLineView {
        ParsedLineView { key: self.key@, value: self.value@ }
    }
}

impl DeepView for ParsedLine {
    type V = ParsedLineView;

    open spec fn deep_view(&self) -> ParsedLineView {
        self.view()
    }
}

/// Error type for parsing failures.
#[derive(Debug, Clone)]
pub struct ParseError {
    /// Description of the parsing error.
    pub message: String,
}

impl ParseError {
    /// The error's display text.
    pub fn describe(&self) -> (r: String)
        ensures
            r@ == "ParseError: "@ + self.message@,
    {
        let prefix = String::from_str("ParseError: ");
        prefix.concat(self.message.as_str())
    }
}

/// The items of a comma-separated sequence, each trimmed of surrounding
/// whitespace; a sequence without commas is one item.
pub open spec fn split_trim_commas(s: Seq<char>) -> Seq<Seq<char>>
    decreases s.len(),
{
    let i = first_index_of(s, ',');
    if 0 <= i && i < s.len() {
        seq![trim_spec(s.subrange(0, i))] + split_trim_commas(s.subrange(i + 1, s.len() as int))
    } else {
        seq![trim_spec(s)]
    }
}

/// The value a trimmed value string denotes: the first fit among empty
/// (a string), integer, float, boolean, bracketed list, and plain string.
pub open spec fn spec_parse_value(s: Seq<char>) -> OptionsValue {
    if s.len() == 0 {
        OptionsValue::Text(s)
    } else if is_i64_literal(s) {
        OptionsValue::Integer(int_literal_value(s))
    } else if is_f64_literal(s) {
        OptionsValue::Float(s)
    } else if s == "true"@ || s == "\"true\""@ {
        OptionsValue::Boolean(true)
    } else if s == "false"@ || s == "\"false\""@ {
        OptionsValue::Boolean(false)
    } else if s[0] == '[' && s[s.len() - 1] == ']' {
        OptionsValue::List(split_trim_commas(s.subrange(1, s.len() - 1)))
    } else {
        OptionsValue::Text(s)
    }
}

/// The part of a line before its first colon, untrimmed; the whole line
/// when it has no colon.
pub open spec fn raw_key(line: Seq<char>) -> Seq<char> {
    line.subrange(0, first_index_of(line, ':'))
}

/// The part of a line after its first colon, untrimmed; empty when the
/// line has no colon.
pub open spec fn raw_value(line: Seq<char>) -> Seq<char> {
    let i = first_index_of(line, ':');
    if 0 <= i && i < line.len() {
        line.subrange(i + 1, line.len() as int)
    } else {
        Seq::<char>::empty()
    }
}

/// A line's key: the part before the first colon, trimmed.
pub open spec fn line_key(line: Seq<char>) -> Seq<char> {
    trim_spec(raw_key(line))
}

/// A line's value string: the part after the first colon, trimmed.
pub open spec fn line_value(line: Seq<char>) -> Seq<char> {
    trim_spec(raw_value(line))
}

/// What a successfully parsed line denotes.
pub open spec fn spec_parse_line(line: Seq<char>) -> ParsedLineView {
    ParsedLineView { key: line_key(line), value: spec_parse_value(line_value(line)) }
}

/// Splits a line at its first colon into a trimmed key and a trimmed
/// value string; a line without a colon is all key, with an empty value.
pub fn split_line<'a>(line: &'a str) -> (r: Result<(&'a str, &'a str), ParseError>)
    ensures
        r is Ok,
        (r matches Ok((k, v)) ==> k@ == line_key(line@) && v@ == line_value(line@)),
{
    let n = line.unicode_len();
    let i = find_char(line, ':');
    let key_part = line.substring_char(0, i);
    let value_part = if i < n {
        line.substring_char(i + 1, n)
    } else {
        let empty_part = line.substring_char(n, n);
        proof {
            assert(empty_part@ =~= Seq::<char>::empty());
        }
        empty_part
    };
    Ok((trim(key_part), trim(value_part)))
}

/// The items of a bracketed list's inner text: split at commas, each
/// item trimmed.
fn split_list_items(inner: &str) -> (items: Vec<String>)
    ensures
        items.deep_view() == split_trim_commas(inner@),
{
    let mut items: Vec<String> = Vec::new();
    let mut rest: &str = inner;
    loop
        invariant
            split_trim_commas(inner@) == items.deep_view() + split_trim_commas(rest@),
        decreases rest@.len(),
    {
        let n = rest.unicode_len();
        let i = find_char(rest, ',');
        if i < n {
            let ghost old_rest = rest@;
            let ghost pre = items.deep_view();
            let piece = rest.substring_char(0, i);
            let item = trim(piece).to_owned();
            items.push(item);
            let new_rest = rest.substring_char(i + 1, n);
            proof {
                assert(items.deep_view() =~= pre + seq![trim_spec(old_rest.subrange(0, i as int))]);
                assert((pre + seq![trim_spec(old_rest.subrange(0, i as int))]) + split_trim_commas(
                    new_rest@,
                ) =~= pre + (seq![trim_spec(old_rest.subrange(0, i as int))] + split_trim_commas(
                    new_rest@,
                )));
            }
            rest = new_rest;
        } else {
            let ghost pre = items.deep_view();
            let item = trim(rest).to_owned();
            items.push(item);
            proof {
                assert(items.deep_view() =~= pre + seq![trim_spec(rest@)]);
            }
            return items;
        }
    }
}

/// Parses a single line into a key and a value; a line whose trimmed key
/// is empty is rejected.
pub fn parse_line(line: &str) -> (r: Result<ParsedLine, ParseError>)
    ensures
        (r is Ok <==> line_key(line@).len() > 0),
        (r matches Ok(p) ==> p@ == spec_parse_line(line@)),
        (r matches Err(e) ==> e.message@ == "Key is missing or empty"@),
{
    let kv = split_line(line);
    match kv {
        Ok((key, value_str)) => {
            if key.unicode_len() == 0 {
                return Err(
                    ParseError { message: String::from_str("Key is missing or empty") },
                );
            }
            let value = parse_value(value_str);
            Ok(ParsedLine { key: key.to_owned(), value })
        },
        Err(e) => Err(e),
    }
}

/// Reads a trimmed value string as the first fit among empty, integer,
/// float, boolean, bracketed string list, and plain string.
pub fn parse_value(value_str: &str) -> (v: OptionsDataType)
    ensures
        v@ == spec_parse_value(value_str@),
{
    let n = value_str.unicode_len();
    if n == 0 {
        let empty_text = String::new();
        proof {
            assert(empty_text@ =~= value_str@);
        }
        return OptionsDataType::String(empty_text);
    }
    match parse_i64(value_str) {
        Some(i) => {
            return OptionsDataType::Integer(i);
        },
        None => {},
    }
    if is_float_literal(value_str) {
        return OptionsDataType::Float(value_str.to_owned());
    }
    if str_eq(value_str, "true") || str_eq(value_str, "\"true\"") {
        return OptionsDataType::Boolean(true);
    }
    if str_eq(value_str, "false") || str_eq(value_str, "\"false\"") {
        return OptionsDataType::Boolean(false);
    }
    if value_str.get_char(0) == '[' && value_str.get_char(n - 1) == ']' {
        let inner = value_str.substring_char(1, n - 1);
        let items = split_list_items(inner);
        return OptionsDataType::StringList(items);
    }
    OptionsDataType::String(value_str.to_owned())
}

/// A trailing carriage return, left by splitting `\r\n` line endings at
/// the newline, is removed.
pub open spec fn chop_cr(line: Seq<char>) -> Seq<char> {
    if line.len() > 0 && line.last() == '\r' {
        line.drop_last()
    } else {
        line
    }
}

/// The lines of a text: split at `\n`, with a `\r` left before a split
/// point removed; a final line ending is optional. This is how
/// `str::lines` cuts a text.
pub open spec fn spec_lines(s: Seq<char>) -> Seq<Seq<char>>
    decreases s.len(),
{
    if s.len() == 0 {
        Seq::<Seq<char>>::empty()
    } else {
        let i = first_index_of(s, '\n');
        if 0 <= i && i < s.len() {
            seq![chop_cr(s.subrange(0, i))] + spec_lines(s.subrange(i + 1, s.len() as int))
        } else {
            seq![s]
        }
    }
}

/// What a whole options text denotes: each line trimmed; empty lines,
/// comment lines starting with `#`, and lines without a key are dropped;
/// every other line is parsed.
pub open spec fn spec_parse_lines(ls: Seq<Seq<char>>) -> Seq<ParsedLineView>
    decreases ls.len(),
{
    if ls.len() == 0 {
        Seq::<ParsedLineView>::empty()
    } else {
        let t = trim_spec(ls[0]);
        let rest = spec_parse_lines(ls.drop_first());
        if t.len() > 0 && t[0] != '#' && line_key(t).len() > 0 {
            seq![spec_parse_line(t)] + rest
        } else {
            rest
        }
    }
}

/// What a whole options text denotes.
pub open spec fn spec_parse_options(s: Seq<char>) -> Seq<ParsedLineView> {
    spec_parse_lines(spec_lines(s))
}

/// Parses a multi-line options text, ignoring empty lines, `#` comment
/// lines, and lines without a key.
pub fn parse_options_string(content: &str) -> (r: Vec<ParsedLine>)
    ensures
        r.deep_view() == spec_parse_options(content@),
{
    let mut out: Vec<ParsedLine> = Vec::new();
    let mut rest: &str = content;
    loop
        invariant
            spec_parse_options(content@) == out.deep_view() + spec_parse_lines(spec_lines(rest@)),
        decreases rest@.len(),
    {
        let n = rest.unicode_len();
        if n == 0 {
            proof {
                assert(out.deep_view() + spec_parse_lines(spec_lines(rest@)) =~= out.deep_view());
            }
            return out;
        }
        let ghost old_rest = rest@;
        let i = find_char(rest, '\n');
        let line: &str;
        let new_rest: &str;
        if i < n {
            let raw = rest.substring_char(0, i);
            let m = raw.unicode_len();
            if m > 0 && raw.get_char(m - 1) == '\r' {
                line = raw.substring_char(0, m - 1);
                proof {
                    assert(line@ =~= chop_cr(old_rest.subrange(0, i as int)));
                }
            } else {
                line = raw;
            }
            new_rest = rest.substring_char(i + 1, n);
        } else {
            line = rest;
            new_rest = rest.substring_char(n, n);
            proof {
                assert(new_rest@ =~= Seq::<char>::empty());
                assert(spec_lines(old_rest) =~= seq![old_rest] + spec_lines(new_rest@));
            }
        }
        proof {
            let ls = spec_lines(old_rest);
            assert(ls == seq![line@] + spec_lines(new_rest@));
            assert(ls[0] == line@);
            assert(ls.drop_first() =~= spec_lines(new_rest@));
        }
        let t = trim(line);
        if t.unicode_len() > 0 && t.get_char(0) != '#' {
            let parsed = parse_line(t);
            match parsed {
                Ok(p) => {
                    let ghost pre = out.deep_view();
                    out.push(p);
                    proof {
                        assert(out.deep_view() =~= pre + seq![spec_parse_line(t@)]);
                        assert((pre + seq![spec_parse_line(t@)]) + spec_parse_lines(
                            spec_lines(new_rest@),
                        ) =~= pre + (seq![spec_parse_line(t@)] + spec_parse_lines(
                            spec_lines(new_rest@),
                        )));
                    }
                },
                Err(_) => {},
            }
        }
        rest = new_rest;
    }
}

} // verus!
