//! Structured event parser: decodes one line of the host framework's
//! line-delimited structured output into an [`Event`](crate::event::Event).
//!
//! A line is one record: an object of comma-separated `"key": value`
//! members. A member's value is a string (with the usual one-character
//! escapes and `\u` code escapes), a number, `true`, `false`, `null`, or a
//! nested structure, which is passed over without being decoded. The
//! discriminator member `type` selects the suite or test variant; members
//! neither variant recognizes are ignored, whatever they hold, so the
//! decoding is forward-compatible. A line outside this grammar is
//! malformed, and malformed lines are a fatal condition for the caller:
//! the stream is trusted infrastructure output, not user input.

use vstd::prelude::*;
use crate::event::{Event, EventV};
use crate::text::{chars_eq_str, chars_to_string, str_to_chars};

verus! {

/// A scalar member value: a string's decoded characters, or any other
/// scalar (number, boolean or null), whose content no event reads.
pub enum ScalarV {
    Str(Seq<char>),
    Other,
}

/// One `"key": value` member, as a mathematical value.
pub struct FieldV {
    pub key: Seq<char>,
    pub value: ScalarV,
}

enum JsonScalar {
    Str(Vec<char>),
    Other,
}

impl View for JsonScalar {
    type V = ScalarV;

    closed spec fn view(&self) -> ScalarV {
        match self {
            JsonScalar::Str(t) => ScalarV::Str(t@),
            JsonScalar::Other => ScalarV::Other,
        }
    }
}

struct JsonField {
    key: Vec<char>,
    value: JsonScalar,
}

impl View for JsonField {
    type V = FieldV;

    closed spec fn view(&self) -> FieldV {
        FieldV { key: self.key@, value: self.value@ }
    }
}

impl DeepView for JsonField {
    type V = FieldV;

    closed spec fn deep_view(&self) -> FieldV {
        self.view()
    }
}

/// The record could not be decoded: the line lies outside the structured
/// event grammar.
#[derive(Debug, Clone, Copy, PartialEq, Eq, Structural)]
pub struct ParseError {}

pub open spec fn spec_is_ws(c: char) -> bool {
    c == ' ' || c == '\t' || c == '\n' || c == '\r'
}

/// The first position at or after `i` holding no whitespace.
pub open spec fn spec_skip_ws(s: Seq<char>, i: int) -> int
    decreases s.len() - i,
{
    if 0 <= i < s.len() && spec_is_ws(s[i]) {
        spec_skip_ws(s, i + 1)
    } else {
        i
    }
}

pub proof fn lemma_skip_ws_bounds(s: Seq<char>, i: int)
    requires
        0 <= i <= s.len(),
    ensures
        i <= spec_skip_ws(s, i) <= s.len(),
    decreases s.len() - i,
{
    if i < s.len() && spec_is_ws(s[i]) {
        lemma_skip_ws_bounds(s, i + 1);
    }
}

/// The character codes a one-character escape inside a string.
pub open spec fn spec_is_escape_code(c: char) -> bool {
    c == '"' || c == '\\' || c == '/' || c == 'n' || c == 't' || c == 'r' || c == 'b' || c == 'f'
}

/// The character an escape code stands for.
pub open spec fn spec_unescape(c: char) -> char {
    if c == 'n' {
        '\n'
    } else if c == 't' {
        '\t'
    } else if c == 'r' {
        '\r'
    } else if c == 'b' {
        '\u{8}'
    } else if c == 'f' {
        '\u{c}'
    } else {
        c
    }
}

/// A character that may stand unescaped inside a string.
pub open spec fn spec_is_plain_string_char(c: char) -> bool {
    c != '"' && c != '\\' && (c as u32) >= 32
}

/// The value of a hexadecimal digit; 16 for any other character.
pub open spec fn spec_hex_val(c: char) -> int {
    let x = c as u32;
    if 48 <= x <= 57 {
        x - 48
    } else if 65 <= x <= 70 {
        x - 55
    } else if 97 <= x <= 102 {
        x - 87
    } else {
        16
    }
}

/// The code the four hexadecimal digits at `i` denote.
pub open spec fn spec_hex4_val(s: Seq<char>, i: int) -> int {
    4096 * spec_hex_val(s[i]) + 256 * spec_hex_val(s[i + 1]) + 16 * spec_hex_val(s[i + 2])
        + spec_hex_val(s[i + 3])
}

/// The code is a Unicode scalar value: not a surrogate, not past the
/// Unicode maximum.
pub open spec fn spec_is_scalar_code(v: int) -> bool {
    0 <= v < 0xD800 || (0xDFFF < v && v <= 0x10FFFF)
}

/// The decoded content of a string whose opening quote stands before `i`,
/// with the position just past its closing quote.
pub open spec fn spec_parse_string_rest(s: Seq<char>, i: int) -> Option<(Seq<char>, int)>
    decreases s.len() - i,
{
    if i < 0 || i >= s.len() {
        None
    } else if s[i] == '"' {
        Some((Seq::empty(), i + 1))
    } else if s[i] == '\\' {
        if i + 1 < s.len() && spec_is_escape_code(s[i + 1]) {
            match spec_parse_string_rest(s, i + 2) {
                Some((t, j)) => Some((seq![spec_unescape(s[i + 1])] + t, j)),
                None => None,
            }
        } else if i + 1 < s.len() && s[i + 1] == 'u' {
            if i + 5 < s.len() && spec_hex_val(s[i + 2]) < 16 && spec_hex_val(s[i + 3]) < 16
                && spec_hex_val(s[i + 4]) < 16 && spec_hex_val(s[i + 5]) < 16
                && spec_is_scalar_code(spec_hex4_val(s, i + 2)) {
                match spec_parse_string_rest(s, i + 6) {
                    Some((t, j)) => Some(
                        (seq![((spec_hex4_val(s, i + 2) as u32) as char)] + t, j),
                    ),
                    None => None,
                }
            } else {
                None
            }
        } else {
            None
        }
    } else if spec_is_plain_string_char(s[i]) {
        match spec_parse_string_rest(s, i + 1) {
            Some((t, j)) => Some((seq![s[i]] + t, j)),
            None => None,
        }
    } else {
        None
    }
}

/// The decoded content of a quoted string starting at `i`, with the
/// position just past its closing quote.
pub open spec fn spec_parse_string(s: Seq<char>, i: int) -> Option<(Seq<char>, int)> {
    if 0 <= i < s.len() && s[i] == '"' {
        spec_parse_string_rest(s, i + 1)
    } else {
        None
    }
}

pub proof fn lemma_parse_string_rest_bounds(s: Seq<char>, i: int)
    ensures
        spec_parse_string_rest(s, i) matches Some((t, j)) ==> i < j <= s.len(),
    decreases s.len() - i,
{
    if 0 <= i < s.len() {
        lemma_parse_string_rest_bounds(s, i + 1);
        if i + 1 < s.len() {
            lemma_parse_string_rest_bounds(s, i + 2);
        }
        if i + 5 < s.len() {
            lemma_parse_string_rest_bounds(s, i + 6);
        }
    }
}

pub proof fn lemma_parse_string_bounds(s: Seq<char>, i: int)
    ensures
        spec_parse_string(s, i) matches Some((t, j)) ==> i + 1 < j <= s.len(),
{
    lemma_parse_string_rest_bounds(s, i + 1);
}

pub open spec fn spec_is_digit(c: char) -> bool {
    48 <= (c as u32) <= 57
}

/// The first position at or after `i` holding no decimal digit.
pub open spec fn spec_skip_digits(s: Seq<char>, i: int) -> int
    decreases s.len() - i,
{
    if 0 <= i < s.len() && spec_is_digit(s[i]) {
        spec_skip_digits(s, i + 1)
    } else {
        i
    }
}

pub proof fn lemma_skip_digits_bounds(s: Seq<char>, i: int)
    requires
        0 <= i <= s.len(),
    ensures
        i <= spec_skip_digits(s, i) <= s.len(),
    decreases s.len() - i,
{
    if i < s.len() && spec_is_digit(s[i]) {
        lemma_skip_digits_bounds(s, i + 1);
    }
}

/// The position just past an optional exponent part at `i` (an `e` or `E`,
/// an optional sign, and at least one digit), or just `i` where none starts.
pub open spec fn spec_parse_exponent(s: Seq<char>, i: int) -> Option<int> {
    if 0 <= i < s.len() && (s[i] == 'e' || s[i] == 'E') {
        let j = if i + 1 < s.len() && (s[i + 1] == '+' || s[i + 1] == '-') {
            i + 2
        } else {
            i + 1
        };
        let k = spec_skip_digits(s, j);
        if k == j {
            None
        } else {
            Some(k)
        }
    } else {
        Some(i)
    }
}

/// The position just past a number starting at `i`: an optional minus sign,
/// at least one digit, an optional fraction and an optional exponent.
pub open spec fn spec_parse_number(s: Seq<char>, i: int) -> Option<int> {
    let j = if 0 <= i < s.len() && s[i] == '-' {
        i + 1
    } else {
        i
    };
    let k = spec_skip_digits(s, j);
    if k == j {
        None
    } else {
        let frac_end = if k < s.len() && s[k] == '.' {
            let d = spec_skip_digits(s, k + 1);
            if d == k + 1 {
                None
            } else {
                Some(d)
            }
        } else {
            Some(k)
        };
        match frac_end {
            None => None,
            Some(m) => spec_parse_exponent(s, m),
        }
    }
}

pub proof fn lemma_parse_number_bounds(s: Seq<char>, i: int)
    requires
        0 <= i <= s.len(),
    ensures
        spec_parse_number(s, i) matches Some(j) ==> i < j <= s.len(),
{
    lemma_skip_digits_bounds(s, i);
    if i < s.len() && s[i] == '-' {
        lemma_skip_digits_bounds(s, i + 1);
    }
    let j = if 0 <= i < s.len() && s[i] == '-' { i + 1 } else { i };
    let k = spec_skip_digits(s, j);
    if j <= k <= s.len() && k != j {
        if k < s.len() && s[k] == '.' {
            lemma_skip_digits_bounds(s, k + 1);
            let d = spec_skip_digits(s, k + 1);
            if d <= s.len() {
                lemma_skip_digits_bounds(s, d);
                if d < s.len() && (s[d] == 'e' || s[d] == 'E') {
                    lemma_skip_digits_bounds(s, d + 1);
                    if d + 2 <= s.len() {
                        lemma_skip_digits_bounds(s, d + 2);
                    }
                }
            }
        } else {
            if k < s.len() && (s[k] == 'e' || s[k] == 'E') {
                lemma_skip_digits_bounds(s, k + 1);
                if k + 2 <= s.len() {
                    lemma_skip_digits_bounds(s, k + 2);
                }
            }
        }
    }
}

/// The position just past the end of a bracketed structure: a scan over
/// the characters from `i`, through `depth` still-open brackets, that
/// passes over strings (honouring escapes) and closes one bracket per `}`
/// or `]`. Unknown members may carry whole nested structures; the scan
/// passes over them without decoding them.
pub open spec fn spec_scan_structure(
    s: Seq<char>,
    i: int,
    depth: int,
    in_string: bool,
    escaped: bool,
) -> Option<int>
    decreases s.len() - i,
{
    if i < 0 || i >= s.len() {
        None
    } else {
        let c = s[i];
        if in_string {
            if escaped {
                spec_scan_structure(s, i + 1, depth, true, false)
            } else if c == '\\' {
                spec_scan_structure(s, i + 1, depth, true, true)
            } else if c == '"' {
                spec_scan_structure(s, i + 1, depth, false, false)
            } else {
                spec_scan_structure(s, i + 1, depth, true, false)
            }
        } else if c == '"' {
            spec_scan_structure(s, i + 1, depth, true, false)
        } else if c == '{' || c == '[' {
            spec_scan_structure(s, i + 1, depth + 1, false, false)
        } else if c == '}' || c == ']' {
            if depth == 1 {
                Some(i + 1)
            } else if depth > 1 {
                spec_scan_structure(s, i + 1, depth - 1, false, false)
            } else {
                None
            }
        } else {
            spec_scan_structure(s, i + 1, depth, false, false)
        }
    }
}

pub proof fn lemma_scan_structure_bounds(s: Seq<char>, i: int, depth: int, st: bool, esc: bool)
    ensures
        spec_scan_structure(s, i, depth, st, esc) matches Some(j) ==> i < j <= s.len(),
    decreases s.len() - i,
{
    if 0 <= i < s.len() {
        lemma_scan_structure_bounds(s, i + 1, depth, true, false);
        lemma_scan_structure_bounds(s, i + 1, depth, true, true);
        lemma_scan_structure_bounds(s, i + 1, depth, false, false);
        lemma_scan_structure_bounds(s, i + 1, depth + 1, false, false);
        lemma_scan_structure_bounds(s, i + 1, depth - 1, false, false);
    }
}

/// The four given characters stand at `i`.
pub open spec fn spec_has_lit4(s: Seq<char>, i: int, c0: char, c1: char, c2: char, c3: char) -> bool {
    0 <= i && i + 4 <= s.len() && s[i] == c0 && s[i + 1] == c1 && s[i + 2] == c2 && s[i + 3] == c3
}

/// The five given characters stand at `i`.
pub open spec fn spec_has_lit5(
    s: Seq<char>,
    i: int,
    c0: char,
    c1: char,
    c2: char,
    c3: char,
    c4: char,
) -> bool {
    0 <= i && i + 5 <= s.len() && s[i] == c0 && s[i + 1] == c1 && s[i + 2] == c2 && s[i + 3] == c3
        && s[i + 4] == c4
}

/// The scalar value starting at `i`, with the position just past it.
pub open spec fn spec_parse_value(s: Seq<char>, i: int) -> Option<(ScalarV, int)> {
    if i < 0 || i >= s.len() {
        None
    } else if s[i] == '"' {
        match spec_parse_string(s, i) {
            Some((t, j)) => Some((ScalarV::Str(t), j)),
            None => None,
        }
    } else if s[i] == '-' || spec_is_digit(s[i]) {
        match spec_parse_number(s, i) {
            Some(j) => Some((ScalarV::Other, j)),
            None => None,
        }
    } else if spec_has_lit4(s, i, 't', 'r', 'u', 'e') {
        Some((ScalarV::Other, i + 4))
    } else if spec_has_lit5(s, i, 'f', 'a', 'l', 's', 'e') {
        Some((ScalarV::Other, i + 5))
    } else if spec_has_lit4(s, i, 'n', 'u', 'l', 'l') {
        Some((ScalarV::Other, i + 4))
    } else if s[i] == '{' || s[i] == '[' {
        match spec_scan_structure(s, i + 1, 1, false, false) {
            Some(j) => Some((ScalarV::Other, j)),
            None => None,
        }
    } else {
        None
    }
}

pub proof fn lemma_parse_value_bounds(s: Seq<char>, i: int)
    requires
        0 <= i <= s.len(),
    ensures
        spec_parse_value(s, i) matches Some((v, j)) ==> i < j <= s.len(),
{
    lemma_parse_string_bounds(s, i);
    lemma_parse_number_bounds(s, i);
    lemma_scan_structure_bounds(s, i + 1, 1, false, false);
}

fn is_ws(c: char) -> (r: bool)
    ensures
        r == spec_is_ws(c),
{
    c == ' ' || c == '\t' || c == '\n' || c == '\r'
}

fn skip_ws(s: &Vec<char>, i: usize) -> (r: usize)
    requires
        i <= s.len(),
    ensures
        r as int == spec_skip_ws(s@, i as int),
        i <= r <= s.len(),
    decreases s@.len() - i,
{
    if i < s.len() && is_ws(s[i]) {
        skip_ws(s, i + 1)
    } else {
        i
    }
}

fn is_escape_code(c: char) -> (r: bool)
    ensures
        r == spec_is_escape_code(c),
{
    c == '"' || c == '\\' || c == '/' || c == 'n' || c == 't' || c == 'r' || c == 'b' || c == 'f'
}

fn unescape(c: char) -> (r: char)
    ensures
        r == spec_unescape(c),
{
    if c == 'n' {
        '\n'
    } else if c == 't' {
        '\t'
    } else if c == 'r' {
        '\r'
    } else if c == 'b' {
        '\u{8}'
    } else if c == 'f' {
        '\u{c}'
    } else {
        c
    }
}

fn hex_val(c: char) -> (r: u32)
    ensures
        r as int == spec_hex_val(c),
{
    let x = c as u32;
    if 48 <= x && x <= 57 {
        x - 48
    } else if 65 <= x && x <= 70 {
        x - 55
    } else if 97 <= x && x <= 102 {
        x - 87
    } else {
        16
    }
}

/// Relies on `char::from_u32`: it returns the character of a Unicode
/// scalar value, and `None` exactly for surrogate code points and values
/// past the Unicode maximum.
#[verifier::external_body]
fn char_from_code(x: u32) -> (r: Option<char>)
    ensures
        r is Some <==> spec_is_scalar_code(x as int),
        r matches Some(c) ==> c as u32 == x,
{
    char::from_u32(x)
}

fn parse_string_rest(s: &Vec<char>, i: usize) -> (r: Option<(Vec<char>, usize)>)
    requires
        i <= s.len(),
    ensures
        match r {
            Some((t, j)) => spec_parse_string_rest(s@, i as int) == Some((t@, j as int)) && i < j
                <= s.len(),
            None => spec_parse_string_rest(s@, i as int) is None,
        },
    decreases s@.len() - i,
{
    if i >= s.len() {
        return None;
    }
    let c = s[i];
    if c == '"' {
        let t: Vec<char> = Vec::new();
        proof {
            assert(t@ =~= Seq::<char>::empty());
        }
        Some((t, i + 1))
    } else if c == '\\' {
        if i + 1 < s.len() && is_escape_code(s[i + 1]) {
            let e = unescape(s[i + 1]);
            match parse_string_rest(s, i + 2) {
                Some((tail, j)) => {
                    let ghost tail_view = tail@;
                    let mut t = tail;
                    t.insert(0, e);
                    proof {
                        assert(t@ =~= seq![spec_unescape(s@[i as int + 1])] + tail_view);
                    }
                    Some((t, j))
                },
                None => None,
            }
        } else if i + 1 < s.len() && s[i + 1] == 'u' {
            if s.len() - i >= 6 {
                let h0 = hex_val(s[i + 2]);
                let h1 = hex_val(s[i + 3]);
                let h2 = hex_val(s[i + 4]);
                let h3 = hex_val(s[i + 5]);
                if h0 < 16 && h1 < 16 && h2 < 16 && h3 < 16 {
                    let v: u32 = 4096 * h0 + 256 * h1 + 16 * h2 + h3;
                    assert(v as int == spec_hex4_val(s@, i as int + 2));
                    match char_from_code(v) {
                        Some(decoded) => {
                            proof {
                                vstd::utf8::char_u32_cast(decoded, v);
                            }
                            match parse_string_rest(s, i + 6) {
                                Some((tail, j)) => {
                                    let ghost tail_view = tail@;
                                    let mut t = tail;
                                    t.insert(0, decoded);
                                    proof {
                                        assert(t@ =~= seq![
                                            ((spec_hex4_val(s@, i as int + 2) as u32) as char),
                                        ] + tail_view);
                                    }
                                    Some((t, j))
                                },
                                None => None,
                            }
                        },
                        None => None,
                    }
                } else {
                    None
                }
            } else {
                None
            }
        } else {
            None
        }
    } else if (c as u32) >= 32 {
        match parse_string_rest(s, i + 1) {
            Some((tail, j)) => {
                let ghost tail_view = tail@;
                let mut t = tail;
                t.insert(0, c);
                proof {
                    assert(t@ =~= seq![s@[i as int]] + tail_view);
                }
                Some((t, j))
            },
            None => None,
        }
    } else {
        None
    }
}

fn parse_string(s: &Vec<char>, i: usize) -> (r: Option<(Vec<char>, usize)>)
    requires
        i <= s.len(),
    ensures
        match r {
            Some((t, j)) => spec_parse_string(s@, i as int) == Some((t@, j as int)) && i < j
                <= s.len(),
            None => spec_parse_string(s@, i as int) is None,
        },
{
    if i < s.len() && s[i] == '"' {
        parse_string_rest(s, i + 1)
    } else {
        None
    }
}

fn is_digit(c: char) -> (r: bool)
    ensures
        r == spec_is_digit(c),
{
    let x = c as u32;
    48 <= x && x <= 57
}

fn skip_digits(s: &Vec<char>, i: usize) -> (r: usize)
    requires
        i <= s.len(),
    ensures
        r as int == spec_skip_digits(s@, i as int),
        i <= r <= s.len(),
    decreases s@.len() - i,
{
    if i < s.len() && is_digit(s[i]) {
        skip_digits(s, i + 1)
    } else {
        i
    }
}

fn parse_exponent(s: &Vec<char>, i: usize) -> (r: Option<usize>)
    requires
        i <= s.len(),
    ensures
        match r {
            Some(j) => spec_parse_exponent(s@, i as int) == Some(j as int) && i <= j <= s.len(),
            None => spec_parse_exponent(s@, i as int) is None,
        },
{
    if i < s.len() && (s[i] == 'e' || s[i] == 'E') {
        let j = if i + 1 < s.len() && (s[i + 1] == '+' || s[i + 1] == '-') {
            i + 2
        } else {
            i + 1
        };
        let k = skip_digits(s, j);
        if k == j {
            None
        } else {
            Some(k)
        }
    } else {
        Some(i)
    }
}

fn parse_number(s: &Vec<char>, i: usize) -> (r: Option<usize>)
    requires
        i <= s.len(),
    ensures
        match r {
            Some(j) => spec_parse_number(s@, i as int) == Some(j as int) && i < j <= s.len(),
            None => spec_parse_number(s@, i as int) is None,
        },
{
    let j = if i < s.len() && s[i] == '-' {
        i + 1
    } else {
        i
    };
    let k = skip_digits(s, j);
    if k == j {
        return None;
    }
    let frac_end = if k < s.len() && s[k] == '.' {
        let d = skip_digits(s, k + 1);
        if d == k + 1 {
            None
        } else {
            Some(d)
        }
    } else {
        Some(k)
    };
    match frac_end {
        None => None,
        Some(m) => parse_exponent(s, m),
    }
}

fn has_lit4(s: &Vec<char>, i: usize, c0: char, c1: char, c2: char, c3: char) -> (r: bool)
    requires
        i <= s.len(),
    ensures
        r == spec_has_lit4(s@, i as int, c0, c1, c2, c3),
{
    s.len() - i >= 4 && s[i] == c0 && s[i + 1] == c1 && s[i + 2] == c2 && s[i + 3] == c3
}

fn has_lit5(s: &Vec<char>, i: usize, c0: char, c1: char, c2: char, c3: char, c4: char) -> (r: bool)
    requires
        i <= s.len(),
    ensures
        r == spec_has_lit5(s@, i as int, c0, c1, c2, c3, c4),
{
    s.len() - i >= 5 && s[i] == c0 && s[i + 1] == c1 && s[i + 2] == c2 && s[i + 3] == c3 && s[i + 4]
        == c4
}

fn parse_value(s: &Vec<char>, i: usize) -> (r: Option<(JsonScalar, usize)>)
    requires
        i <= s.len(),
    ensures
        match r {
            Some((v, j)) => spec_parse_value(s@, i as int) == Some((v@, j as int)) && i < j
                <= s.len(),
            None => spec_parse_value(s@, i as int) is None,
        },
{
    if i >= s.len() {
        return None;
    }
    let c = s[i];
    if c == '"' {
        match parse_string(s, i) {
            Some((t, j)) => Some((JsonScalar::Str(t), j)),
            None => None,
        }
    } else if c == '-' || is_digit(c) {
        match parse_number(s, i) {
            Some(j) => Some((JsonScalar::Other, j)),
            None => None,
        }
    } else if has_lit4(s, i, 't', 'r', 'u', 'e') {
        Some((JsonScalar::Other, i + 4))
    } else if has_lit5(s, i, 'f', 'a', 'l', 's', 'e') {
        Some((JsonScalar::Other, i + 5))
    } else if has_lit4(s, i, 'n', 'u', 'l', 'l') {
        Some((JsonScalar::Other, i + 4))
    } else if c == '{' || c == '[' {
        match scan_structure(s, i + 1, 1, false, false) {
            Some(j) => Some((JsonScalar::Other, j)),
            None => None,
        }
    } else {
        None
    }
}

fn scan_structure(s: &Vec<char>, i: usize, depth: usize, in_string: bool, escaped: bool) -> (r:
    Option<usize>)
    requires
        i <= s.len(),
        depth <= i,
    ensures
        match r {
            Some(j) => spec_scan_structure(s@, i as int, depth as int, in_string, escaped)
                == Some(j as int) && i < j <= s.len(),
            None => spec_scan_structure(s@, i as int, depth as int, in_string, escaped) is None,
        },
    decreases s@.len() - i,
{
    if i >= s.len() {
        return None;
    }
    let c = s[i];
    if in_string {
        if escaped {
            scan_structure(s, i + 1, depth, true, false)
        } else if c == '\\' {
            scan_structure(s, i + 1, depth, true, true)
        } else if c == '"' {
            scan_structure(s, i + 1, depth, false, false)
        } else {
            scan_structure(s, i + 1, depth, true, false)
        }
    } else if c == '"' {
        scan_structure(s, i + 1, depth, true, false)
    } else if c == '{' || c == '[' {
        scan_structure(s, i + 1, depth + 1, false, false)
    } else if c == '}' || c == ']' {
        if depth == 1 {
            Some(i + 1)
        } else if depth > 1 {
            scan_structure(s, i + 1, depth - 1, false, false)
        } else {
            None
        }
    } else {
        scan_structure(s, i + 1, depth, false, false)
    }
}

/// The members of an object whose `{` has already been passed, starting at
/// the first key's opening quote at `i`, together with the position just
/// past the object's closing `}`.
pub open spec fn spec_parse_members(s: Seq<char>, i: int) -> Option<(Seq<FieldV>, int)>
    decreases s.len() - i,
    when 0 <= i <= s.len()
    via spec_parse_members_dec
{
    match spec_parse_string(s, i) {
        None => None,
        Some((key, j1)) => {
            let j2 = spec_skip_ws(s, j1);
            if j2 < s.len() && s[j2] == ':' {
                let j3 = spec_skip_ws(s, j2 + 1);
                match spec_parse_value(s, j3) {
                    None => None,
                    Some((v, j4)) => {
                        let j5 = spec_skip_ws(s, j4);
                        if j5 < s.len() && s[j5] == ',' {
                            let j6 = spec_skip_ws(s, j5 + 1);
                            match spec_parse_members(s, j6) {
                                None => None,
                                Some((rest, j7)) => Some(
                                    (seq![FieldV { key, value: v }] + rest, j7),
                                ),
                            }
                        } else if j5 < s.len() && s[j5] == '}' {
                            Some((seq![FieldV { key, value: v }], j5 + 1))
                        } else {
                            None
                        }
                    },
                }
            } else {
                None
            }
        },
    }
}

#[via_fn]
proof fn spec_parse_members_dec(s: Seq<char>, i: int) {
    lemma_parse_string_bounds(s, i);
    match spec_parse_string(s, i) {
        None => {},
        Some((key, j1)) => {
            lemma_skip_ws_bounds(s, j1);
            let j2 = spec_skip_ws(s, j1);
            if j2 < s.len() && s[j2] == ':' {
                lemma_skip_ws_bounds(s, j2 + 1);
                let j3 = spec_skip_ws(s, j2 + 1);
                lemma_parse_value_bounds(s, j3);
                match spec_parse_value(s, j3) {
                    None => {},
                    Some((v, j4)) => {
                        lemma_skip_ws_bounds(s, j4);
                        let j5 = spec_skip_ws(s, j4);
                        if j5 < s.len() && s[j5] == ',' {
                            lemma_skip_ws_bounds(s, j5 + 1);
                        }
                    },
                }
            }
        },
    }
}

/// The members of the object starting at `i`, with the position just past
/// its closing `}`.
pub open spec fn spec_parse_object(s: Seq<char>, i: int) -> Option<(Seq<FieldV>, int)> {
    if 0 <= i < s.len() && s[i] == '{' {
        let j = spec_skip_ws(s, i + 1);
        if j < s.len() && s[j] == '}' {
            Some((Seq::empty(), j + 1))
        } else {
            spec_parse_members(s, j)
        }
    } else {
        None
    }
}

/// The members of a whole line: one object, possibly surrounded by
/// whitespace, with nothing after it.
pub open spec fn spec_parse_fields(s: Seq<char>) -> Option<Seq<FieldV>> {
    let i = spec_skip_ws(s, 0);
    match spec_parse_object(s, i) {
        None => None,
        Some((fields, j)) => {
            if spec_skip_ws(s, j) == s.len() {
                Some(fields)
            } else {
                None
            }
        },
    }
}

/// The value of the first member carrying `key`, if any.
pub open spec fn spec_lookup(fields: Seq<FieldV>, key: Seq<char>) -> Option<ScalarV>
    decreases fields.len(),
{
    if fields.len() == 0 {
        None
    } else if fields[0].key == key {
        Some(fields[0].value)
    } else {
        spec_lookup(fields.drop_first(), key)
    }
}

/// The event a member list denotes: the `type` member selects the variant,
/// `event` gives the phase, a test record also needs `name` and may carry
/// `stdout`; every recognized member must be a string, and members neither
/// variant recognizes are ignored.
pub open spec fn spec_event_of_fields(fields: Seq<FieldV>) -> Option<EventV> {
    match spec_lookup(fields, "type"@) {
        Some(ScalarV::Str(tag)) => {
            if tag == "suite"@ {
                match spec_lookup(fields, "event"@) {
                    Some(ScalarV::Str(phase)) => Some(EventV::Suite { phase }),
                    _ => None,
                }
            } else if tag == "test"@ {
                match (spec_lookup(fields, "event"@), spec_lookup(fields, "name"@)) {
                    (Some(ScalarV::Str(phase)), Some(ScalarV::Str(name))) => {
                        match spec_lookup(fields, "stdout"@) {
                            None => Some(EventV::Test { phase, name, stdout: None }),
                            Some(ScalarV::Str(out)) => Some(
                                EventV::Test { phase, name, stdout: Some(out) },
                            ),
                            Some(ScalarV::Other) => None,
                        }
                    },
                    _ => None,
                }
            } else {
                None
            }
        },
        _ => None,
    }
}

/// The event one line denotes, if the line is well-formed.
pub open spec fn spec_parse_line(s: Seq<char>) -> Option<EventV> {
    match spec_parse_fields(s) {
        None => None,
        Some(fields) => spec_event_of_fields(fields),
    }
}

fn parse_members(s: &Vec<char>, i: usize) -> (r: Option<(Vec<JsonField>, usize)>)
    requires
        i <= s.len(),
    ensures
        match r {
            Some((fs, j)) => spec_parse_members(s@, i as int) == Some((fs.deep_view(), j as int))
                && i < j <= s.len(),
            None => spec_parse_members(s@, i as int) is None,
        },
    decreases s@.len() - i,
{
    match parse_string(s, i) {
        None => None,
        Some((key, j1)) => {
            let j2 = skip_ws(s, j1);
            if j2 < s.len() && s[j2] == ':' {
                let j3 = skip_ws(s, j2 + 1);
                match parse_value(s, j3) {
                    None => None,
                    Some((v, j4)) => {
                        let j5 = skip_ws(s, j4);
                        if j5 < s.len() && s[j5] == ',' {
                            let j6 = skip_ws(s, j5 + 1);
                            match parse_members(s, j6) {
                                None => None,
                                Some((rest, j7)) => {
                                    let ghost rest_view = rest@;
                                    let ghost rest_dv = rest.deep_view();
                                    let f = JsonField { key, value: v };
                                    let ghost fv = f.deep_view();
                                    let mut fs = rest;
                                    fs.insert(0, f);
                                    proof {
                                        assert(fs@ =~= seq![f] + rest_view);
                                        assert forall|k: int|
                                            0 <= k < fs.deep_view().len() implies fs.deep_view()[k]
                                            == (seq![fv] + rest_dv)[k] by {
                                            if k > 0 {
                                                assert(fs@[k] == rest_view[k - 1]);
                                            }
                                        }
                                        assert(fs.deep_view() =~= seq![fv] + rest_dv);
                                    }
                                    Some((fs, j7))
                                },
                            }
                        } else if j5 < s.len() && s[j5] == '}' {
                            let f = JsonField { key, value: v };
                            let ghost fv = f.deep_view();
                            let mut fs: Vec<JsonField> = Vec::new();
                            fs.push(f);
                            proof {
                                assert(fs@ =~= seq![f]);
                                assert(fs.deep_view() =~= seq![fv]);
                            }
                            Some((fs, j5 + 1))
                        } else {
                            None
                        }
                    },
                }
            } else {
                None
            }
        },
    }
}

fn parse_object(s: &Vec<char>, i: usize) -> (r: Option<(Vec<JsonField>, usize)>)
    requires
        i <= s.len(),
    ensures
        match r {
            Some((fs, j)) => spec_parse_object(s@, i as int) == Some((fs.deep_view(), j as int))
                && i < j <= s.len(),
            None => spec_parse_object(s@, i as int) is None,
        },
{
    if i < s.len() && s[i] == '{' {
        let j = skip_ws(s, i + 1);
        if j < s.len() && s[j] == '}' {
            let fs: Vec<JsonField> = Vec::new();
            proof {
                assert(fs.deep_view() =~= Seq::<FieldV>::empty());
            }
            Some((fs, j + 1))
        } else {
            parse_members(s, j)
        }
    } else {
        None
    }
}

fn parse_fields_of(s: &Vec<char>) -> (r: Option<Vec<JsonField>>)
    ensures
        match r {
            Some(fs) => spec_parse_fields(s@) == Some(fs.deep_view()),
            None => spec_parse_fields(s@) is None,
        },
{
    let i = skip_ws(s, 0);
    match parse_object(s, i) {
        None => None,
        Some((fs, j)) => {
            let k = skip_ws(s, j);
            if k == s.len() {
                Some(fs)
            } else {
                None
            }
        },
    }
}

fn lookup_idx(fields: &Vec<JsonField>, key: &str) -> (r: Option<usize>)
    ensures
        match r {
            Some(k) => k < fields.len() && spec_lookup(fields.deep_view(), key@) == Some(
                fields.deep_view()[k as int].value,
            ),
            None => spec_lookup(fields.deep_view(), key@) is None,
        },
{
    let ghost dv = fields.deep_view();
    proof {
        assert(dv.skip(0) =~= dv);
    }
    let n = fields.len();
    let mut i: usize = 0;
    while i < n
        invariant
            i <= n,
            n == fields.len(),
            dv == fields.deep_view(),
            spec_lookup(dv, key@) == spec_lookup(dv.skip(i as int), key@),
        decreases n - i,
    {
        proof {
            assert(dv.skip(i as int)[0] == dv[i as int]);
        }
        if chars_eq_str(&fields[i].key, key) {
            return Some(i);
        }
        proof {
            assert(dv.skip(i as int).drop_first() =~= dv.skip(i as int + 1));
        }
        i = i + 1;
    }
    proof {
        assert(dv.skip(n as int).len() == 0);
    }
    None
}

fn event_of_fields(fields: &Vec<JsonField>) -> (r: Option<Event>)
    ensures
        match r {
            Some(e) => spec_event_of_fields(fields.deep_view()) == Some(e@),
            None => spec_event_of_fields(fields.deep_view()) is None,
        },
{
    let tag_idx = match lookup_idx(fields, "type") {
        Some(k) => k,
        None => {
            return None;
        },
    };
    let tag = match &fields[tag_idx].value {
        JsonScalar::Str(t) => t,
        JsonScalar::Other => {
            return None;
        },
    };
    if chars_eq_str(tag, "suite") {
        match lookup_idx(fields, "event") {
            Some(ke) => match &fields[ke].value {
                JsonScalar::Str(ph) => Some(Event::Suite { phase: chars_to_string(ph) }),
                JsonScalar::Other => None,
            },
            None => None,
        }
    } else if chars_eq_str(tag, "test") {
        let phase = match lookup_idx(fields, "event") {
            Some(ke) => match &fields[ke].value {
                JsonScalar::Str(ph) => chars_to_string(ph),
                JsonScalar::Other => {
                    return None;
                },
            },
            None => {
                return None;
            },
        };
        let name = match lookup_idx(fields, "name") {
            Some(kn) => match &fields[kn].value {
                JsonScalar::Str(nm) => chars_to_string(nm),
                JsonScalar::Other => {
                    return None;
                },
            },
            None => {
                return None;
            },
        };
        let stdout = match lookup_idx(fields, "stdout") {
            Some(ks) => match &fields[ks].value {
                JsonScalar::Str(so) => Some(chars_to_string(so)),
                JsonScalar::Other => {
                    return None;
                },
            },
            None => None,
        };
        Some(Event::Test { phase, name, stdout })
    } else {
        None
    }
}

/// Decode one line of structured output. An error marks a malformed line,
/// which callers treat as fatal.
pub fn parse_line(line: &str) -> (r: Result<Event, ParseError>)
    ensures
        match r {
            Ok(e) => spec_parse_line(line@) == Some(e@),
            Err(_) => spec_parse_line(line@) is None,
        },
{
    let chars = str_to_chars(line);
    match parse_fields_of(&chars) {
        None => Err(ParseError {}),
        Some(fields) => match event_of_fields(&fields) {
            Some(e) => Ok(e),
            None => Err(ParseError {}),
        },
    }
}

} // verus!
