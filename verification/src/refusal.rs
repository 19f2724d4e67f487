//! What is wrong with the text of a question file, and where.
//!
//! A file is read from front to back, and the first thing that is wrong is what is reported:
//! a key that a set does not have, a key that stands twice, a value of the wrong type, a
//! field that is missing. Text that is no JSON is left to whoever reads it as JSON.

use vstd::prelude::*;

use crate::codec;
use crate::codec::{debug_text, json_reading};
use crate::json::{Json, JsonView};
use crate::number::{Number, NumberView};
use crate::text;
use crate::text::decimal_of;

verus! {

/// How many bytes a character takes.
pub open spec fn width(c: char) -> nat {
    if (c as u32) < 0x80 {
        1
    } else if (c as u32) < 0x800 {
        2
    } else if (c as u32) < 0x10000 {
        3
    } else {
        4
    }
}

/// The line on which a text ends, the first being 1.
pub open spec fn line_of(s: Seq<char>) -> nat
    decreases s.len(),
{
    if s.len() == 0 {
        1
    } else if s.last() == '\n' {
        line_of(s.drop_last()) + 1
    } else {
        line_of(s.drop_last())
    }
}

/// How many bytes the last line of a text takes.
pub open spec fn column_of(s: Seq<char>) -> nat
    decreases s.len(),
{
    if s.len() == 0 || s.last() == '\n' {
        0
    } else {
        column_of(s.drop_last()) + width(s.last())
    }
}

/// Words with a place in a text: behind its first `i` characters, and `more` bytes further.
pub open spec fn placed(words: Seq<char>, s: Seq<char>, i: int, more: nat) -> Seq<char> {
    words + " at line "@ + decimal_of(line_of(s.take(i))) + " column "@ + decimal_of(column_of(s.take(i)) + more)
}

fn char_width(c: char) -> (r: u128)
    ensures
        r == width(c),
        r <= 4,
{
    let n: u32 = c as u32;
    if n < 0x80 {
        1
    } else if n < 0x800 {
        2
    } else if n < 0x10000 {
        3
    } else {
        4
    }
}

fn place(words: &str, t: &Vec<char>, i: usize, more: u64) -> (r: String)
    requires
        i <= t@.len(),
        more <= 1,
    ensures
        r@ == placed(words@, t@, i as int, more as nat),
{
    let mut line: u128 = 1;
    let mut column: u128 = 0;
    let mut k: usize = 0;
    proof {
        assert(t@.take(0).len() == 0);
    }
    while k < i
        invariant
            k <= i <= t@.len(),
            line == line_of(t@.take(k as int)),
            column == column_of(t@.take(k as int)),
            line <= k + 1,
            column <= 4 * k,
        decreases i - k,
    {
        proof {
            assert(t@.take(k + 1).drop_last() =~= t@.take(k as int));
            assert(t@.take(k + 1).last() == t@[k as int]);
        }
        if t[k] == '\n' {
            line += 1;
            column = 0;
        } else {
            column += char_width(t[k]);
        }
        k += 1;
    }
    text::cat5(
        words,
        " at line ",
        text::long_decimal(line).as_str(),
        " column ",
        text::long_decimal(column + more as u128).as_str(),
    )
}

/// White space between the tokens of JSON.
pub open spec fn is_blank(c: char) -> bool {
    c == ' ' || c == '\n' || c == '\t' || c == '\r'
}

/// The character at a place.
pub open spec fn at(s: Seq<char>, p: int, c: char) -> bool {
    0 <= p < s.len() && s[p] == c
}

/// A decimal digit at a place.
pub open spec fn digit_at(s: Seq<char>, p: int) -> bool {
    0 <= p < s.len() && '0' <= s[p] && s[p] <= '9'
}

/// The first place from `p` on that is no white space.
pub open spec fn skip(s: Seq<char>, p: int) -> int
    decreases s.len() - p,
{
    if 0 <= p < s.len() && is_blank(s[p]) {
        skip(s, p + 1)
    } else {
        p
    }
}

/// The first place from `p` on that is no digit.
pub open spec fn digits_end(s: Seq<char>, p: int) -> int
    decreases s.len() - p,
{
    if digit_at(s, p) {
        digits_end(s, p + 1)
    } else {
        p
    }
}

/// The place behind the quotation mark that ends a string which goes on at `p`.
pub open spec fn string_end(s: Seq<char>, p: int) -> Option<int>
    decreases s.len() + 1 - p,
{
    if p < 0 || p >= s.len() {
        None
    } else if s[p] == '"' {
        Some(p + 1)
    } else if s[p] == '\\' {
        string_end(s, p + 2)
    } else {
        string_end(s, p + 1)
    }
}

/// The place behind a number that starts at `p`.
pub open spec fn number_end(s: Seq<char>, p: int) -> int {
    let whole = digits_end(
        s,
        if at(s, p, '-') {
            p + 1
        } else {
            p
        },
    );
    let point = if at(s, whole, '.') {
        digits_end(s, whole + 1)
    } else {
        whole
    };
    if at(s, point, 'e') || at(s, point, 'E') {
        digits_end(
            s,
            if at(s, point + 1, '+') || at(s, point + 1, '-') {
                point + 2
            } else {
                point + 1
            },
        )
    } else {
        point
    }
}

/// The place behind an array or object that goes on at `p`, so many brackets deep.
pub open spec fn nested_end(s: Seq<char>, p: int, depth: nat, quoted: bool) -> Option<int>
    decreases s.len() + 1 - p,
{
    if p < 0 || p >= s.len() {
        None
    } else if quoted {
        if s[p] == '"' {
            nested_end(s, p + 1, depth, false)
        } else if s[p] == '\\' {
            nested_end(s, p + 2, depth, true)
        } else {
            nested_end(s, p + 1, depth, true)
        }
    } else if s[p] == '"' {
        nested_end(s, p + 1, depth, true)
    } else if s[p] == '{' || s[p] == '[' {
        nested_end(s, p + 1, depth + 1, false)
    } else if s[p] == '}' || s[p] == ']' {
        if depth <= 1 {
            Some(p + 1)
        } else {
            nested_end(s, p + 1, (depth - 1) as nat, false)
        }
    } else {
        nested_end(s, p + 1, depth, false)
    }
}

/// A word at a place.
pub open spec fn word_at(s: Seq<char>, p: int, word: Seq<char>) -> bool {
    0 <= p && p + word.len() <= s.len() && s.subrange(p, p + word.len()) == word
}

/// The place behind a value that starts at `p`.
pub open spec fn value_end(s: Seq<char>, p: int) -> Option<int> {
    if at(s, p, '"') {
        string_end(s, p + 1)
    } else if at(s, p, '{') || at(s, p, '[') {
        nested_end(s, p, 0, false)
    } else if at(s, p, '-') || digit_at(s, p) {
        Some(number_end(s, p))
    } else if word_at(s, p, "null"@) {
        Some(p + 4)
    } else if word_at(s, p, "true"@) {
        Some(p + 4)
    } else if word_at(s, p, "false"@) {
        Some(p + 5)
    } else {
        None
    }
}

/// The value that starts at `p` inside an array or object, and the place behind it; nothing
/// where there is none.
pub open spec fn value_at(s: Seq<char>, p: int) -> Option<(JsonView, int)> {
    match value_end(s, p) {
        Some(e) => match json_reading("["@ + s.subrange(p, e) + "]"@) {
            Ok(JsonView::Array(v)) => if v.len() == 1 {
                Some((v[0], e))
            } else {
                None
            },
            _ => None,
        },
        None => None,
    }
}

/// What is skipped is not beyond the end.
pub proof fn lemma_skip(s: Seq<char>, p: int)
    requires
        0 <= p <= s.len(),
    ensures
        p <= skip(s, p) <= s.len(),
    decreases s.len() - p,
{
    if p < s.len() && is_blank(s[p]) {
        lemma_skip(s, p + 1);
    }
}

proof fn lemma_digits_end(s: Seq<char>, p: int)
    requires
        0 <= p <= s.len(),
    ensures
        p <= digits_end(s, p) <= s.len(),
        digit_at(s, p) ==> p < digits_end(s, p),
    decreases s.len() - p,
{
    if digit_at(s, p) {
        lemma_digits_end(s, p + 1);
    }
}

proof fn lemma_string_end(s: Seq<char>, p: int)
    requires
        0 <= p,
    ensures
        string_end(s, p) matches Some(e) ==> p < e <= s.len(),
    decreases s.len() + 1 - p,
{
    if p < s.len() {
        if s[p] == '\\' {
            lemma_string_end(s, p + 2);
        } else if s[p] != '"' {
            lemma_string_end(s, p + 1);
        }
    }
}

proof fn lemma_nested_end(s: Seq<char>, p: int, depth: nat, quoted: bool)
    requires
        0 <= p,
    ensures
        nested_end(s, p, depth, quoted) matches Some(e) ==> p < e <= s.len(),
    decreases s.len() + 1 - p,
{
    if p < s.len() {
        lemma_nested_end(s, p + 1, depth, quoted);
        lemma_nested_end(s, p + 1, depth, !quoted);
        lemma_nested_end(s, p + 2, depth, true);
        lemma_nested_end(s, p + 1, depth + 1, false);
        if depth > 0 {
            lemma_nested_end(s, p + 1, (depth - 1) as nat, false);
        }
    }
}

proof fn lemma_number_end(s: Seq<char>, p: int)
    requires
        at(s, p, '-') || digit_at(s, p),
    ensures
        p < number_end(s, p) <= s.len(),
{
    let start = if at(s, p, '-') {
        p + 1
    } else {
        p
    };
    lemma_digits_end(s, start);
    let whole = digits_end(s, start);
    if at(s, whole, '.') {
        lemma_digits_end(s, whole + 1);
    }
    let point = if at(s, whole, '.') {
        digits_end(s, whole + 1)
    } else {
        whole
    };
    if at(s, point, 'e') || at(s, point, 'E') {
        lemma_digits_end(s, point + 1);
        if at(s, point + 1, '+') || at(s, point + 1, '-') {
            lemma_digits_end(s, point + 2);
        }
    }
}

/// A value takes at least a character and ends in the text.
pub proof fn lemma_value_end(s: Seq<char>, p: int)
    requires
        0 <= p,
    ensures
        value_end(s, p) matches Some(e) ==> p < e <= s.len(),
{
    lemma_string_end(s, p + 1);
    lemma_nested_end(s, p, 0, false);
    if at(s, p, '-') || digit_at(s, p) {
        lemma_number_end(s, p);
    }
    reveal_strlit("null");
    reveal_strlit("true");
    reveal_strlit("false");
    assert("null"@.len() == 4 && "true"@.len() == 4 && "false"@.len() == 5);
}

fn skipped(t: &Vec<char>, p: usize) -> (r: usize)
    requires
        p <= t@.len(),
    ensures
        r == skip(t@, p as int),
        p <= r <= t@.len(),
{
    let mut i: usize = p;
    while i < t.len() && (t[i] == ' ' || t[i] == '\n' || t[i] == '\t' || t[i] == '\r')
        invariant
            p <= i <= t@.len(),
            skip(t@, p as int) == skip(t@, i as int),
        decreases t@.len() - i,
    {
        i += 1;
    }
    i
}

fn is_at(t: &Vec<char>, p: usize, c: char) -> (r: bool)
    ensures
        r == at(t@, p as int, c),
        r ==> p < usize::MAX,
{
    p < t.len() && t[p] == c
}

fn is_digit_at(t: &Vec<char>, p: usize) -> (r: bool)
    ensures
        r == digit_at(t@, p as int),
        r ==> p < usize::MAX,
{
    p < t.len() && '0' <= t[p] && t[p] <= '9'
}

fn behind_digits(t: &Vec<char>, p: usize) -> (r: usize)
    requires
        p <= t@.len(),
    ensures
        r == digits_end(t@, p as int),
        p <= r <= t@.len(),
{
    let mut i: usize = p;
    while is_digit_at(t, i)
        invariant
            p <= i <= t@.len(),
            digits_end(t@, p as int) == digits_end(t@, i as int),
        decreases t@.len() - i,
    {
        i += 1;
    }
    i
}

fn behind_number(t: &Vec<char>, p: usize) -> (r: usize)
    requires
        at(t@, p as int, '-') || digit_at(t@, p as int),
    ensures
        r == number_end(t@, p as int),
{
    let whole = if is_at(t, p, '-') {
        behind_digits(t, p + 1)
    } else {
        behind_digits(t, p)
    };
    let point = if is_at(t, whole, '.') {
        behind_digits(t, whole + 1)
    } else {
        whole
    };
    if is_at(t, point, 'e') || is_at(t, point, 'E') {
        if is_at(t, point + 1, '+') || is_at(t, point + 1, '-') {
            behind_digits(t, point + 2)
        } else {
            behind_digits(t, point + 1)
        }
    } else {
        point
    }
}

/// A place that may be there, as a number.
pub open spec fn opt_place(p: Option<usize>) -> Option<int> {
    match p {
        Some(p) => Some(p as int),
        None => None,
    }
}

fn behind_string(t: &Vec<char>, p: usize) -> (r: Option<usize>)
    requires
        p <= t@.len(),
    ensures
        opt_place(r) == string_end(t@, p as int),
{
    let mut i: usize = p;
    while i < t.len()
        invariant
            p <= i <= t@.len(),
            string_end(t@, p as int) == string_end(t@, i as int),
        decreases t@.len() - i,
    {
        if t[i] == '"' {
            return Some(i + 1);
        }
        if t[i] == '\\' {
            if i + 1 == t.len() {
                assert(string_end(t@, i + 2) is None);
                return None;
            }
            i += 2;
        } else {
            i += 1;
        }
    }
    None
}

fn behind_nested(t: &Vec<char>, p: usize) -> (r: Option<usize>)
    requires
        p <= t@.len(),
    ensures
        opt_place(r) == nested_end(t@, p as int, 0, false),
{
    let mut i: usize = p;
    let mut depth: usize = 0;
    let mut quoted = false;
    while i < t.len()
        invariant
            p <= i <= t@.len(),
            depth <= i,
            nested_end(t@, p as int, 0, false) == nested_end(t@, i as int, depth as nat, quoted),
        decreases t@.len() - i,
    {
        let c = t[i];
        if quoted {
            if c == '"' {
                quoted = false;
                i += 1;
            } else if c == '\\' {
                if i + 1 == t.len() {
                    assert(nested_end(t@, i + 2, depth as nat, true) is None);
                    return None;
                }
                i += 2;
            } else {
                i += 1;
            }
        } else {
            if c == '"' {
                quoted = true;
            } else if c == '{' || c == '[' {
                depth += 1;
            } else if c == '}' || c == ']' {
                if depth <= 1 {
                    return Some(i + 1);
                }
                depth -= 1;
            }
            i += 1;
        }
    }
    None
}

fn is_word_at(raw: &str, t: &Vec<char>, p: usize, word: &str, len: usize) -> (r: bool)
    requires
        t@ == raw@,
        p <= t@.len(),
        len == word@.len(),
    ensures
        r == word_at(t@, p as int, word@),
        r ==> p + len <= usize::MAX,
{
    t.len() - p >= len && text::same(raw.substring_char(p, p + len), word)
}

fn behind_value(raw: &str, t: &Vec<char>, p: usize) -> (r: Option<usize>)
    requires
        t@ == raw@,
        p <= t@.len(),
    ensures
        opt_place(r) == value_end(t@, p as int),
{
    proof {
        reveal_strlit("null");
        reveal_strlit("true");
        reveal_strlit("false");
        assert("null"@.len() == 4 && "true"@.len() == 4 && "false"@.len() == 5);
    }
    if is_at(t, p, '"') {
        behind_string(t, p + 1)
    } else if is_at(t, p, '{') || is_at(t, p, '[') {
        behind_nested(t, p)
    } else if is_at(t, p, '-') || is_digit_at(t, p) {
        Some(behind_number(t, p))
    } else if is_word_at(raw, t, p, "null", 4) {
        Some(p + 4)
    } else if is_word_at(raw, t, p, "true", 4) {
        Some(p + 4)
    } else if is_word_at(raw, t, p, "false", 5) {
        Some(p + 5)
    } else {
        None
    }
}

fn read_value_at(raw: &str, t: &Vec<char>, p: usize) -> (r: Option<(Json, usize)>)
    requires
        t@ == raw@,
        p <= t@.len(),
    ensures
        match r {
            Some(v) => value_at(t@, p as int) == Some((v.0@, v.1 as int)) && p < v.1 <= t@.len(),
            None => value_at(t@, p as int) is None,
        },
{
    proof {
        lemma_value_end(t@, p as int);
    }
    match behind_value(raw, t, p) {
        Some(e) => {
            let inside = text::cat3("[", raw.substring_char(p, e), "]");
            match Json::parse(inside.as_str()) {
                Ok(j) => match j.as_array() {
                    Some(v) => if v.len() == 1 {
                        Some((v[0].clone(), e))
                    } else {
                        None
                    },
                    None => None,
                },
                Err(_) => None,
            }
        },
        None => None,
    }
}

/// A number was written as a whole one: it is displayed otherwise than its double.
pub open spec fn is_integer(n: NumberView) -> bool {
    n.text != n.real.text
}

/// What a value is, in a word or two, and where it is short by itself.
pub open spec fn found(j: JsonView) -> Seq<char> {
    match j {
        JsonView::Null => "null"@,
        JsonView::Bool(b) => if b {
            "boolean `true`"@
        } else {
            "boolean `false`"@
        },
        JsonView::Number(n) => if is_integer(n) {
            "integer `"@ + n.text + "`"@
        } else {
            "floating point `"@ + n.text + "`"@
        },
        JsonView::Text(s) => "string "@ + debug_text(s),
        JsonView::Array(_) => "sequence"@,
        JsonView::Object(_) => "map"@,
    }
}

/// What is said of a value of the wrong type.
pub open spec fn wrong_type(j: JsonView, expected: Seq<char>) -> Seq<char> {
    "invalid type: "@ + found(j) + ", expected "@ + expected
}

/// What is said of a value that is no whole number in range.
pub open spec fn wrong_number(j: JsonView, expected: Seq<char>) -> Seq<char> {
    if j matches JsonView::Number(n) && is_integer(n) {
        "invalid value: "@ + found(j) + ", expected "@ + expected
    } else {
        wrong_type(j, expected)
    }
}

fn integer(n: &Number) -> (r: bool)
    ensures
        r == is_integer(n@),
{
    !text::same(n.text.as_str(), n.real.text.as_str())
}

fn found_text(j: &Json) -> (r: String)
    ensures
        r@ == found(j@),
{
    match j {
        Json::Null => "null".to_owned(),
        Json::Bool(b) => if *b {
            "boolean `true`".to_owned()
        } else {
            "boolean `false`".to_owned()
        },
        Json::Number(n) => if integer(n) {
            text::cat3("integer `", n.text.as_str(), "`")
        } else {
            text::cat3("floating point `", n.text.as_str(), "`")
        },
        Json::Text(s) => text::cat("string ", codec::debugged(s.as_str()).as_str()),
        Json::Array(_) => "sequence".to_owned(),
        Json::Object(_) => "map".to_owned(),
    }
}

/// Says that a value has the wrong type.
pub fn wrong_type_text(j: &Json, expected: &str) -> (r: String)
    ensures
        r@ == wrong_type(j@, expected@),
{
    text::cat4("invalid type: ", found_text(j).as_str(), ", expected ", expected)
}

/// Says that a value is no whole number in range.
pub fn wrong_number_text(j: &Json, expected: &str) -> (r: String)
    ensures
        r@ == wrong_number(j@, expected@),
{
    if let Json::Number(n) = j {
        if integer(n) {
            return text::cat4("invalid value: ", found_text(j).as_str(), ", expected ", expected);
        }
    }
    wrong_type_text(j, expected)
}

/// A field of a question set.
#[derive(Debug, Clone, Copy, PartialEq, Eq, Structural)]
pub enum Field {
    Version,
    Model,
    MaxChars,
    Questions,
}

/// The field with a key.
pub open spec fn field_of(key: Seq<char>) -> Option<Field> {
    if key == "version"@ {
        Some(Field::Version)
    } else if key == "model"@ {
        Some(Field::Model)
    } else if key == "max_chars"@ {
        Some(Field::MaxChars)
    } else if key == "questions"@ {
        Some(Field::Questions)
    } else {
        None
    }
}

/// Finds the field with a key.
pub fn field_with(key: &str) -> (r: Option<Field>)
    ensures
        r == field_of(key@),
{
    if text::same(key, "version") {
        Some(Field::Version)
    } else if text::same(key, "model") {
        Some(Field::Model)
    } else if text::same(key, "max_chars") {
        Some(Field::MaxChars)
    } else if text::same(key, "questions") {
        Some(Field::Questions)
    } else {
        None
    }
}

/// The fields that a file has shown so far.
#[derive(Debug, Clone, Copy)]
pub struct Seen {
    pub version: bool,
    pub model: bool,
    pub max_chars: bool,
    pub questions: bool,
}

impl Seen {
    /// A field has been shown.
    pub open spec fn has(self, f: Field) -> bool {
        match f {
            Field::Version => self.version,
            Field::Model => self.model,
            Field::MaxChars => self.max_chars,
            Field::Questions => self.questions,
        }
    }

    /// One more field has been shown.
    pub open spec fn with(self, f: Field) -> Seen {
        match f {
            Field::Version => Seen { version: true, ..self },
            Field::Model => Seen { model: true, ..self },
            Field::MaxChars => Seen { max_chars: true, ..self },
            Field::Questions => Seen { questions: true, ..self },
        }
    }

    fn shows(&self, f: Field) -> (r: bool)
        ensures
            r == self.has(f),
    {
        match f {
            Field::Version => self.version,
            Field::Model => self.model,
            Field::MaxChars => self.max_chars,
            Field::Questions => self.questions,
        }
    }

    fn and(self, f: Field) -> (r: Seen)
        ensures
            r == self.with(f),
    {
        match f {
            Field::Version => Seen { version: true, ..self },
            Field::Model => Seen { model: true, ..self },
            Field::MaxChars => Seen { max_chars: true, ..self },
            Field::Questions => Seen { questions: true, ..self },
        }
    }
}

/// How a stretch of text was taken: it is in order up to a place, it is refused, or it is no
/// JSON.
pub enum StepView {
    Next(int),
    Refused(Seq<char>),
    Broken,
}

/// How a stretch of text was taken.
#[derive(Debug)]
pub enum Step {
    Next(usize),
    Refused(String),
    Broken,
}

impl View for Step {
    type V = StepView;

    open spec fn view(&self) -> StepView {
        match self {
            Step::Next(p) => StepView::Next(*p as int),
            Step::Refused(m) => StepView::Refused(m@),
            Step::Broken => StepView::Broken,
        }
    }
}

/// A value at `p` that has the wrong type, whatever it is. An array or object is refused
/// where it starts, anything else behind it.
pub open spec fn unexpected(s: Seq<char>, p: int, expected: Seq<char>) -> StepView {
    if at(s, p, '[') {
        StepView::Refused(placed(wrong_type(JsonView::Array(Seq::empty()), expected), s, p, 0))
    } else if at(s, p, '{') {
        StepView::Refused(placed(wrong_type(JsonView::Object(Seq::empty()), expected), s, p, 0))
    } else {
        match value_at(s, p) {
            Some(v) => StepView::Refused(placed(wrong_type(v.0, expected), s, v.1, 0)),
            None => StepView::Broken,
        }
    }
}

/// A value at `p` that can be anything of its kind.
pub open spec fn accepted(s: Seq<char>, p: int) -> StepView {
    match value_at(s, p) {
        Some(v) => StepView::Next(v.1),
        None => StepView::Broken,
    }
}

/// A number at `p` that must be whole and at most `most`.
pub open spec fn counted(s: Seq<char>, p: int, most: u64, expected: Seq<char>) -> StepView {
    match value_at(s, p) {
        Some(v) => match crate::json::whole_of(Some(v.0)) {
            Some(n) => if n <= most {
                StepView::Next(v.1)
            } else {
                StepView::Refused(placed(wrong_number(v.0, expected), s, v.1, 0))
            },
            None => StepView::Refused(placed(wrong_number(v.0, expected), s, v.1, 0)),
        },
        None => StepView::Broken,
    }
}

/// The value of a field at `p`.
pub open spec fn field_step(f: Field, s: Seq<char>, p: int) -> StepView {
    let number = at(s, p, '-') || digit_at(s, p);
    match f {
        Field::Version => if number {
            counted(s, p, u32::MAX as u64, "u32"@)
        } else {
            unexpected(s, p, "u32"@)
        },
        Field::Model => if at(s, p, 'n') || at(s, p, '"') {
            accepted(s, p)
        } else {
            unexpected(s, p, "a string"@)
        },
        Field::MaxChars => if at(s, p, 'n') {
            accepted(s, p)
        } else if number {
            counted(s, p, usize::MAX as u64, "usize"@)
        } else {
            unexpected(s, p, "usize"@)
        },
        Field::Questions => if at(s, p, '{') {
            accepted(s, p)
        } else {
            unexpected(s, p, "a map"@)
        },
    }
}

/// Past a field there is less text left.
pub proof fn lemma_field_step(f: Field, s: Seq<char>, p: int)
    requires
        0 <= p,
    ensures
        field_step(f, s, p) matches StepView::Next(e) ==> p < e <= s.len(),
{
    lemma_value_end(s, p);
}

fn take_unexpected(raw: &str, t: &Vec<char>, p: usize, expected: &str) -> (r: Step)
    requires
        t@ == raw@,
        p <= t@.len(),
    ensures
        r@ == unexpected(t@, p as int, expected@),
{
    if is_at(t, p, '[') {
        Step::Refused(place(text::cat4("invalid type: ", "sequence", ", expected ", expected).as_str(), t, p, 0))
    } else if is_at(t, p, '{') {
        Step::Refused(place(text::cat4("invalid type: ", "map", ", expected ", expected).as_str(), t, p, 0))
    } else {
        match read_value_at(raw, t, p) {
            Some((v, e)) => Step::Refused(place(wrong_type_text(&v, expected).as_str(), t, e, 0)),
            None => Step::Broken,
        }
    }
}

fn take_accepted(raw: &str, t: &Vec<char>, p: usize) -> (r: Step)
    requires
        t@ == raw@,
        p <= t@.len(),
    ensures
        r@ == accepted(t@, p as int),
{
    match read_value_at(raw, t, p) {
        Some((_, e)) => Step::Next(e),
        None => Step::Broken,
    }
}

fn take_counted(raw: &str, t: &Vec<char>, p: usize, most: u64, expected: &str) -> (r: Step)
    requires
        t@ == raw@,
        p <= t@.len(),
    ensures
        r@ == counted(t@, p as int, most, expected@),
{
    match read_value_at(raw, t, p) {
        Some((v, e)) => {
            if let Some(n) = v.as_u64() {
                if n <= most {
                    return Step::Next(e);
                }
            }
            Step::Refused(place(wrong_number_text(&v, expected).as_str(), t, e, 0))
        },
        None => Step::Broken,
    }
}

fn take_field(f: Field, raw: &str, t: &Vec<char>, p: usize) -> (r: Step)
    requires
        t@ == raw@,
        p <= t@.len(),
    ensures
        r@ == field_step(f, t@, p as int),
{
    let number = is_at(t, p, '-') || is_digit_at(t, p);
    match f {
        Field::Version => if number {
            take_counted(raw, t, p, 0xffff_ffff, "u32")
        } else {
            take_unexpected(raw, t, p, "u32")
        },
        Field::Model => if is_at(t, p, 'n') || is_at(t, p, '"') {
            take_accepted(raw, t, p)
        } else {
            take_unexpected(raw, t, p, "a string")
        },
        Field::MaxChars => if is_at(t, p, 'n') {
            take_accepted(raw, t, p)
        } else if number {
            take_counted(raw, t, p, usize::MAX as u64, "usize")
        } else {
            take_unexpected(raw, t, p, "usize")
        },
        Field::Questions => if is_at(t, p, '{') {
            take_accepted(raw, t, p)
        } else {
            take_unexpected(raw, t, p, "a map")
        },
    }
}

/// What is said of a key that a set does not have.
pub open spec fn unknown_field(key: Seq<char>) -> Seq<char> {
    "unknown field `"@ + key + "`, expected one of `version`, `model`, `max_chars`, `questions`"@
}

/// Says that a set does not have a key.
pub fn unknown_field_text(key: &str) -> (r: String)
    ensures
        r@ == unknown_field(key@),
{
    text::cat3("unknown field `", key, "`, expected one of `version`, `model`, `max_chars`, `questions`")
}

/// The place at which a key that ends at `e` is refused: before what follows it, or behind
/// the brace that does.
pub open spec fn key_place(s: Seq<char>, e: int) -> int {
    let next = skip(s, e);
    if at(s, next, '}') {
        next + 1
    } else {
        next
    }
}

/// The key whose quotation mark stands at `p`, and the place behind it.
pub open spec fn key_at(s: Seq<char>, p: int) -> Option<(Seq<char>, int)> {
    if at(s, p, '"') {
        match value_at(s, p) {
            Some((JsonView::Text(key), e)) => Some((key, e)),
            _ => None,
        }
    } else {
        None
    }
}

/// The entries of a set from `p` on.
pub open spec fn entries(s: Seq<char>, p: int, first: bool, seen: Seen) -> StepView
    decreases s.len() - p,
{
    let q = skip(s, p);
    let k = if first {
        q
    } else {
        skip(s, q + 1)
    };
    if p < 0 || p > s.len() {
        StepView::Broken
    } else if at(s, q, '}') {
        if seen.questions {
            StepView::Next(q + 1)
        } else {
            StepView::Refused(placed("missing field `questions`"@, s, q + 1, 0))
        }
    } else if !first && !at(s, q, ',') {
        StepView::Broken
    } else {
        match key_at(s, k) {
            None => StepView::Broken,
            Some((key, e)) => match field_of(key) {
                None => StepView::Refused(placed(unknown_field(key), s, key_place(s, e), 0)),
                Some(f) => if seen.has(f) {
                    StepView::Refused(placed("duplicate field `"@ + key + "`"@, s, key_place(s, e), 0))
                } else if !at(s, skip(s, e), ':') {
                    StepView::Broken
                } else {
                    match field_step(f, s, skip(s, skip(s, e) + 1)) {
                        StepView::Next(next) => {
                            proof {
                                lemma_skip(s, p);
                                if !first {
                                    lemma_skip(s, q + 1);
                                }
                                lemma_value_end(s, k);
                                lemma_skip(s, e);
                                lemma_skip(s, skip(s, e) + 1);
                                lemma_field_step(f, s, skip(s, skip(s, e) + 1));
                            }
                            entries(s, next, false, seen.with(f))
                        },
                        other => other,
                    }
                },
            },
        }
    }
}

fn read_key_at(raw: &str, t: &Vec<char>, p: usize) -> (r: Option<(String, usize)>)
    requires
        t@ == raw@,
        p <= t@.len(),
    ensures
        match r {
            Some(k) => key_at(t@, p as int) == Some((k.0@, k.1 as int)) && p < k.1 <= t@.len(),
            None => key_at(t@, p as int) is None,
        },
{
    if !is_at(t, p, '"') {
        return None;
    }
    match read_value_at(raw, t, p) {
        Some((Json::Text(key), e)) => Some((key, e)),
        _ => None,
    }
}

fn place_of_key(t: &Vec<char>, e: usize) -> (r: usize)
    requires
        e <= t@.len(),
    ensures
        r == key_place(t@, e as int),
        r <= t@.len(),
{
    let next = skipped(t, e);
    if is_at(t, next, '}') {
        next + 1
    } else {
        next
    }
}

fn take_entries(raw: &str, t: &Vec<char>, start: usize) -> (r: Step)
    requires
        t@ == raw@,
        start <= t@.len(),
    ensures
        r@ == entries(
            t@,
            start as int,
            true,
            (Seen { version: false, model: false, max_chars: false, questions: false }),
        ),
{
    let mut p: usize = start;
    let mut first = true;
    let mut seen = Seen { version: false, model: false, max_chars: false, questions: false };
    let ghost goal = entries(t@, start as int, true, seen);
    loop
        invariant
            t@ == raw@,
            p <= t@.len(),
            goal == entries(t@, p as int, first, seen),
            goal == entries(
                t@,
                start as int,
                true,
                (Seen { version: false, model: false, max_chars: false, questions: false }),
            ),
        decreases t@.len() - p,
    {
        let q = skipped(t, p);
        if is_at(t, q, '}') {
            if seen.questions {
                return Step::Next(q + 1);
            }
            return Step::Refused(place("missing field `questions`", t, q + 1, 0));
        }
        if !first && !is_at(t, q, ',') {
            return Step::Broken;
        }
        let k = if first {
            q
        } else {
            skipped(t, q + 1)
        };
        let (key, e) = match read_key_at(raw, t, k) {
            None => return Step::Broken,
            Some(key) => key,
        };
        let f = match field_with(key.as_str()) {
            None => {
                let at = place_of_key(t, e);
                return Step::Refused(place(unknown_field_text(key.as_str()).as_str(), t, at, 0));
            },
            Some(f) => f,
        };
        if seen.shows(f) {
            let at = place_of_key(t, e);
            return Step::Refused(place(text::cat3("duplicate field `", key.as_str(), "`").as_str(), t, at, 0));
        }
        let colon = skipped(t, e);
        if !is_at(t, colon, ':') {
            return Step::Broken;
        }
        let v = skipped(t, colon + 1);
        proof {
            lemma_field_step(f, t@, v as int);
        }
        match take_field(f, raw, t, v) {
            Step::Next(next) => {
                p = next;
                first = false;
                seen = seen.and(f);
            },
            other => return other,
        }
    }
}

/// The field at a position of a set that is written as an array.
pub open spec fn nth_field(i: int) -> Field {
    if i == 0 {
        Field::Version
    } else if i == 1 {
        Field::Model
    } else if i == 2 {
        Field::MaxChars
    } else {
        Field::Questions
    }
}

/// What follows the last field of a set that is written as an array.
pub open spec fn array_end(s: Seq<char>, p: int) -> StepView {
    let q = skip(s, p);
    let after = skip(s, q + 1);
    if q >= s.len() {
        StepView::Broken
    } else if s[q] == ']' {
        StepView::Next(q + 1)
    } else if s[q] == ',' {
        if at(s, after, ']') {
            StepView::Broken
        } else {
            StepView::Refused(
                placed(
                    "trailing characters"@,
                    s,
                    after,
                    if after < s.len() {
                        1
                    } else {
                        0
                    },
                ),
            )
        }
    } else {
        StepView::Refused(placed("trailing characters"@, s, q, 1))
    }
}

/// The fields of a set that is written as an array, from the one at position `i` on.
pub open spec fn items(s: Seq<char>, p: int, i: int) -> StepView
    decreases 4 - i,
{
    let q = skip(s, p);
    let v = if i == 0 {
        q
    } else {
        skip(s, q + 1)
    };
    if i >= 4 {
        array_end(s, p)
    } else if at(s, q, ']') {
        StepView::Refused(
            placed("invalid length 3, expected struct QuestionSet with 4 elements"@, s, q + 1, 0),
        )
    } else if i > 0 && (!at(s, q, ',') || at(s, v, ']')) {
        StepView::Broken
    } else {
        match field_step(nth_field(i), s, v) {
            StepView::Next(e) => items(s, e, i + 1),
            other => other,
        }
    }
}

fn take_array_end(t: &Vec<char>, p: usize) -> (r: Step)
    requires
        p <= t@.len(),
    ensures
        r@ == array_end(t@, p as int),
{
    let q = skipped(t, p);
    if q >= t.len() {
        Step::Broken
    } else if t[q] == ']' {
        Step::Next(q + 1)
    } else if t[q] == ',' {
        let after = skipped(t, q + 1);
        if is_at(t, after, ']') {
            Step::Broken
        } else if after < t.len() {
            Step::Refused(place("trailing characters", t, after, 1))
        } else {
            Step::Refused(place("trailing characters", t, after, 0))
        }
    } else {
        Step::Refused(place("trailing characters", t, q, 1))
    }
}

fn take_items(raw: &str, t: &Vec<char>, start: usize) -> (r: Step)
    requires
        t@ == raw@,
        start <= t@.len(),
    ensures
        r@ == items(t@, start as int, 0),
{
    let mut p: usize = start;
    let mut i: usize = 0;
    while i < 4
        invariant
            t@ == raw@,
            p <= t@.len(),
            i <= 4,
            items(t@, start as int, 0) == items(t@, p as int, i as int),
        decreases 4 - i,
    {
        let q = skipped(t, p);
        if is_at(t, q, ']') {
            return Step::Refused(
                place("invalid length 3, expected struct QuestionSet with 4 elements", t, q + 1, 0),
            );
        }
        let v = if i == 0 {
            q
        } else {
            if !is_at(t, q, ',') {
                return Step::Broken;
            }
            let v = skipped(t, q + 1);
            if is_at(t, v, ']') {
                return Step::Broken;
            }
            v
        };
        let f = if i == 0 {
            Field::Version
        } else if i == 1 {
            Field::Model
        } else if i == 2 {
            Field::MaxChars
        } else {
            Field::Questions
        };
        proof {
            lemma_field_step(f, t@, v as int);
        }
        match take_field(f, raw, t, v) {
            Step::Next(e) => {
                p = e;
                i += 1;
            },
            other => return other,
        }
    }
    take_array_end(t, p)
}

/// How the text of a question file is taken, up to the end of the set.
pub open spec fn set_step(s: Seq<char>) -> StepView {
    let p = skip(s, 0);
    if at(s, p, '{') {
        entries(s, p + 1, true, (Seen { version: false, model: false, max_chars: false, questions: false }))
    } else if at(s, p, '[') {
        items(s, p + 1, 0)
    } else {
        unexpected(s, p, "struct QuestionSet"@)
    }
}

/// What is wrong with the text of a question file before anything that is no JSON: the words
/// and the place, a line and how many bytes into it.
pub open spec fn refusal_of(s: Seq<char>) -> Option<Seq<char>> {
    match set_step(s) {
        StepView::Refused(m) => Some(m),
        _ => None,
    }
}

/// What is wrong with the text of a question file before anything that is no JSON.
pub fn refusal(raw: &str) -> (r: Option<String>)
    ensures
        match r {
            Some(m) => refusal_of(raw@) == Some(m@),
            None => refusal_of(raw@) is None,
        },
{
    let t = text::chars_of(raw);
    let p = skipped(&t, 0);
    let step = if is_at(&t, p, '{') {
        take_entries(raw, &t, p + 1)
    } else if is_at(&t, p, '[') {
        take_items(raw, &t, p + 1)
    } else {
        take_unexpected(raw, &t, p, "struct QuestionSet")
    };
    match step {
        Step::Refused(m) => Some(m),
        _ => None,
    }
}

}
