//! What is said of a question file that is refused, and where.

use vstd::prelude::*;

use crate::json::JsonView;
use crate::laws::judging::begins_with;
use crate::refusal::{
    column_of, entries, field_of, field_step, found, line_of, placed, refusal_of, skip, unknown_field, value_at, width,
    wrong_number, wrong_type, Field, Seen, StepView,
};
use crate::text::decimal_of;

verus! {

/// A line break starts a new line, on which no byte is taken; any other character stays on its
/// line and takes as many bytes as it has in UTF-8.
pub proof fn lemma_lines_and_columns(s: Seq<char>, c: char)
    ensures
        line_of(Seq::empty()) == 1,
        column_of(Seq::empty()) == 0,
        c == '\n' ==> line_of(s.push(c)) == line_of(s) + 1 && column_of(s.push(c)) == 0,
        c != '\n' ==> line_of(s.push(c)) == line_of(s) && column_of(s.push(c)) == column_of(s) + width(c),
        c as u32 <= 0x7f ==> width(c) == 1,
        0x80 <= c as u32 <= 0x7ff ==> width(c) == 2,
        0x800 <= c as u32 <= 0xffff ==> width(c) == 3,
        0x10000 <= c as u32 ==> width(c) == 4,
{
    assert(s.push(c).drop_last() =~= s);
    assert(s.push(c).last() == c);
}

/// A refusal gives its words and then the line and the column of the place.
pub proof fn lemma_a_refusal_has_a_place(words: Seq<char>, s: Seq<char>, i: int)
    requires
        0 <= i <= s.len(),
    ensures
        placed(words, s, i, 0) == words + " at line "@ + decimal_of(line_of(s.subrange(0, i))) + " column "@ + decimal_of(
            column_of(s.subrange(0, i)),
        ),
{
    assert(s.subrange(0, i) =~= s.take(i));
}

/// White space is passed over up to the first character that is none.
pub proof fn lemma_white_space_is_passed_over(s: Seq<char>, p: int)
    requires
        0 <= p <= s.len(),
    ensures
        p <= skip(s, p) <= s.len(),
        forall|k: int|
            p <= k < skip(s, p) ==> {
                let c = #[trigger] s[k];
                c == ' ' || c == '\n' || c == '\t' || c == '\r'
            },
        skip(s, p) < s.len() ==> {
            let c = s[skip(s, p)];
            c != ' ' && c != '\n' && c != '\t' && c != '\r'
        },
    decreases s.len() - p,
{
    if p < s.len() && (s[p] == ' ' || s[p] == '\n' || s[p] == '\t' || s[p] == '\r') {
        lemma_white_space_is_passed_over(s, p + 1);
    }
}

/// A field is known by its key, and there are four.
pub proof fn lemma_the_four_fields(key: Seq<char>)
    ensures
        field_of(key) is Some <==> key == "version"@ || key == "model"@ || key == "max_chars"@ || key == "questions"@,
        field_of("version"@) == Some(Field::Version),
        field_of("model"@) == Some(Field::Model),
        field_of("max_chars"@) == Some(Field::MaxChars),
        field_of("questions"@) == Some(Field::Questions),
{
    reveal_strlit("version");
    reveal_strlit("model");
    reveal_strlit("max_chars");
    reveal_strlit("questions");
    assert("version"@.len() == 7 && "model"@.len() == 5 && "max_chars"@.len() == 9 && "questions"@.len() == 9);
    assert("max_chars"@[0] != "questions"@[0]);
}

/// Whether a value is what a field takes.
pub open spec fn suits(f: Field, v: JsonView) -> bool {
    match f {
        Field::Version => v matches JsonView::Number(n) && (n.whole matches Some(w) && w <= 0xffff_ffff),
        Field::Model => v is Text || v is Null,
        Field::MaxChars => v is Null || (v matches JsonView::Number(n) && (n.whole matches Some(w) && w <= usize::MAX)),
        Field::Questions => v is Object,
    }
}

/// A value at a place is written as what it is.
pub open spec fn looks_like(s: Seq<char>, p: int, v: JsonView) -> bool {
    0 <= p < s.len() && match v {
        JsonView::Null => s[p] == 'n',
        JsonView::Bool(b) => s[p] == 't' || s[p] == 'f',
        JsonView::Number(_) => s[p] == '-' || ('0' <= s[p] && s[p] <= '9'),
        JsonView::Text(_) => s[p] == '"',
        JsonView::Array(_) => s[p] == '[',
        JsonView::Object(_) => s[p] == '{',
    }
}

proof fn lemma_begins(m: Seq<char>, head: Seq<char>, rest: Seq<char>)
    requires
        m == head + rest,
    ensures
        begins_with(m, head),
{
}

proof fn lemma_placed(words: Seq<char>, head: Seq<char>, rest: Seq<char>, s: Seq<char>, i: int, more: nat)
    requires
        words == head + rest,
    ensures
        begins_with(placed(words, s, i, more), head),
{
    let m = placed(words, s, i, more);
    let tail = rest + " at line "@ + decimal_of(line_of(s.take(i))) + " column "@ + decimal_of(
        column_of(s.take(i)) + more,
    );
    assert(m =~= head + tail);
    lemma_begins(m, head, tail);
}

/// Words that say what a value is.
pub open spec fn blames_the_value(m: Seq<char>) -> bool {
    begins_with(m, "invalid type: "@) || begins_with(m, "invalid value: "@)
}

proof fn lemma_blamed(v: JsonView, expected: Seq<char>, s: Seq<char>, i: int)
    ensures
        blames_the_value(placed(wrong_type(v, expected), s, i, 0)),
        blames_the_value(placed(wrong_number(v, expected), s, i, 0)),
{
    let rest = found(v) + ", expected "@ + expected;
    assert(wrong_type(v, expected) =~= "invalid type: "@ + rest);
    lemma_placed(wrong_type(v, expected), "invalid type: "@, rest, s, i, 0);
    if wrong_number(v, expected) != wrong_type(v, expected) {
        assert(wrong_number(v, expected) =~= "invalid value: "@ + rest);
        lemma_placed(wrong_number(v, expected), "invalid value: "@, rest, s, i, 0);
    }
}

/// A value that suits its field is passed over, and reading goes on right behind it. Any other
/// value is refused for being what it is.
pub proof fn lemma_a_field_takes_what_suits_it(f: Field, s: Seq<char>, p: int, v: JsonView, e: int)
    requires
        value_at(s, p) == Some((v, e)),
        looks_like(s, p, v),
    ensures
        suits(f, v) ==> field_step(f, s, p) == StepView::Next(e),
        !suits(f, v) ==> (field_step(f, s, p) matches StepView::Refused(m) && blames_the_value(m)),
{
    let expected = match f {
        Field::Version => "u32"@,
        Field::Model => "a string"@,
        Field::MaxChars => "usize"@,
        Field::Questions => "a map"@,
    };
    lemma_blamed(v, expected, s, e);
    lemma_blamed(JsonView::Array(Seq::empty()), expected, s, p);
    lemma_blamed(JsonView::Object(Seq::empty()), expected, s, p);
}

/// What is said of a value names what it is and what was expected.
pub proof fn lemma_what_is_said_of_a_value(v: JsonView, expected: Seq<char>)
    ensures
        wrong_type(v, expected) == "invalid type: "@ + found(v) + ", expected "@ + expected,
        v is Null ==> found(v) == "null"@,
        v is Array ==> found(v) == "sequence"@,
        v is Object ==> found(v) == "map"@,
        v == JsonView::Bool(true) ==> found(v) == "boolean `true`"@,
        v == JsonView::Bool(false) ==> found(v) == "boolean `false`"@,
        v matches JsonView::Text(t) ==> found(v) == "string "@ + crate::codec::debug_text(t),
        v matches JsonView::Number(n) ==> if n.text != n.real.text {
            found(v) == "integer `"@ + n.text + "`"@ && wrong_number(v, expected) == "invalid value: "@ + found(v)
                + ", expected "@ + expected
        } else {
            found(v) == "floating point `"@ + n.text + "`"@ && wrong_number(v, expected) == wrong_type(v, expected)
        },
        !(v is Number) ==> wrong_number(v, expected) == wrong_type(v, expected),
{
}

/// A key that a set does not have is named in the refusal.
pub proof fn lemma_an_unknown_key_is_named(key: Seq<char>)
    ensures
        begins_with(unknown_field(key), "unknown field `"@ + key + "`"@),
{
    reveal_strlit("`");
    reveal_strlit("`, expected one of `version`, `model`, `max_chars`, `questions`");
    let head = "unknown field `"@ + key + "`"@;
    let m = unknown_field(key);
    assert forall|i: int| 0 <= i < head.len() implies #[trigger] m[i] == head[i] by {
        assert(m.take(head.len() as int) =~= head);
        assert(m.take(head.len() as int)[i] == m[i]);
    }
}

/// A field that has been shown stays shown, and showing one shows no other.
pub proof fn lemma_what_has_been_shown(seen: Seen, f: Field, g: Field)
    ensures
        seen.with(f).has(g) <==> seen.has(g) || f == g,
{
}

/// Where the next key of a set stands: behind the white space, and behind a comma and white
/// space from the second on.
pub open spec fn next_key(s: Seq<char>, p: int, first: bool) -> int {
    if first {
        skip(s, p)
    } else {
        skip(s, skip(s, p) + 1)
    }
}

/// The entries of a set are taken one by one. A key that a set does not have is refused and
/// named, and so is one that has been shown; any other is followed by a colon and its value, and
/// what comes behind that is taken in the same way, with one more field shown.
pub proof fn lemma_entries_one_by_one(s: Seq<char>, p: int, first: bool, seen: Seen, key: Seq<char>, e: int)
    requires
        0 <= p <= s.len(),
        skip(s, p) < s.len(),
        s[skip(s, p)] != '}',
        first || s[skip(s, p)] == ',',
        0 <= next_key(s, p, first) < s.len(),
        s[next_key(s, p, first)] == '"',
        value_at(s, next_key(s, p, first)) == Some((JsonView::Text(key), e)),
    ensures
        field_of(key) is None ==> (entries(s, p, first, seen) matches StepView::Refused(m) && begins_with(
            m,
            "unknown field `"@ + key + "`"@,
        )),
        field_of(key) matches Some(f) ==> {
            let v = skip(s, skip(s, e) + 1);
            &&& seen.has(f) ==> (entries(s, p, first, seen) matches StepView::Refused(m) && begins_with(
                m,
                "duplicate field `"@ + key + "`"@,
            ))
            &&& !seen.has(f) && 0 <= skip(s, e) < s.len() && s[skip(s, e)] == ':' ==> match field_step(f, s, v) {
                StepView::Next(n) => entries(s, p, first, seen) == entries(s, n, false, seen.with(f)),
                StepView::Refused(m) => entries(s, p, first, seen) == StepView::Refused(m),
                StepView::Broken => entries(s, p, first, seen) is Broken,
            }
        },
{
    crate::refusal::lemma_skip(s, p);
    let at = crate::refusal::key_place(s, e);
    match field_of(key) {
        None => {
            reveal_strlit("`");
            reveal_strlit("`, expected one of `version`, `model`, `max_chars`, `questions`");
            let all = "`, expected one of `version`, `model`, `max_chars`, `questions`"@;
            let head = "unknown field `"@ + key + "`"@;
            let rest = all.subrange(1, all.len() as int);
            assert(unknown_field(key) =~= head + rest);
            lemma_placed(unknown_field(key), head, rest, s, at, 0);
        },
        Some(f) => {
            let words = "duplicate field `"@ + key + "`"@;
            let none = Seq::<char>::empty();
            assert(words =~= words + none);
            lemma_placed(words, words, none, s, at, 0);
        },
    }
}

/// A set that ends is in order exactly if its questions have been shown; else it is refused for
/// that field, right behind the brace that ends it.
pub proof fn lemma_a_set_needs_questions(s: Seq<char>, p: int, first: bool, seen: Seen)
    requires
        0 <= p <= s.len(),
        skip(s, p) < s.len(),
        s[skip(s, p)] == '}',
    ensures
        seen.has(Field::Questions) ==> entries(s, p, first, seen) == StepView::Next(skip(s, p) + 1),
        !seen.has(Field::Questions) ==> entries(s, p, first, seen) == StepView::Refused(
            placed("missing field `questions`"@, s, skip(s, p) + 1, 0),
        ),
{
    crate::refusal::lemma_skip(s, p);
}

/// A file that begins with a brace is refused exactly where its entries are, none shown before.
pub proof fn lemma_a_file_is_refused_for_its_entries(s: Seq<char>)
    requires
        skip(s, 0) < s.len(),
        s[skip(s, 0)] == '{',
    ensures
        ({
            let none = Seen { version: false, model: false, max_chars: false, questions: false };
            match entries(s, skip(s, 0) + 1, true, none) {
                StepView::Refused(m) => refusal_of(s) == Some(m),
                _ => refusal_of(s) is None,
            }
        }),
{
    crate::refusal::lemma_skip(s, 0);
}

}
