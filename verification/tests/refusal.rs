use std::fmt;

use jevi::refusal::{refusal, unknown_field_text, wrong_number_text, wrong_type_text};
use jevi::{Json, QuestionSet};
use serde::de::{Error, MapAccess, SeqAccess, Visitor};
use serde::{Deserialize, Deserializer};

const FIELDS: &[&str] = &["version", "model", "max_chars", "questions"];

/// A question set as serde reads one that has these four fields and no others.
struct Shape {
    version: u32,
    model: Option<String>,
    max_chars: Option<usize>,
    questions: serde_json::Map<String, serde_json::Value>,
}

enum Name {
    Version,
    Model,
    MaxChars,
    Questions,
}

struct NameVisitor;

impl<'de> Visitor<'de> for NameVisitor {
    type Value = Name;

    fn expecting(&self, f: &mut fmt::Formatter) -> fmt::Result {
        f.write_str("field identifier")
    }

    fn visit_str<E: Error>(self, key: &str) -> Result<Name, E> {
        match key {
            "version" => Ok(Name::Version),
            "model" => Ok(Name::Model),
            "max_chars" => Ok(Name::MaxChars),
            "questions" => Ok(Name::Questions),
            _ => Err(E::unknown_field(key, FIELDS)),
        }
    }
}

impl<'de> Deserialize<'de> for Name {
    fn deserialize<D: Deserializer<'de>>(d: D) -> Result<Name, D::Error> {
        d.deserialize_identifier(NameVisitor)
    }
}

struct ShapeVisitor;

impl<'de> Visitor<'de> for ShapeVisitor {
    type Value = Shape;

    fn expecting(&self, f: &mut fmt::Formatter) -> fmt::Result {
        f.write_str("struct QuestionSet")
    }

    fn visit_seq<A: SeqAccess<'de>>(self, mut seq: A) -> Result<Shape, A::Error> {
        let version = seq.next_element()?.unwrap_or(1);
        let model = seq.next_element()?.unwrap_or(None);
        let max_chars = seq.next_element()?.unwrap_or(None);
        let questions = match seq.next_element()? {
            Some(questions) => questions,
            None => return Err(A::Error::invalid_length(3, &"struct QuestionSet with 4 elements")),
        };
        Ok(Shape { version, model, max_chars, questions })
    }

    fn visit_map<A: MapAccess<'de>>(self, mut map: A) -> Result<Shape, A::Error> {
        let mut version: Option<u32> = None;
        let mut model: Option<Option<String>> = None;
        let mut max_chars: Option<Option<usize>> = None;
        let mut questions = None;
        while let Some(name) = map.next_key()? {
            match name {
                Name::Version if version.is_some() => return Err(A::Error::duplicate_field("version")),
                Name::Version => version = Some(map.next_value()?),
                Name::Model if model.is_some() => return Err(A::Error::duplicate_field("model")),
                Name::Model => model = Some(map.next_value()?),
                Name::MaxChars if max_chars.is_some() => return Err(A::Error::duplicate_field("max_chars")),
                Name::MaxChars => max_chars = Some(map.next_value()?),
                Name::Questions if questions.is_some() => return Err(A::Error::duplicate_field("questions")),
                Name::Questions => questions = Some(map.next_value()?),
            }
        }
        let questions = match questions {
            Some(questions) => questions,
            None => return Err(A::Error::missing_field("questions")),
        };
        Ok(Shape {
            version: version.unwrap_or(1),
            model: model.unwrap_or(None),
            max_chars: max_chars.unwrap_or(None),
            questions,
        })
    }
}

impl<'de> Deserialize<'de> for Shape {
    fn deserialize<D: Deserializer<'de>>(d: D) -> Result<Shape, D::Error> {
        d.deserialize_struct("QuestionSet", FIELDS, ShapeVisitor)
    }
}

fn compared(raw: &str) {
    match (serde_json::from_str::<Shape>(raw), QuestionSet::parse(raw, "f")) {
        (Ok(want), Ok(got)) => {
            assert_eq!(got.version, want.version, "{raw:?}");
            assert_eq!(got.model, want.model, "{raw:?}");
            assert_eq!(got.max_chars, want.max_chars, "{raw:?}");
            assert_eq!(Json::Object(got.questions).to_text(), serde_json::Value::Object(want.questions).to_string());
        }
        (Err(want), Err(got)) => {
            assert_eq!(got.to_string(), format!("invalid input (question_file: f: {want})"), "{raw:?}");
        }
        (want, got) => panic!("{raw:?}: {:?} but {:?}", want.err().map(|e| e.to_string()), got.is_ok()),
    }
}

const TEXTS: &[&str] = &[
    "{\"version\":1,\"model\":\"m\",\"max_chars\":40000,\"questions\":{\"q\":{\"type\":\"noul\"}}}",
    " {\n  \"version\" : 1 ,\n  \"model\" : null,\r\n\t\"max_chars\":null , \"questions\" : { } }\n",
    "[1,\"m\",20,{\"a\":[1,{\"b\":\"]}\"}]}]",
    " [ 1 , null , null , { } ] ",
    "{\"questions\":{},\"model\":\"\u{e9}\u{20ac}\u{1f600}\",\"\\u0076ersion\":-0.5e+1}",
    "{\"model\":\"a\\\"b\\\\c\",\"questions\":{\"x\\\"}\":true},\"max_chars\":18446744073709551616}",
    "{\"version\":4294967296,\"questions\":{}}",
];

#[test]
fn every_refusal_is_the_one_of_serde() {
    for raw in TEXTS {
        compared(raw);
    }
    for raw in [
        "", " ", "\n", "7", "-7", "7.5", "1e400", "\"s\"", "\"s", "null", "nul", "true", "tru", "false", "falsy", "x", "{", "[",
        "{}", "[]", "{ }", "[ ]", "{,}", "[,]", "{\"a\"}", "{\"a\" }", "{\"version\"}", "{\"version\":}", "{\"version\":1",
        "{\"version\":1,", "{\"version\":1,}", "[1", "[1,", "[1,]", "[1,null]", "[1,null,null]", "[1,null,null,]",
        "[1,null,null,{}", "[1,null,null,{},", "[1,null,null,{},]", "[1,null,null,{},5]", "[1,null,null,{},\n 5]",
        "[1,null,null,{} 5]", "[1,null,null,{}}", "[1,null,null,{},\u{e9}]", "[1 2]", "[null]", "[1,2]", "[1,null,\"x\"]", "[1,null,null,[]]",
        "{\"questions\":{}} x", "{\"questions\":{}}}", "{\"questions\":{}]", "[1,null,null,{}] ]",
        "{\"questions\":{},\"questions\":{}}", "{\"questions\":{},\"questions\"  }", "{\"questions\":{},\"quest\\u0069ons\" : 1}",
        "{\"model\":null,\"model\":null}", "{\"max_chars\":1,\n\n \"max_chars\"\n:1}", "{\"\u{e9}\":1}", "{\n\"model\":\"\u{e9}\",\"x\":1}",
        "{\"version\":\"one\\n\u{e9}\\u0007\\\"\\u200b\"}", "{\"version\":01}", "{\"version\":1.}", "{\"version\":1e}", "{\"version\":-}",
        "{\"version\":-1}", "{\"version\":-0}", "{\"version\":1.0}", "{\"version\":1e2}", "{\"version\":18446744073709551616}",
        "{\"version\":-9223372036854775809}", "{\"version\":99999999999999999999999999}", "{\"version\":1e999}", "{\"version\":[1]}",
        "{\"version\":[", "{\"version\":{\"a\":1}}", "{\"version\":true}", "{\"version\":null}", "{\"model\":7}", "{\"model\":-7.25}",
        "{\"model\":[]}", "{\"model\":{}}", "{\"model\":false}", "{\"model\":nul}", "{\"model\":\"\\ud800\"}", "{\"model\":\"\t\"}",
        "{\"max_chars\":\"5\"}", "{\"max_chars\":-5}", "{\"max_chars\":5.5}", "{\"max_chars\":[]}", "{\"max_chars\":true}",
        "{\"max_chars\":18446744073709551615,\"questions\":{}}", "{\"questions\":null}", "{\"questions\":[1,}", "{\"questions\":7}",
        "{\"questions\":\"x\"}", "{\"questions\":{\"a\":}}", "{\"questions\":{\"a\":1e999}}", "{\"questions\":{\"a\":1 \"b\":2}}",
        "{\"questions\":{\"a\":[1,2}}", "{\"questions\":{]}", "{\"questions\":{}{\"version\":1}", "{version:1}", "{1:1}", "{\"a\u{1}\":1}",
        "{\"version\" 1}", "{\"version\":1 \"model\":1}", "{\"version\":1;}", "\u{feff}{}", "{\"version\":+1}", "{\"version\":.5}",
    ] {
        compared(raw);
    }
}

#[test]
fn a_character_too_few_or_too_many_is_refused_alike() {
    let others = [
        ' ', '\n', '"', '\\', '{', '}', '[', ']', ',', ':', '0', '1', '9', '-', '+', '.', 'e', 'n', 't', 'x', '\u{e9}', '\u{1}',
    ];
    for text in TEXTS {
        let t: Vec<char> = text.chars().collect();
        for i in 0..=t.len() {
            let front: String = t[..i].iter().collect();
            compared(&front);
            let rest: String = t[i..].iter().collect();
            for c in others {
                compared(&format!("{front}{c}{rest}"));
            }
            if i < t.len() {
                let rest: String = t[i + 1..].iter().collect();
                compared(&format!("{front}{rest}"));
                for c in others {
                    compared(&format!("{front}{c}{rest}"));
                }
            }
        }
    }
}

#[test]
fn pieces_in_any_order_are_refused_alike() {
    let pieces = [
        "{", "}", "[", "]", ",", ":", "\"version\"", "\"model\"", "\"max_chars\"", "\"questions\"", "\"m\"", "1", "-1", "2.5", "null",
        "true", "{}", "\n", "\"version\":1", "\"questions\":{}", "\"model\":\"m\"", "\"max_chars\":3",
    ];
    // A linear congruence is as good a shuffle as any here.
    let mut seed: u64 = 12345;
    for _ in 0..40000 {
        let mut raw = String::new();
        let mut next = || {
            seed = seed.wrapping_mul(6364136223846793005).wrapping_add(1442695040888963407);
            (seed >> 33) as usize
        };
        let start = next() % 4;
        if start == 0 {
            raw.push('[');
        } else {
            raw.push('{');
        }
        for k in 0..next() % 8 {
            if k > 0 && next() % 4 > 0 {
                raw.push(',');
            }
            raw.push_str(pieces[next() % pieces.len()]);
        }
        if next() % 3 > 0 {
            raw.push(if start == 0 { ']' } else { '}' });
        }
        compared(&raw);
    }
}

#[test]
fn a_file_may_be_nested_as_deep_as_json() {
    for deep in 120..132 {
        let nested = format!("{}{}", "[".repeat(deep), "]".repeat(deep));
        compared(&format!("{{\"questions\":{{\"q\":{nested}}}}}"));
        compared(&format!("{{\"questions\":{{\"q\":{nested}}},\"x\":1}}"));
        compared(&format!("{{\"model\":{nested}}}"));
        compared(&format!("[1,null,null,{{\"q\":{nested}}},0]"));
        compared(&nested);
    }
}

#[test]
fn a_refusal_has_a_line_and_a_column_in_bytes() {
    assert_eq!(refusal("{\"questions\":{}}"), None);
    assert_eq!(refusal("not JSON"), None);
    assert_eq!(
        refusal("{\n  \"model\": \"\u{20ac}\", \"modle\": 1}").as_deref(),
        Some("unknown field `modle`, expected one of `version`, `model`, `max_chars`, `questions` at line 2 column 25")
    );
    assert_eq!(refusal("{\"version\":1}").as_deref(), Some("missing field `questions` at line 1 column 13"));
}

#[test]
fn a_string_is_quoted_with_its_escapes() {
    let j = Json::Text("a\"b\n\u{e9}\u{200b}".to_string());
    assert_eq!(wrong_type_text(&j, "u32"), "invalid type: string \"a\\\"b\\n\u{e9}\\u{200b}\", expected u32");
    assert_eq!(wrong_number_text(&j, "u32"), wrong_type_text(&j, "u32"));
    assert_eq!(wrong_number_text(&Json::parse("-1").expect("is JSON"), "u32"), "invalid value: integer `-1`, expected u32");
    assert_eq!(
        unknown_field_text("q"),
        "unknown field `q`, expected one of `version`, `model`, `max_chars`, `questions`"
    );
}
