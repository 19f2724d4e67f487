//! JSON text in and out. `serde_json` reads and writes the text; the walk over the value it
//! hands out, and over the tree it is to write, is done here, one level at a time.

use serde_json::Value;
use vstd::prelude::*;

use crate::json::{
    distinct, entries_view, field, items_view, lemma_lookup, lookup, real_of, with, within, Json, JsonView, Object,
};
use crate::number::{finite, is_finite, nine_tenths, one_tenth, Number, NumberView, Real, RealView};
use crate::text;

verus! {

/// `serde_json::Value`, carried without a look inside.
#[verifier::external_type_specification]
#[verifier::external_body]
pub struct ExValue(serde_json::Value);

/// The tree that a `serde_json::Value` holds, entries of an object in their order.
pub uninterp spec fn value_view(v: Value) -> JsonView;

/// What `serde_json::from_str` makes of a text: the value that the text denotes, or the
/// message of the error.
pub uninterp spec fn json_reading(text: Seq<char>) -> Result<JsonView, Seq<char>>;

/// The text that `serde_json` displays a value as, without spaces or line breaks.
pub uninterp spec fn json_text(j: JsonView) -> Seq<char>;

/// The text that `serde_json::to_string_pretty` gives of a value.
pub uninterp spec fn json_pretty(j: JsonView) -> Seq<char>;

/// How the standard library displays the double with a bit pattern: with as many digits as
/// it takes to tell it apart, and no exponent.
pub uninterp spec fn plain_text(bits: u64) -> Seq<char>;

/// How the standard library shows a text for debugging: in quotation marks, with what cannot
/// be seen escaped.
pub uninterp spec fn debug_text(s: Seq<char>) -> Seq<char>;

/// What `serde_json` holds of a whole number.
pub uninterp spec fn whole_reading(n: u64) -> NumberView;

/// The trees that a list of values holds.
pub open spec fn values_view(v: Seq<Value>) -> Seq<JsonView> {
    v.map_values(|x: Value| value_view(x))
}

/// The entries that a list of keys and values holds.
pub open spec fn members_view(v: Seq<(String, Value)>) -> Seq<(Seq<char>, JsonView)> {
    v.map_values(|e: (String, Value)| (e.0@, value_view(e.1)))
}

/// One level of a value that is no number.
pub enum Shape {
    Null,
    Bool(bool),
    Text(String),
    Array(Vec<Value>),
    Object(Vec<(String, Value)>),
}

/// One level of a value.
pub enum Opened {
    Number(Number),
    Shape(Shape),
}

/// The tree that one level and what hangs below it make.
pub open spec fn shape_view(s: Shape) -> JsonView {
    match s {
        Shape::Null => JsonView::Null,
        Shape::Bool(b) => JsonView::Bool(b),
        Shape::Text(t) => JsonView::Text(t@),
        Shape::Array(items) => JsonView::Array(values_view(items@)),
        Shape::Object(members) => JsonView::Object(members_view(members@)),
    }
}

/// How deep a text that `serde_json` reads can be nested.
pub const DEEPEST: usize = 127;

/// `serde_json::from_str`: reads a text as a JSON value, or says why it is none. A text
/// nested deeper than [`DEEPEST`] is refused. The texts `0.9` and `0.1` read as the doubles
/// nearest to them, which are displayed by these same texts.
#[verifier::external_body]
fn read_value(raw: &str) -> (r: Result<Value, String>)
    ensures
        match r {
            Ok(v) => json_reading(raw@) == Ok::<JsonView, Seq<char>>(value_view(v)) && within(
                value_view(v),
                DEEPEST as nat,
            ) && (raw@ == nine_tenths().text ==> value_view(v) == real_value(nine_tenths())) && (raw@
                == one_tenth().text ==> value_view(v) == real_value(one_tenth())),
            Err(m) => json_reading(raw@) == Err::<JsonView, Seq<char>>(m@) && raw@ != nine_tenths().text && raw@
                != one_tenth().text,
        },
{
    serde_json::from_str(raw).map_err(|e| e.to_string())
}

/// Tells the variants of `serde_json::Value` apart and hands out what they hold. Of a number
/// it hands out `Number::as_u64`, `Number::as_f64` and how the two are displayed: the text of
/// a number reads as that number again, and the JSON text of its double as that double. The
/// keys of an object are distinct.
#[verifier::external_body]
fn open(v: Value) -> (r: Opened)
    ensures
        match r {
            Opened::Number(n) => value_view(v) == JsonView::Number(n@) && json_reading(n@.text) == Ok::<
                JsonView,
                Seq<char>,
            >(JsonView::Number(n@)) && json_reading(n@.real.text) == Ok::<JsonView, Seq<char>>(
                real_value(n@.real),
            ) && n@.real.plain == plain_text(n@.real.bits),
            Opened::Shape(s) => value_view(v) == shape_view(s) && (s matches Shape::Object(m) ==> distinct(
                members_view(m@),
            )),
        },
{
    match v {
        Value::Null => Opened::Shape(Shape::Null),
        Value::Bool(b) => Opened::Shape(Shape::Bool(b)),
        Value::Number(n) => {
            let x = n.as_f64().unwrap_or_default();
            let text = Value::from(x).to_string();
            let double = Real { bits: x.to_bits(), text, plain: x.to_string() };
            Opened::Number(Number { text: n.to_string(), whole: n.as_u64(), real: double })
        }
        Value::String(s) => Opened::Shape(Shape::Text(s)),
        Value::Array(items) => Opened::Shape(Shape::Array(items)),
        Value::Object(map) => Opened::Shape(Shape::Object(map.into_iter().collect())),
    }
}

/// Makes a `serde_json::Value` of one level. The entries of an object stay in their order.
#[verifier::external_body]
fn close(s: Shape) -> (r: Value)
    requires
        s matches Shape::Object(m) ==> distinct(members_view(m@)),
    ensures
        value_view(r) == shape_view(s),
{
    match s {
        Shape::Null => Value::Null,
        Shape::Bool(b) => Value::Bool(b),
        Shape::Text(t) => Value::String(t),
        Shape::Array(items) => Value::Array(items),
        Shape::Object(members) => Value::Object(members.into_iter().collect()),
    }
}

/// `serde_json::Value::from` on a `u64`: the number itself, displayed in decimal.
#[verifier::external_body]
fn whole_value(n: u64) -> (r: Value)
    ensures
        match value_view(r) {
            JsonView::Number(v) => v == whole_reading(n) && v.whole == Some(n) && v.text == text::decimal_of(
                n as nat,
            ),
            _ => false,
        },
{
    Value::from(n)
}

/// `serde_json::Value::to_string`: the value as compact JSON text. A value that is not nested
/// too deep reads back from its text.
#[verifier::external_body]
fn write_value(v: &Value) -> (r: String)
    ensures
        r@ == json_text(value_view(*v)),
        (within(value_view(*v), DEEPEST as nat) ==> json_reading(r@) == Ok::<JsonView, Seq<char>>(value_view(*v))),
{
    v.to_string()
}

/// `serde_json::to_string_pretty`: the value as indented JSON text. Nothing in a value can
/// make it fail, and a value that is not nested too deep reads back from its text.
#[verifier::external_body]
fn write_pretty(v: &Value) -> (r: Result<String, String>)
    ensures
        match r {
            Ok(t) => t@ == json_pretty(value_view(*v)) && (within(value_view(*v), DEEPEST as nat)
                ==> json_reading(t@) == Ok::<JsonView, Seq<char>>(value_view(*v))),
            Err(_) => false,
        },
{
    serde_json::to_string_pretty(v).map_err(|e| e.to_string())
}

/// The JSON number of a double; a double that is infinite or not a number has none.
pub open spec fn real_value(r: RealView) -> JsonView {
    if is_finite(r.bits) {
        JsonView::Number(NumberView { text: r.text, whole: None, real: r })
    } else {
        JsonView::Null
    }
}

/// `std::fmt::Debug` of a `str`: the text in quotation marks, with escapes for what cannot be
/// shown. The contract names the result and says no more of it.
#[verifier::external_body]
pub(crate) fn debugged(s: &str) -> (r: String)
    ensures
        r@ == debug_text(s@),
{
    format!("{s:?}")
}

/// The tree that is written for a tree: each number is what its text reads as.
pub open spec fn settled(j: JsonView) -> JsonView
    decreases j,
{
    match j {
        JsonView::Number(n) => match json_reading(n.text) {
            Ok(v) => v,
            Err(_) => JsonView::Null,
        },
        JsonView::Array(v) => JsonView::Array(
            Seq::new(
                v.len(),
                |i: int|
                    if 0 <= i < v.len() {
                        settled(v[i])
                    } else {
                        JsonView::Null
                    },
            ),
        ),
        JsonView::Object(m) => JsonView::Object(
            Seq::new(
                m.len(),
                |i: int|
                    if 0 <= i < m.len() {
                        (m[i].0, settled(m[i].1))
                    } else {
                        (Seq::empty(), JsonView::Null)
                    },
            ),
        ),
        _ => j,
    }
}

/// A double that is written as itself: its JSON text reads as its JSON number.
pub open spec fn writable(r: RealView) -> bool {
    settled(real_value(r)) == real_value(r)
}

/// A tree that is written as itself, down to the doubles behind its numbers.
pub open spec fn faithful(j: JsonView) -> bool
    decreases j,
{
    match j {
        JsonView::Number(n) => settled(j) == j && writable(n.real),
        JsonView::Array(v) => forall|i: int| 0 <= i < v.len() ==> faithful(#[trigger] v[i]),
        JsonView::Object(m) => forall|i: int| 0 <= i < m.len() ==> faithful((#[trigger] m[i]).1),
        _ => true,
    }
}

/// What is written as itself settles as itself.
pub proof fn lemma_faithful_is_settled(j: JsonView)
    requires
        faithful(j),
    ensures
        settled(j) == j,
    decreases j,
{
    match j {
        JsonView::Array(v) => {
            assert(j->Array_0 == v);
            assert forall|i: int| 0 <= i < v.len() implies settled(#[trigger] v[i]) == v[i] by {
                assert(faithful(j->Array_0[i]));
                assert(decreases_to!(j => j->Array_0));
                assert(decreases_to!(j->Array_0 => j->Array_0[i]));
                lemma_faithful_is_settled(v[i]);
            }
            assert(settled(j)->Array_0 =~= v);
        },
        JsonView::Object(m) => {
            assert(j->Object_0 == m);
            assert forall|i: int| 0 <= i < m.len() implies settled((#[trigger] m[i]).1) == m[i].1 by {
                assert(faithful(j->Object_0[i].1));
                assert(decreases_to!(j => j->Object_0));
                assert(decreases_to!(j->Object_0 => j->Object_0[i]));
                assert(decreases_to!(j->Object_0[i] => j->Object_0[i].1));
                lemma_faithful_is_settled(m[i].1);
            }
            assert(settled(j)->Object_0 =~= m);
        },
        _ => {},
    }
}

/// A tree whose text reads back as it: it is written as itself and not nested too deep.
pub open spec fn sound(j: JsonView, depth: nat) -> bool {
    faithful(j) && within(j, depth)
}

/// An entry of a sound object is sound.
pub proof fn lemma_sound_entry(m: Seq<(Seq<char>, JsonView)>, i: int, depth: nat)
    requires
        sound(JsonView::Object(m), depth),
        0 <= i < m.len(),
    ensures
        depth > 0,
        sound(m[i].1, (depth - 1) as nat),
{
    let j = JsonView::Object(m);
    assert(faithful(j) && within(j, depth));
    assert(faithful(j->Object_0[i].1) && within(j->Object_0[i].1, (depth - 1) as nat));
}

/// An object whose entries are sound is sound.
pub proof fn lemma_sound_object(m: Seq<(Seq<char>, JsonView)>, depth: nat)
    requires
        depth > 0,
        forall|i: int| 0 <= i < m.len() ==> sound((#[trigger] m[i]).1, (depth - 1) as nat),
    ensures
        sound(JsonView::Object(m), depth),
{
    let j = JsonView::Object(m);
    assert forall|i: int| 0 <= i < m.len() implies faithful((#[trigger] j->Object_0[i]).1) && within(
        j->Object_0[i].1,
        (depth - 1) as nat,
    ) by {
        assert(sound(m[i].1, (depth - 1) as nat));
    }
}

/// What is under a key of a sound tree is sound, and a number there is written as itself.
pub proof fn lemma_sound_field(j: JsonView, key: Seq<char>, depth: nat)
    requires
        sound(j, depth),
    ensures
        field(j, key) matches Some(v) ==> depth > 0 && sound(v, (depth - 1) as nat),
        real_of(field(j, key)) matches Some(r) ==> writable(r),
{
    if let JsonView::Object(m) = j {
        lemma_lookup(m, key);
        if let Some(v) = lookup(m, key) {
            let i = choose|i: int| 0 <= i < m.len() && #[trigger] m[i] == (key, v);
            lemma_sound_entry(m, i, depth);
        }
    }
}

/// Setting a key of a sound object to something sound leaves it sound.
pub proof fn lemma_sound_with(m: Seq<(Seq<char>, JsonView)>, key: Seq<char>, value: JsonView, depth: nat)
    requires
        sound(JsonView::Object(m), depth),
        depth > 0,
        sound(value, (depth - 1) as nat),
    ensures
        sound(JsonView::Object(with(m, key, value)), depth),
{
    let w = with(m, key, value);
    assert forall|i: int| 0 <= i < w.len() implies sound((#[trigger] w[i]).1, (depth - 1) as nat) by {
        if i < m.len() {
            lemma_sound_entry(m, i, depth);
            assert(w[i] == m[i] || w[i] == (key, value));
        }
    }
    lemma_sound_object(w, depth);
}

/// A tree that is not nested too deep is not nested deeper than a larger bound.
pub proof fn lemma_within_more(j: JsonView, a: nat, b: nat)
    requires
        within(j, a),
        a <= b,
    ensures
        within(j, b),
    decreases j,
{
    match j {
        JsonView::Array(v) => {
            assert(j->Array_0 == v);
            assert forall|i: int| 0 <= i < v.len() implies within(#[trigger] j->Array_0[i], (b - 1) as nat) by {
                assert(within(j->Array_0[i], (a - 1) as nat));
                assert(decreases_to!(j => j->Array_0));
                assert(decreases_to!(j->Array_0 => j->Array_0[i]));
                lemma_within_more(v[i], (a - 1) as nat, (b - 1) as nat);
            }
        },
        JsonView::Object(m) => {
            assert(j->Object_0 == m);
            assert forall|i: int| 0 <= i < m.len() implies within((#[trigger] j->Object_0[i]).1, (b - 1) as nat) by {
                assert(within(j->Object_0[i].1, (a - 1) as nat));
                assert(decreases_to!(j => j->Object_0));
                assert(decreases_to!(j->Object_0 => j->Object_0[i]));
                assert(decreases_to!(j->Object_0[i] => j->Object_0[i].1));
                lemma_within_more(m[i].1, (a - 1) as nat, (b - 1) as nat);
            }
        },
        _ => {},
    }
}

fn from_value(v: Value) -> (r: Json)
    ensures
        r@ == value_view(v),
        faithful(r@),
    decreases value_view(v),
{
    let ghost whole = value_view(v);
    match open(v) {
        Opened::Number(n) => Json::Number(n),
        Opened::Shape(Shape::Null) => Json::Null,
        Opened::Shape(Shape::Bool(b)) => Json::Bool(b),
        Opened::Shape(Shape::Text(s)) => Json::Text(s),
        Opened::Shape(Shape::Array(items)) => {
            let mut out: Vec<Json> = Vec::new();
            let ghost views = values_view(items@);
            for x in it: items
                invariant
                    whole == value_view(v),
                    whole == JsonView::Array(views),
                    views == values_view(it.seq()),
                    items_view(out@) == views.take(it.index()),
                    forall|i: int| 0 <= i < it.index() ==> faithful(#[trigger] views[i]),
            {
                let ghost before = out@;
                proof {
                    assert(views[it.index()] == value_view(x));
                    assert(decreases_to!(whole => whole->Array_0));
                    assert(decreases_to!(whole->Array_0 => whole->Array_0[it.index()]));
                }
                out.push(from_value(x));
                proof {
                    assert(items_view(out@) =~= items_view(before).push(views[it.index()]));
                    assert(views.take(it.index() + 1) =~= views.take(it.index()).push(views[it.index()]));
                }
            }
            proof {
                assert(views.take(views.len() as int) =~= views);
            }
            Json::Array(out)
        },
        Opened::Shape(Shape::Object(members)) => {
            let mut out: Vec<(String, Json)> = Vec::new();
            let ghost views = members_view(members@);
            for e in it: members
                invariant
                    whole == value_view(v),
                    whole == JsonView::Object(views),
                    views == members_view(it.seq()),
                    entries_view(out@) == views.take(it.index()),
                    forall|i: int| 0 <= i < it.index() ==> faithful((#[trigger] views[i]).1),
            {
                let ghost before = out@;
                let (k, x) = e;
                proof {
                    assert(views[it.index()] == (k@, value_view(x)));
                    assert(decreases_to!(whole => whole->Object_0));
                    assert(decreases_to!(whole->Object_0 => whole->Object_0[it.index()]));
                    assert(decreases_to!(whole->Object_0[it.index()] => whole->Object_0[it.index()].1));
                }
                out.push((k, from_value(x)));
                proof {
                    assert(entries_view(out@) =~= entries_view(before).push(views[it.index()]));
                    assert(views.take(it.index() + 1) =~= views.take(it.index()).push(views[it.index()]));
                }
            }
            proof {
                assert(views.take(views.len() as int) =~= views);
            }
            Json::Object(Object::from_entries(out))
        },
    }
}

fn to_value(j: &Json) -> (r: Value)
    ensures
        value_view(r) == settled(j@),
    decreases j@,
{
    let ghost whole = j@;
    match j {
        Json::Null => close(Shape::Null),
        Json::Bool(b) => close(Shape::Bool(*b)),
        Json::Number(n) => match read_value(n.text.as_str()) {
            Ok(v) => v,
            Err(_) => close(Shape::Null),
        },
        Json::Text(s) => close(Shape::Text(s.clone())),
        Json::Array(items) => {
            let mut out: Vec<Value> = Vec::new();
            let ghost goal = settled(whole)->Array_0;
            let mut i: usize = 0;
            proof {
                assert(whole == JsonView::Array(items_view(items@)));
            }
            while i < items.len()
                invariant
                    whole == j@,
                    whole == JsonView::Array(items_view(items@)),
                    i <= items@.len(),
                    goal == settled(whole)->Array_0,
                    values_view(out@) == goal.take(i as int),
                decreases items@.len() - i,
            {
                let ghost before = out@;
                proof {
                    assert(decreases_to!(whole => whole->Array_0));
                    assert(decreases_to!(whole->Array_0 => whole->Array_0[i as int]));
                }
                out.push(to_value(&items[i]));
                proof {
                    assert(values_view(out@) =~= values_view(before).push(goal[i as int]));
                    assert(goal.take(i + 1) =~= goal.take(i as int).push(goal[i as int]));
                }
                i += 1;
            }
            proof {
                assert(goal.take(goal.len() as int) =~= goal);
            }
            close(Shape::Array(out))
        },
        Json::Object(o) => {
            let mut out: Vec<(String, Value)> = Vec::new();
            let ghost goal = settled(whole)->Object_0;
            let mut i: usize = 0;
            while i < o.len()
                invariant
                    whole == j@,
                    whole == JsonView::Object(o@),
                    i <= o@.len(),
                    goal == settled(whole)->Object_0,
                    members_view(out@) == goal.take(i as int),
                decreases o@.len() - i,
            {
                let ghost before = out@;
                proof {
                    assert(decreases_to!(whole => whole->Object_0));
                    assert(decreases_to!(whole->Object_0 => whole->Object_0[i as int]));
                    assert(decreases_to!(whole->Object_0[i as int] => whole->Object_0[i as int].1));
                }
                let value = to_value(o.value_at(i));
                out.push((o.key_at(i).to_owned(), value));
                proof {
                    assert(members_view(out@) =~= members_view(before).push(goal[i as int]));
                    assert(goal.take(i + 1) =~= goal.take(i as int).push(goal[i as int]));
                }
                i += 1;
            }
            proof {
                assert(goal.take(goal.len() as int) =~= goal);
                use_type_invariant(o);
                assert forall|a: int, b: int| 0 <= a < b < goal.len() implies (#[trigger] goal[a]).0 != (
                #[trigger] goal[b]).0 by {
                    assert(o@[a].0 != o@[b].0);
                }
            }
            close(Shape::Object(out))
        },
    }
}

impl Json {
    /// Reads a text as a JSON value, or says why it is none.
    pub fn parse(raw: &str) -> (r: Result<Json, String>)
        ensures
            match r {
                Ok(j) => json_reading(raw@) == Ok::<JsonView, Seq<char>>(j@),
                Err(m) => json_reading(raw@) == Err::<JsonView, Seq<char>>(m@),
            },
            r matches Ok(j) ==> sound(j@, DEEPEST as nat) && settled(j@) == j@,
            raw@ == nine_tenths().text ==> (r matches Ok(j) && j@ == real_value(nine_tenths())),
            raw@ == one_tenth().text ==> (r matches Ok(j) && j@ == real_value(one_tenth())),
    {
        match read_value(raw) {
            Ok(v) => {
                let j = from_value(v);
                proof {
                    lemma_faithful_is_settled(j@);
                }
                Ok(j)
            },
            Err(m) => Err(m),
        }
    }

    /// The value as compact JSON text, which reads back as the value if it is not nested too
    /// deep.
    pub fn to_text(&self) -> (r: String)
        ensures
            r@ == json_text(settled(self@)),
            within(settled(self@), DEEPEST as nat) ==> json_reading(r@) == Ok::<JsonView, Seq<char>>(settled(self@)),
    {
        write_value(&to_value(self))
    }

    /// The value as indented JSON text, which reads back as the value if it is not nested
    /// too deep.
    pub fn to_pretty(&self) -> (r: Result<String, String>)
        ensures
            match r {
                Ok(t) => t@ == json_pretty(settled(self@)) && (within(settled(self@), DEEPEST as nat)
                    ==> json_reading(t@) == Ok::<JsonView, Seq<char>>(settled(self@))),
                Err(_) => false,
            },
    {
        write_pretty(&to_value(self))
    }

    /// The JSON number of a whole number.
    pub fn whole(n: u64) -> (r: Json)
        ensures
            r@ == JsonView::Number(whole_reading(n)),
            whole_reading(n).whole == Some(n),
            whole_reading(n).text == text::decimal_of(n as nat),
            faithful(r@),
    {
        from_value(whole_value(n))
    }

    /// The JSON number of a double, or null where it has none.
    pub fn double(r: &Real) -> (j: Json)
        ensures
            j@ == real_value(r@),
    {
        if finite(r.bits) {
            Json::Number(Number { text: r.text.clone(), whole: None, real: r.clone() })
        } else {
            Json::Null
        }
    }
}

}
