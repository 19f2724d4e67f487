//! JSON values as plain trees. An object keeps its entries in the order in which they came,
//! each key once.

use vstd::prelude::*;

use crate::number::{Number, NumberView, Real, RealView};
use crate::text;

verus! {

/// What a JSON value says.
pub enum JsonView {
    Null,
    Bool(bool),
    Number(NumberView),
    Text(Seq<char>),
    Array(Seq<JsonView>),
    Object(Seq<(Seq<char>, JsonView)>),
}

/// A JSON value.
#[derive(Debug, PartialEq, Eq)]
pub enum Json {
    Null,
    Bool(bool),
    Number(Number),
    Text(String),
    Array(Vec<Json>),
    Object(Object),
}

/// A JSON object: keys and values in order, each key once.
#[derive(Debug, PartialEq, Eq)]
pub struct Object {
    entries: Vec<(String, Json)>,
}

/// What a list of JSON values says.
pub open spec fn items_view(v: Seq<Json>) -> Seq<JsonView>
    decreases v,
{
    Seq::new(
        v.len(),
        |i: int|
            if 0 <= i < v.len() {
                v[i].view()
            } else {
                JsonView::Null
            },
    )
}

/// What the entries of an object say.
pub open spec fn entries_view(v: Seq<(String, Json)>) -> Seq<(Seq<char>, JsonView)>
    decreases v,
{
    Seq::new(
        v.len(),
        |i: int|
            if 0 <= i < v.len() {
                (v[i].0@, v[i].1.view())
            } else {
                (Seq::empty(), JsonView::Null)
            },
    )
}

impl View for Json {
    type V = JsonView;

    open spec fn view(&self) -> JsonView
        decreases self,
    {
        match self {
            Json::Null => JsonView::Null,
            Json::Bool(b) => JsonView::Bool(*b),
            Json::Number(n) => JsonView::Number(n@),
            Json::Text(s) => JsonView::Text(s@),
            Json::Array(v) => JsonView::Array(items_view(v@)),
            Json::Object(o) => JsonView::Object(o.view()),
        }
    }
}

impl View for Object {
    type V = Seq<(Seq<char>, JsonView)>;

    closed spec fn view(&self) -> Seq<(Seq<char>, JsonView)>
        decreases self,
    {
        entries_view(self.entries@)
    }
}

/// No key stands twice.
pub open spec fn distinct(m: Seq<(Seq<char>, JsonView)>) -> bool {
    forall|i: int, j: int| 0 <= i < j < m.len() ==> (#[trigger] m[i]).0 != (#[trigger] m[j]).0
}

impl Object {
    /// Holds of every object.
    #[verifier::type_invariant]
    pub open spec fn each_key_once(&self) -> bool {
        distinct(self@)
    }
}

/// The value under a key, if the key is there.
pub open spec fn lookup(m: Seq<(Seq<char>, JsonView)>, key: Seq<char>) -> Option<JsonView>
    decreases m.len(),
{
    if m.len() == 0 {
        None
    } else if m.last().0 == key {
        Some(m.last().1)
    } else {
        lookup(m.drop_last(), key)
    }
}

/// The entries with a key set: in place where it was there, else at the end.
pub open spec fn with(m: Seq<(Seq<char>, JsonView)>, key: Seq<char>, value: JsonView) -> Seq<
    (Seq<char>, JsonView),
> {
    if lookup(m, key) is Some {
        Seq::new(
            m.len(),
            |i: int|
                if m[i].0 == key {
                    (key, value)
                } else {
                    m[i]
                },
        )
    } else {
        m.push((key, value))
    }
}

/// The entries but for one key.
pub open spec fn without(m: Seq<(Seq<char>, JsonView)>, key: Seq<char>) -> Seq<(Seq<char>, JsonView)>
    decreases m.len(),
{
    if m.len() == 0 {
        m
    } else {
        let before = without(m.drop_last(), key);
        if m.last().0 == key {
            before
        } else {
            before.push(m.last())
        }
    }
}

/// The value under a key of an object; nothing for any other JSON value.
pub open spec fn field(j: JsonView, key: Seq<char>) -> Option<JsonView> {
    match j {
        JsonView::Object(m) => lookup(m, key),
        _ => None,
    }
}

/// The text of a JSON string.
pub open spec fn text_of(j: Option<JsonView>) -> Option<Seq<char>> {
    match j {
        Some(JsonView::Text(s)) => Some(s),
        _ => None,
    }
}

/// The double nearest to a JSON number.
pub open spec fn real_of(j: Option<JsonView>) -> Option<RealView> {
    match j {
        Some(JsonView::Number(n)) => Some(n.real),
        _ => None,
    }
}

/// A JSON number as a whole number below 2^64, where it was written as one.
pub open spec fn whole_of(j: Option<JsonView>) -> Option<u64> {
    match j {
        Some(JsonView::Number(n)) => n.whole,
        _ => None,
    }
}

/// The entries of a JSON object.
pub open spec fn object_of(j: Option<JsonView>) -> Option<Seq<(Seq<char>, JsonView)>> {
    match j {
        Some(JsonView::Object(m)) => Some(m),
        _ => None,
    }
}

/// The items of a JSON array.
pub open spec fn array_of(j: Option<JsonView>) -> Option<Seq<JsonView>> {
    match j {
        Some(JsonView::Array(v)) => Some(v),
        _ => None,
    }
}

/// A value is nested at most `depth` arrays and objects deep.
pub open spec fn within(j: JsonView, depth: nat) -> bool
    decreases j,
{
    match j {
        JsonView::Array(v) => depth > 0 && forall|i: int| 0 <= i < v.len() ==> within(#[trigger] v[i], (depth - 1) as nat),
        JsonView::Object(m) => depth > 0 && forall|i: int|
            0 <= i < m.len() ==> within((#[trigger] m[i]).1, (depth - 1) as nat),
        _ => true,
    }
}

/// What an entry at the end adds.
pub broadcast proof fn lemma_lookup_push(
    m: Seq<(Seq<char>, JsonView)>,
    entry: (Seq<char>, JsonView),
    key: Seq<char>,
)
    ensures
        #[trigger] lookup(m.push(entry), key) == (if entry.0 == key {
            Some(entry.1)
        } else {
            lookup(m, key)
        }),
{
    assert(m.push(entry).drop_last() =~= m);
}

/// A key is there exactly if some entry has it.
pub proof fn lemma_lookup(m: Seq<(Seq<char>, JsonView)>, key: Seq<char>)
    ensures
        lookup(m, key) is Some <==> exists|i: int| 0 <= i < m.len() && (#[trigger] m[i]).0 == key,
        lookup(m, key) matches Some(v) ==> exists|i: int| 0 <= i < m.len() && #[trigger] m[i] == (key, v),
    decreases m.len(),
{
    if m.len() > 0 {
        lemma_lookup(m.drop_last(), key);
        if m.last().0 != key {
            if let Some(v) = lookup(m, key) {
                let i = choose|i: int| 0 <= i < m.len() - 1 && #[trigger] m.drop_last()[i] == (key, v);
                assert(m[i] == (key, v));
            }
            if exists|i: int| 0 <= i < m.len() && (#[trigger] m[i]).0 == key {
                let i = choose|i: int| 0 <= i < m.len() && (#[trigger] m[i]).0 == key;
                assert(m.drop_last()[i].0 == key);
            }
        } else {
            assert(m[m.len() - 1] == (key, m.last().1));
        }
    }
}

/// In entries whose keys are distinct, an entry is what its key leads to.
pub proof fn lemma_lookup_at(m: Seq<(Seq<char>, JsonView)>, i: int)
    requires
        distinct(m),
        0 <= i < m.len(),
    ensures
        lookup(m, m[i].0) == Some(m[i].1),
{
    lemma_lookup(m, m[i].0);
    let v = lookup(m, m[i].0)->0;
    let j = choose|j: int| 0 <= j < m.len() && #[trigger] m[j] == (m[i].0, v);
    if i < j {
        assert(m[i].0 != m[j].0);
    } else if j < i {
        assert(m[j].0 != m[i].0);
    }
}

/// What was set under a key is read back there, every other key reads as before, and the
/// keys stay distinct.
pub proof fn lemma_with(m: Seq<(Seq<char>, JsonView)>, key: Seq<char>, value: JsonView, other: Seq<char>)
    requires
        distinct(m),
    ensures
        lookup(with(m, key, value), key) == Some(value),
        other != key ==> lookup(with(m, key, value), other) == lookup(m, other),
        distinct(with(m, key, value)),
{
    let w = with(m, key, value);
    lemma_lookup(m, key);
    lemma_lookup(m, other);
    lemma_lookup(w, key);
    lemma_lookup(w, other);
    assert(distinct(w)) by {
        assert forall|i: int, j: int| 0 <= i < j < w.len() implies (#[trigger] w[i]).0 != (#[trigger] w[j]).0 by {
            if lookup(m, key) is Some {
                assert(m[i].0 != m[j].0);
            } else if j < m.len() {
                assert(m[i].0 != m[j].0);
            } else {
                assert(m[i].0 != key);
            }
        }
    }
    if lookup(m, key) is Some {
        let i = choose|i: int| 0 <= i < m.len() && (#[trigger] m[i]).0 == key;
        assert(w[i] == (key, value));
        lemma_lookup_at(w, i);
    } else {
        assert(w[m.len() as int] == (key, value));
        lemma_lookup_at(w, m.len() as int);
    }
    if other != key {
        if let Some(v) = lookup(m, other) {
            let i = choose|i: int| 0 <= i < m.len() && #[trigger] m[i] == (other, v);
            assert(w[i] == m[i]);
            lemma_lookup_at(w, i);
        } else {
            assert forall|i: int| 0 <= i < w.len() implies (#[trigger] w[i]).0 != other by {
                if i < m.len() {
                    assert(m[i].0 != other);
                }
            }
        }
    }
}

/// Taking a key out leaves every other entry, in order, and the keys distinct.
pub proof fn lemma_without(m: Seq<(Seq<char>, JsonView)>, key: Seq<char>, other: Seq<char>)
    requires
        distinct(m),
    ensures
        lookup(without(m, key), key) is None,
        other != key ==> lookup(without(m, key), other) == lookup(m, other),
        distinct(without(m, key)),
        without(m, key).len() <= m.len(),
        forall|i: int| 0 <= i < without(m, key).len() ==> m.contains(#[trigger] without(m, key)[i]),
    decreases m.len(),
{
    if m.len() > 0 {
        let rest = m.drop_last();
        assert(distinct(rest)) by {
            assert forall|i: int, j: int| 0 <= i < j < rest.len() implies (#[trigger] rest[i]).0 != (
            #[trigger] rest[j]).0 by {
                assert(m[i].0 != m[j].0);
            }
        }
        lemma_without(rest, key, other);
        let w = without(m, key);
        let before = without(rest, key);
        assert forall|i: int| 0 <= i < w.len() implies m.contains(#[trigger] w[i]) by {
            if i < before.len() {
                assert(rest.contains(before[i]));
                let k = choose|k: int| 0 <= k < rest.len() && rest[k] == before[i];
                assert(m[k] == w[i]);
            } else {
                assert(m[m.len() - 1] == w[i]);
            }
        }
        if m.last().0 != key {
            assert(w.drop_last() =~= before);
            assert forall|i: int, j: int| 0 <= i < j < w.len() implies (#[trigger] w[i]).0 != (#[trigger] w[j]).0 by {
                if j == before.len() {
                    assert(rest.contains(before[i]));
                    let k = choose|k: int| 0 <= k < rest.len() && rest[k] == before[i];
                    assert(m[k].0 != m[m.len() - 1].0);
                } else {
                    assert(before[i].0 != before[j].0);
                }
            }
        } else {
            if other != key {
                assert(lookup(m, other) == lookup(rest, other));
            }
        }
    }
}

impl Object {
    /// An object without entries.
    pub fn new() -> (r: Object)
        ensures
            r@ == Seq::<(Seq<char>, JsonView)>::empty(),
    {
        let r = Object { entries: Vec::new() };
        proof {
            assert(r@ =~= Seq::empty());
        }
        r
    }

    /// The object with these entries.
    pub(crate) fn from_entries(entries: Vec<(String, Json)>) -> (r: Object)
        requires
            distinct(entries_view(entries@)),
        ensures
            r@ == entries_view(entries@),
    {
        Object { entries }
    }

    /// How many entries there are.
    pub fn len(&self) -> (r: usize)
        ensures
            r == self@.len(),
            distinct(self@),
    {
        proof {
            use_type_invariant(self);
        }
        self.entries.len()
    }

    /// Whether there are no entries.
    pub fn is_empty(&self) -> (r: bool)
        ensures
            r == (self@.len() == 0),
    {
        self.entries.len() == 0
    }

    /// The key of the entry at a position.
    pub fn key_at(&self, i: usize) -> (r: &str)
        requires
            i < self@.len(),
        ensures
            r@ == self@[i as int].0,
    {
        self.entries[i].0.as_str()
    }

    /// The value of the entry at a position.
    pub fn value_at(&self, i: usize) -> (r: &Json)
        requires
            i < self@.len(),
        ensures
            r@ == self@[i as int].1,
    {
        &self.entries[i].1
    }

    fn position(&self, key: &str) -> (r: Option<usize>)
        ensures
            match r {
                Some(i) => i < self@.len() && self@[i as int].0 == key@ && lookup(self@, key@) == Some(self@[i as int].1),
                None => lookup(self@, key@) is None,
            },
    {
        let mut i: usize = self.entries.len();
        proof {
            assert(self@.take(i as int) =~= self@);
        }
        while i > 0
            invariant
                i <= self@.len(),
                self@ == entries_view(self.entries@),
                lookup(self@, key@) == lookup(self@.take(i as int), key@),
            decreases i,
        {
            proof {
                assert(self@.take(i as int).last() == self@[i - 1]);
                assert(self@.take(i as int).drop_last() =~= self@.take(i - 1));
            }
            if text::same(self.entries[i - 1].0.as_str(), key) {
                return Some(i - 1);
            }
            i -= 1;
        }
        None
    }

    /// The value under a key.
    pub fn get(&self, key: &str) -> (r: Option<&Json>)
        ensures
            match r {
                Some(v) => lookup(self@, key@) == Some(v@),
                None => lookup(self@, key@) is None,
            },
    {
        match self.position(key) {
            Some(i) => Some(&self.entries[i].1),
            None => None,
        }
    }

    /// Whether a key is there.
    pub fn contains_key(&self, key: &str) -> (r: bool)
        ensures
            r == (lookup(self@, key@) is Some),
    {
        self.position(key).is_some()
    }

    /// The object with a key set: in place where it was there, else at the end.
    pub fn with(self, key: &str, value: Json) -> (r: Object)
        ensures
            r@ == with(self@, key@, value@),
    {
        let ghost before = self@;
        let found = self.position(key);
        proof {
            use_type_invariant(&self);
            lemma_with(before, key@, value@, key@);
            lemma_lookup(before, key@);
        }
        let mut entries = self.entries;
        match found {
            Some(i) => {
                entries.set(i, (key.to_owned(), value));
                proof {
                    assert(entries_view(entries@) =~= with(before, key@, value@)) by {
                        assert forall|j: int| 0 <= j < before.len() implies #[trigger] entries_view(entries@)[j] == with(
                            before,
                            key@,
                            value@,
                        )[j] by {
                            if j < i {
                                assert(before[j].0 != before[i as int].0);
                            } else if j > i {
                                assert(before[i as int].0 != before[j].0);
                            }
                        }
                    }
                }
            },
            None => {
                entries.push((key.to_owned(), value));
                proof {
                    assert(entries_view(entries@) =~= with(before, key@, value@));
                }
            },
        }
        Object { entries }
    }

    /// The object without a key.
    pub fn without(&self, key: &str) -> (r: Object)
        ensures
            r@ == without(self@, key@),
    {
        proof {
            use_type_invariant(self);
            lemma_without(self@, key@, key@);
        }
        let mut entries: Vec<(String, Json)> = Vec::new();
        let mut i: usize = 0;
        proof {
            assert(entries_view(entries@) =~= without(self@.take(0), key@));
        }
        while i < self.entries.len()
            invariant
                i <= self@.len(),
                self@ == entries_view(self.entries@),
                entries_view(entries@) == without(self@.take(i as int), key@),
            decreases self@.len() - i,
        {
            proof {
                assert(self@.take(i + 1).last() == self@[i as int]);
                assert(self@.take(i + 1).drop_last() =~= self@.take(i as int));
            }
            let ghost before = entries_view(entries@);
            if !text::same(self.entries[i].0.as_str(), key) {
                entries.push((self.entries[i].0.clone(), self.entries[i].1.clone()));
                proof {
                    assert(entries_view(entries@) =~= before.push(self@[i as int]));
                }
            }
            i += 1;
        }
        proof {
            assert(self@.take(self@.len() as int) =~= self@);
        }
        Object { entries }
    }
}

impl Clone for Object {
    fn clone(&self) -> (r: Object)
        ensures
            r@ == self@,
        decreases self,
    {
        let mut entries: Vec<(String, Json)> = Vec::new();
        let mut i: usize = 0;
        while i < self.entries.len()
            invariant
                i <= self@.len(),
                self@ == entries_view(self.entries@),
                entries_view(entries@) =~= self@.take(i as int),
            decreases self@.len() - i,
        {
            let ghost before = entries@;
            entries.push((self.entries[i].0.clone(), self.entries[i].1.clone()));
            proof {
                assert(entries_view(entries@) =~= entries_view(before).push(self@[i as int]));
            }
            i += 1;
        }
        proof {
            use_type_invariant(self);
            assert(entries_view(entries@) =~= self@);
        }
        Object { entries }
    }
}

impl Clone for Json {
    fn clone(&self) -> (r: Json)
        ensures
            r@ == self@,
        decreases self,
    {
        match self {
            Json::Null => Json::Null,
            Json::Bool(b) => Json::Bool(*b),
            Json::Number(n) => Json::Number(n.clone()),
            Json::Text(s) => Json::Text(s.clone()),
            Json::Array(v) => {
                let mut out: Vec<Json> = Vec::new();
                let mut i: usize = 0;
                while i < v.len()
                    invariant
                        *self == Json::Array(*v),
                        i <= v@.len(),
                        items_view(out@) =~= items_view(v@).take(i as int),
                    decreases v@.len() - i,
                {
                    let ghost before = out@;
                    proof {
                        assert(decreases_to!(self => self->Array_0));
                        assert(decreases_to!(self->Array_0 => self->Array_0[i as int]));
                    }
                    out.push(v[i].clone());
                    proof {
                        assert(items_view(out@) =~= items_view(before).push(items_view(v@)[i as int]));
                    }
                    i += 1;
                }
                proof {
                    assert(items_view(out@) =~= items_view(v@));
                }
                Json::Array(out)
            },
            Json::Object(o) => Json::Object(o.clone()),
        }
    }
}

impl Json {
    /// The value under a key of an object; nothing for any other JSON value.
    pub fn get(&self, key: &str) -> (r: Option<&Json>)
        ensures
            match r {
                Some(v) => field(self@, key@) == Some(v@),
                None => field(self@, key@) is None,
            },
    {
        match self {
            Json::Object(o) => o.get(key),
            _ => None,
        }
    }

    /// The text of a string.
    pub fn as_str(&self) -> (r: Option<&str>)
        ensures
            match r {
                Some(s) => text_of(Some(self@)) == Some(s@),
                None => text_of(Some(self@)) is None,
            },
    {
        match self {
            Json::Text(s) => Some(s.as_str()),
            _ => None,
        }
    }

    /// The double nearest to a number.
    pub fn as_real(&self) -> (r: Option<&Real>)
        ensures
            match r {
                Some(x) => real_of(Some(self@)) == Some(x@),
                None => real_of(Some(self@)) is None,
            },
    {
        match self {
            Json::Number(n) => Some(&n.real),
            _ => None,
        }
    }

    /// A number as a whole number below 2^64.
    pub fn as_u64(&self) -> (r: Option<u64>)
        ensures
            r == whole_of(Some(self@)),
    {
        match self {
            Json::Number(n) => n.whole,
            _ => None,
        }
    }

    /// The entries of an object.
    pub fn as_object(&self) -> (r: Option<&Object>)
        ensures
            match r {
                Some(o) => object_of(Some(self@)) == Some(o@),
                None => object_of(Some(self@)) is None,
            },
    {
        match self {
            Json::Object(o) => Some(o),
            _ => None,
        }
    }

    /// The items of an array.
    pub fn as_array(&self) -> (r: Option<&Vec<Json>>)
        ensures
            match r {
                Some(v) => array_of(Some(self@)) == Some(items_view(v@)),
                None => array_of(Some(self@)) is None,
            },
    {
        match self {
            Json::Array(v) => Some(v),
            _ => None,
        }
    }
}

}
