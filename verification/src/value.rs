//! The document model: a tagged tree of JSON-like values.

use vstd::prelude::*;
use crate::diff_types::ValueType;

verus! {

/// The mathematical model of a document node.
pub enum Json {
    Null,
    Bool(bool),
    /// A number, as its canonical decimal text.
    Number(Seq<char>),
    String(Seq<char>),
    Array(Seq<Json>),
    /// The entries of an object: key and value, in visiting order.
    Object(Seq<(Seq<char>, Json)>),
}

/// No key occurs twice among `entries`.
pub open spec fn distinct_keys(entries: Seq<(Seq<char>, Json)>) -> bool {
    forall|i: int, j: int|
        0 <= i < j < entries.len() ==> (#[trigger] entries[i]).0 != (#[trigger] entries[j]).0
}

impl Json {
    pub open spec fn kind(self) -> ValueType {
        match self {
            Json::Null => ValueType::Null,
            Json::Bool(_) => ValueType::Boolean,
            Json::Number(_) => ValueType::Number,
            Json::String(_) => ValueType::String,
            Json::Array(_) => ValueType::Array,
            Json::Object(_) => ValueType::Object,
        }
    }

    /// A boolean, a number or a string.
    pub open spec fn is_primitive(self) -> bool {
        self is Bool || self is Number || self is String
    }
}

/// Every object in the tree names each of its keys once.
pub open spec fn well_formed(value: Json) -> bool
    decreases value,
{
    match value {
        Json::Array(items) => forall|i: int|
            0 <= i < items.len() ==> well_formed(#[trigger] items[i]),
        Json::Object(entries) => distinct_keys(entries) && forall|i: int|
            0 <= i < entries.len() ==> well_formed((#[trigger] entries[i]).1),
        _ => true,
    }
}

/// An array is well formed when its items are.
pub proof fn lemma_well_formed_array(items: Seq<Json>)
    ensures
        well_formed(Json::Array(items)) == (forall|i: int|
            0 <= i < items.len() ==> well_formed(#[trigger] items[i])),
{
    assert(Json::Array(items)->Array_0 == items);
}

/// An object is well formed when its keys are distinct and its values are
/// well formed.
pub proof fn lemma_well_formed_object(entries: Seq<(Seq<char>, Json)>)
    ensures
        well_formed(Json::Object(entries)) == (distinct_keys(entries) && forall|i: int|
            0 <= i < entries.len() ==> well_formed((#[trigger] entries[i]).1)),
{
}

impl Json {
    /// Every object in the tree names each of its keys once.
    pub open spec fn well_formed(self) -> bool {
        well_formed(self)
    }
}

/// A parsed document node.
#[derive(Debug, PartialEq)]
pub enum Value {
    Null,
    Bool(bool),
    /// A number, held as its canonical decimal text. Two numbers are equal
    /// when their texts are.
    Number(String),
    String(String),
    Array(Vec<Value>),
    /// The entries of an object, in the order in which they are visited. A
    /// lookup by key finds the first entry of that key.
    Object(Vec<(String, Value)>),
}

/// The model of a value: the same tree over sequences.
pub open spec fn model(value: Value) -> Json
    decreases value,
{
    match value {
        Value::Null => Json::Null,
        Value::Bool(b) => Json::Bool(b),
        Value::Number(n) => Json::Number(n@),
        Value::String(s) => Json::String(s@),
        Value::Array(items) => Json::Array(
            Seq::new(
                items@.len(),
                |i: int|
                    if 0 <= i < items@.len() {
                        model(items@[i])
                    } else {
                        Json::Null
                    },
            ),
        ),
        Value::Object(entries) => Json::Object(
            Seq::new(
                entries@.len(),
                |i: int|
                    if 0 <= i < entries@.len() {
                        (entries@[i].0@, model(entries@[i].1))
                    } else {
                        (Seq::empty(), Json::Null)
                    },
            ),
        ),
    }
}

impl View for Value {
    type V = Json;

    open spec fn view(&self) -> Json {
        model(*self)
    }
}

impl DeepView for Value {
    type V = Json;

    open spec fn deep_view(&self) -> Json {
        self@
    }
}

/// The model of an array is the sequence of its items' models.
pub proof fn lemma_array_view(items: Vec<Value>)
    ensures
        Value::Array(items)@ == Json::Array(items.deep_view()),
{
    assert(Value::Array(items)@->Array_0 =~= items.deep_view());
}

/// The model of an object is the sequence of its entries' models.
pub proof fn lemma_object_view(entries: Vec<(String, Value)>)
    ensures
        Value::Object(entries)@ == Json::Object(entries.deep_view()),
{
    assert(Value::Object(entries)@->Object_0 =~= entries.deep_view());
}

impl Value {
    pub fn kind(&self) -> (kind: ValueType)
        ensures
            kind == self@.kind(),
    {
        match self {
            Value::Null => ValueType::Null,
            Value::Bool(_) => ValueType::Boolean,
            Value::Number(_) => ValueType::Number,
            Value::String(_) => ValueType::String,
            Value::Array(_) => ValueType::Array,
            Value::Object(_) => ValueType::Object,
        }
    }
}

/// The depth of nesting beyond which a caller should refuse a document. A
/// comparison calls itself once for each level of nesting, so the depth of a
/// document bounds the depth of the calls.
pub const NESTING_LIMIT: usize = 128;

/// The value nests arrays and objects no deeper than `limit`: a primitive or
/// null always, an array or an object where `limit` is positive and what it
/// holds nests no deeper than `limit - 1`.
pub open spec fn nests_within(value: Json, limit: nat) -> bool
    decreases value,
{
    match value {
        Json::Array(items) => limit > 0 && forall|i: int|
            0 <= i < items.len() ==> nests_within(#[trigger] items[i], (limit - 1) as nat),
        Json::Object(entries) => limit > 0 && forall|i: int|
            0 <= i < entries.len() ==> nests_within(
                (#[trigger] entries[i]).1,
                (limit - 1) as nat,
            ),
        _ => true,
    }
}

/// Tells whether every entry nests no deeper than `limit`.
pub fn entries_nest_within(entries: &Vec<(String, Value)>, limit: usize) -> (within: bool)
    ensures
        within == forall|i: int|
            0 <= i < entries.len() ==> nests_within(
                (#[trigger] entries.deep_view()[i]).1,
                limit as nat,
            ),
    decreases entries,
{
    let mut i: usize = 0;
    while i < entries.len()
        invariant
            i <= entries.len(),
            forall|k: int|
                0 <= k < i ==> nests_within((#[trigger] entries.deep_view()[k]).1, limit as nat),
        decreases entries.len() - i,
    {
        assert(entries.deep_view()[i as int].1 == entries@[i as int].1@);
        assert(decreases_to!(entries => entries[i as int]));
        assert(decreases_to!(entries[i as int] => entries[i as int].1));
        if !value_nests_within(&entries[i].1, limit) {
            return false;
        }
        i += 1;
    }
    true
}

/// Tells whether the value nests arrays and objects no deeper than `limit`.
/// The call itself nests no deeper than `limit` calls.
pub fn value_nests_within(value: &Value, limit: usize) -> (within: bool)
    ensures
        within == nests_within(value@, limit as nat),
    decreases value,
{
    match value {
        Value::Array(items) => {
            proof {
                lemma_array_view(*items);
                assert(Json::Array(items.deep_view())->Array_0 == items.deep_view());
            }
            if limit == 0 {
                return false;
            }
            let mut i: usize = 0;
            while i < items.len()
                invariant
                    i <= items.len(),
                    limit > 0,
                    *value == Value::Array(*items),
                    value@ == Json::Array(items.deep_view()),
                    Json::Array(items.deep_view())->Array_0 == items.deep_view(),
                    forall|k: int|
                        0 <= k < i ==> nests_within(
                            #[trigger] items.deep_view()[k],
                            (limit - 1) as nat,
                        ),
                decreases items.len() - i,
            {
                assert(items.deep_view()[i as int] == items@[i as int]@);
                assert(decreases_to!(value => value->Array_0));
                if !value_nests_within(&items[i], limit - 1) {
                    return false;
                }
                i += 1;
            }
            true
        },
        Value::Object(entries) => {
            proof {
                lemma_object_view(*entries);
                assert(Json::Object(entries.deep_view())->Object_0 == entries.deep_view());
                assert(decreases_to!(value => value->Object_0));
            }
            limit > 0 && entries_nest_within(entries, limit - 1)
        },
        _ => true,
    }
}

} // verus!
