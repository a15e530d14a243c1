//! The canonical text of a value: compact JSON.

use vstd::prelude::*;
use vstd::string::*;
use crate::value::{lemma_array_view, lemma_object_view, Json, Value};

verus! {

/// The text that serde_json writes for a string: the string in double quotes,
/// with the characters escaped that JSON asks for.
pub uninterp spec fn json_quoted(s: Seq<char>) -> Seq<char>;

/// Calls serde_json's `Display` for `Value` on a JSON string. The result is
/// that crate's compact text of the string, which `json_quoted` names.
#[verifier::external_body]
fn quote(s: &str) -> (text: String)
    ensures
        text@ == json_quoted(s@),
{
    serde_json::Value::String(s.to_owned()).to_string()
}

/// The canonical text of a value. Numbers stand as their own text, strings as
/// serde_json quotes them; the items of an array and the entries of an object
/// follow in their order, separated by commas and without white space.
pub open spec fn canonical(value: Json) -> Seq<char>
    decreases value, 0nat,
{
    match value {
        Json::Null => "null"@,
        Json::Bool(b) => if b {
            "true"@
        } else {
            "false"@
        },
        Json::Number(text) => text,
        Json::String(s) => json_quoted(s),
        Json::Array(items) => seq!['['] + canonical_items(items, items.len()) + seq![']'],
        Json::Object(entries) => seq!['{'] + canonical_entries(entries, entries.len()) + seq!['}'],
    }
}

/// The canonical texts of the first `n` items, separated by commas.
pub open spec fn canonical_items(items: Seq<Json>, n: nat) -> Seq<char>
    decreases items, n,
{
    if n == 0 || n > items.len() {
        Seq::empty()
    } else if n == 1 {
        canonical(items[0])
    } else {
        canonical_items(items, (n - 1) as nat) + seq![','] + canonical(items[n - 1])
    }
}

/// The canonical texts of the first `n` entries, separated by commas; an entry
/// is its quoted key, a colon and the value's text.
pub open spec fn canonical_entries(entries: Seq<(Seq<char>, Json)>, n: nat) -> Seq<char>
    decreases entries, n,
{
    if n == 0 || n > entries.len() {
        Seq::empty()
    } else if n == 1 {
        json_quoted(entries[0].0) + seq![':'] + canonical(entries[0].1)
    } else {
        canonical_entries(entries, (n - 1) as nat) + seq![','] + json_quoted(entries[n - 1].0)
            + seq![':'] + canonical(entries[n - 1].1)
    }
}

/// The canonical texts of all the items, one for one.
pub open spec fn canonical_each(items: Seq<Json>) -> Seq<Seq<char>> {
    Seq::new(items.len(), |i: int| canonical(items[i]))
}

/// The comma that stands before every item and entry but the first.
pub open spec fn separator(first: bool) -> Seq<char> {
    if first {
        Seq::empty()
    } else {
        seq![',']
    }
}

/// Appends the text of an item to the text of an array, behind a comma
/// unless the item is the first.
pub fn append_item(text: &mut String, first: bool, item: &str)
    ensures
        final(text)@ == old(text)@ + separator(first) + item@,
{
    proof {
        reveal_strlit(",");
    }
    if !first {
        text.append(",");
    }
    text.append(item);
    assert(text@ =~= old(text)@ + separator(first) + item@);
}

/// Appends an entry to the text of an object, behind a comma unless the
/// entry is the first: the quoted key, a colon, and the text of the value.
pub fn append_entry(text: &mut String, first: bool, quoted_key: &str, item: &str)
    ensures
        final(text)@ == old(text)@ + separator(first) + quoted_key@ + seq![':'] + item@,
{
    proof {
        reveal_strlit(",");
        reveal_strlit(":");
    }
    if !first {
        text.append(",");
    }
    text.append(quoted_key);
    text.append(":");
    text.append(item);
    assert(text@ =~= old(text)@ + separator(first) + quoted_key@ + seq![':'] + item@);
}

/// Writes the canonical text of a value.
pub fn serialize(value: &Value) -> (text: String)
    ensures
        text@ == canonical(value@),
    decreases value,
{
    match value {
        Value::Null => "null".to_owned(),
        Value::Bool(b) => if *b {
            "true".to_owned()
        } else {
            "false".to_owned()
        },
        Value::Number(number) => number.clone(),
        Value::String(s) => quote(s.as_str()),
        Value::Array(items) => {
            proof {
                reveal_strlit("[");
                reveal_strlit("]");
                lemma_array_view(*items);
            }
            let mut text = "[".to_owned();
            let mut i: usize = 0;
            while i < items.len()
                invariant
                    i <= items.len(),
                    *value == Value::Array(*items),
                    text@ == seq!['['] + canonical_items(items.deep_view(), i as nat),
                decreases items.len() - i,
            {
                assert(decreases_to!(value => value->Array_0));
                let item = serialize(&items[i]);
                append_item(&mut text, i == 0, item.as_str());
                assert(text@ =~= seq!['['] + canonical_items(items.deep_view(), (i + 1) as nat));
                i += 1;
            }
            text.append("]");
            text
        },
        Value::Object(entries) => {
            proof {
                reveal_strlit("{");
                reveal_strlit("}");
                lemma_object_view(*entries);
            }
            let mut text = "{".to_owned();
            let mut i: usize = 0;
            while i < entries.len()
                invariant
                    i <= entries.len(),
                    *value == Value::Object(*entries),
                    text@ == seq!['{'] + canonical_entries(entries.deep_view(), i as nat),
                decreases entries.len() - i,
            {
                let key = quote(entries[i].0.as_str());
                assert(decreases_to!(value => value->Object_0));
                let item = serialize(&entries[i].1);
                append_entry(&mut text, i == 0, key.as_str(), item.as_str());
                assert(text@ =~= seq!['{'] + canonical_entries(
                    entries.deep_view(),
                    (i + 1) as nat,
                ));
                i += 1;
            }
            text.append("}");
            text
        },
    }
}

/// Writes the canonical text of each item.
pub fn serialize_each(items: &Vec<Value>) -> (texts: Vec<String>)
    ensures
        texts.deep_view() == canonical_each(items.deep_view()),
{
    let mut texts: Vec<String> = Vec::new();
    let mut i: usize = 0;
    while i < items.len()
        invariant
            i <= items.len(),
            texts@.len() == i,
            forall|k: int| 0 <= k < i ==> (#[trigger] texts@[k])@ == canonical(items@[k]@),
        decreases items.len() - i,
    {
        texts.push(serialize(&items[i]));
        i += 1;
    }
    texts
}

} // verus!
