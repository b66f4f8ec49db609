//! Rewriting of JSON documents: every string value has one base URL replaced
//! by another, and nothing else changes.
//!
//! Documents are parsed, held and printed by `serde_json`. A document is
//! described here by a mathematical model, [`JsonModel`], and the rewriting is
//! stated over that model.

use crate::text::{law_replace_without_occurrence, occurs_in, replace, replace_all};
use vstd::prelude::*;

verus! {

/// `serde_json::Value`, a JSON value. What one holds is told by
/// [`json_model`].
#[verifier::external_type_specification]
#[verifier::external_body]
pub struct ExJsonValue(serde_json::Value);

/// `serde_json::Error`, of which nothing is known here.
#[verifier::external_type_specification]
#[verifier::external_body]
pub struct ExJsonError(serde_json::Error);

/// What a JSON value holds.
pub enum JsonModel {
    /// `null`, `true`, `false` or a number: the value itself.
    Scalar(serde_json::Value),
    /// A string.
    Text(Seq<char>),
    /// An array, with its items in order.
    List(Seq<JsonModel>),
    /// An object, with its members in the order in which the value holds them.
    Record(Seq<(Seq<char>, JsonModel)>),
}

/// The parts that a JSON value is made of, one level deep.
pub enum JsonParts {
    /// `null`, `true`, `false` or a number.
    Leaf(serde_json::Value),
    /// A string.
    Text(String),
    /// The items of an array.
    Items(Vec<serde_json::Value>),
    /// The members of an object: each key with its value.
    Members(Vec<(String, serde_json::Value)>),
}

/// What the value `value` holds.
pub uninterp spec fn json_model(value: serde_json::Value) -> JsonModel;

/// What `serde_json::from_slice` makes of `bytes`: the document, or `None`
/// where it reports an error.
pub uninterp spec fn json_parsed(bytes: Seq<u8>) -> Option<JsonModel>;

/// What `serde_json::to_vec` prints for a value that holds `model`, or `None`
/// where it reports an error.
pub uninterp spec fn json_printed(model: JsonModel) -> Option<Seq<u8>>;

/// The models of `items`, in order.
pub open spec fn item_models(items: Seq<serde_json::Value>) -> Seq<JsonModel> {
    Seq::new(items.len(), |i: int| json_model(items[i]))
}

/// The keys of `members` with the models of their values, in order.
pub open spec fn member_models(members: Seq<(String, serde_json::Value)>) -> Seq<
    (Seq<char>, JsonModel),
> {
    Seq::new(members.len(), |i: int| (members[i].0@, json_model(members[i].1)))
}

/// The keys of an object's members, in order.
pub open spec fn member_keys(members: Seq<(Seq<char>, JsonModel)>) -> Seq<Seq<char>> {
    Seq::new(members.len(), |i: int| members[i].0)
}

/// `value` is an object whose members have the keys `keys`, in this order.
pub open spec fn is_object_with_keys(value: serde_json::Value, keys: Seq<Seq<char>>) -> bool {
    json_model(value) matches JsonModel::Record(members) && member_keys(members) == keys
}

/// Some object has members with the keys `keys`, in this order.
pub open spec fn keys_of_an_object(keys: Seq<Seq<char>>) -> bool {
    exists|value: serde_json::Value| is_object_with_keys(value, keys)
}

/// `model` with `from` replaced by `to` in every string value. Keys of
/// objects, scalars and the shape of the document stay as they are.
pub open spec fn rewrite_model(model: JsonModel, from: Seq<char>, to: Seq<char>) -> JsonModel
    decreases model,
{
    match model {
        JsonModel::Scalar(value) => JsonModel::Scalar(value),
        JsonModel::Text(text) => JsonModel::Text(replace_all(text, from, to)),
        JsonModel::List(items) => JsonModel::List(
            Seq::new(
                items.len(),
                |i: int|
                    if 0 <= i < items.len() {
                        rewrite_model(items[i], from, to)
                    } else {
                        arbitrary()
                    },
            ),
        ),
        JsonModel::Record(members) => JsonModel::Record(
            Seq::new(
                members.len(),
                |i: int|
                    if 0 <= i < members.len() {
                        (members[i].0, rewrite_model(members[i].1, from, to))
                    } else {
                        arbitrary()
                    },
            ),
        ),
    }
}

/// `from` occurs in some string value of `model`.
pub open spec fn mentions(model: JsonModel, from: Seq<char>) -> bool
    decreases model,
{
    match model {
        JsonModel::Scalar(_) => false,
        JsonModel::Text(text) => occurs_in(text, from),
        JsonModel::List(items) => exists|i: int|
            0 <= i < items.len() && mentions(#[trigger] items[i], from),
        JsonModel::Record(members) => exists|i: int|
            0 <= i < members.len() && mentions((#[trigger] members[i]).1, from),
    }
}

/// `b` has the shape of `a`: the two differ at most in what their string
/// values hold. Scalars are the same, arrays have as many items, objects have
/// the same keys in the same order.
pub open spec fn same_shape(a: JsonModel, b: JsonModel) -> bool
    decreases a,
{
    match a {
        JsonModel::Scalar(_) => b == a,
        JsonModel::Text(_) => b is Text,
        JsonModel::List(items) => b matches JsonModel::List(others) && others.len() == items.len()
            && forall|i: int|
            0 <= i < items.len() ==> same_shape(#[trigger] items[i], others[i]),
        JsonModel::Record(members) => b matches JsonModel::Record(others) && others.len()
            == members.len() && forall|i: int|
            0 <= i < members.len() ==> others[i].0 == (#[trigger] members[i]).0 && same_shape(
                members[i].1,
                others[i].1,
            ),
    }
}

/// The rewriting changes no structure and no value but strings: the
/// rewritten document has the shape of the document.
pub proof fn law_rewrite_keeps_shape(model: JsonModel, from: Seq<char>, to: Seq<char>)
    ensures
        same_shape(model, rewrite_model(model, from, to)),
    decreases model,
{
    match model {
        JsonModel::Scalar(_) => {},
        JsonModel::Text(_) => {},
        JsonModel::List(items) => {
            assert forall|i: int| 0 <= i < items.len() implies same_shape(
                #[trigger] items[i],
                rewrite_model(model, from, to)->List_0[i],
            ) by {
                law_rewrite_keeps_shape(items[i], from, to);
            }
        },
        JsonModel::Record(members) => {
            assert forall|i: int| 0 <= i < members.len() implies same_shape(
                (#[trigger] members[i]).1,
                rewrite_model(model, from, to)->Record_0[i].1,
            ) by {
                law_rewrite_keeps_shape(members[i].1, from, to);
            }
        },
    }
}

/// A document in whose string values `from` does not occur is not changed
/// by the rewriting.
pub proof fn law_rewrite_without_occurrence(model: JsonModel, from: Seq<char>, to: Seq<char>)
    requires
        !mentions(model, from),
    ensures
        rewrite_model(model, from, to) == model,
    decreases model,
{
    match model {
        JsonModel::Scalar(_) => {},
        JsonModel::Text(text) => {
            law_replace_without_occurrence(text, from, to);
        },
        JsonModel::List(items) => {
            assert forall|i: int| 0 <= i < items.len() implies rewrite_model(
                #[trigger] items[i],
                from,
                to,
            ) == items[i] by {
                law_rewrite_without_occurrence(items[i], from, to);
            }
            assert(rewrite_model(model, from, to)->List_0 =~= items);
        },
        JsonModel::Record(members) => {
            assert forall|i: int| 0 <= i < members.len() implies rewrite_model(
                (#[trigger] members[i]).1,
                from,
                to,
            ) == members[i].1 by {
                law_rewrite_without_occurrence(members[i].1, from, to);
            }
            assert(rewrite_model(model, from, to)->Record_0 =~= members);
        },
    }
}

/// Calls `serde_json::from_slice` for a `serde_json::Value`. The result is
/// named by [`json_parsed`]: nothing is claimed of which bytes parse.
#[verifier::external_body]
pub(crate) fn parse_value(bytes: &[u8]) -> (parsed: Result<serde_json::Value, serde_json::Error>)
    ensures
        match parsed {
            Ok(value) => json_parsed(bytes@) == Some(json_model(value)),
            Err(_) => json_parsed(bytes@) is None,
        },
{
    serde_json::from_slice(bytes)
}

/// Calls `serde_json::to_vec` on a value. The result is named by
/// [`json_printed`]: a function of what the value holds.
#[verifier::external_body]
pub(crate) fn print_value(value: &serde_json::Value) -> (printed: Result<
    Vec<u8>,
    serde_json::Error,
>)
    ensures
        match printed {
            Ok(bytes) => json_printed(json_model(*value)) == Some(bytes@),
            Err(_) => json_printed(json_model(*value)) is None,
        },
{
    serde_json::to_vec(value)
}

/// Takes a `serde_json::Value` apart by its variant: a string gives its text,
/// an array its items, an object its members in the order in which its map
/// hands them out, and any other value is handed back whole.
#[verifier::external_body]
fn take_parts(value: serde_json::Value) -> (parts: JsonParts)
    ensures
        match parts {
            JsonParts::Leaf(leaf) => leaf == value && json_model(value) == JsonModel::Scalar(
                value,
            ),
            JsonParts::Text(text) => json_model(value) == JsonModel::Text(text@),
            JsonParts::Items(items) => json_model(value) == JsonModel::List(item_models(items@)),
            JsonParts::Members(members) => json_model(value) == JsonModel::Record(
                member_models(members@),
            ),
        },
{
    match value {
        serde_json::Value::String(text) => JsonParts::Text(text),
        serde_json::Value::Array(items) => JsonParts::Items(items),
        serde_json::Value::Object(members) => JsonParts::Members(members.into_iter().collect()),
        leaf => JsonParts::Leaf(leaf),
    }
}

/// Makes the `serde_json::Value` that is the string `text`.
#[verifier::external_body]
fn text_value(text: String) -> (value: serde_json::Value)
    ensures
        json_model(value) == JsonModel::Text(text@),
{
    serde_json::Value::String(text)
}

/// Makes the `serde_json::Value` that is the array of `items`.
#[verifier::external_body]
fn list_value(items: Vec<serde_json::Value>) -> (value: serde_json::Value)
    ensures
        json_model(value) == JsonModel::List(item_models(items@)),
{
    serde_json::Value::Array(items)
}

/// Makes the `serde_json::Value` that is an object, by collecting `members`
/// into a `serde_json::Map`. Where the keys, in this order, are the keys of
/// some object, they are distinct and in the order in which a map holds them,
/// and the object that is made holds exactly `members`. Of other keys nothing
/// is claimed: the map may drop or reorder members.
#[verifier::external_body]
fn record_value(members: Vec<(String, serde_json::Value)>) -> (value: serde_json::Value)
    ensures
        keys_of_an_object(member_keys(member_models(members@))) ==> json_model(value)
            == JsonModel::Record(member_models(members@)),
{
    serde_json::Value::Object(members.into_iter().collect())
}

/// Replaces `from` by `to` in every string value of `value`.
pub fn rewrite_value(value: serde_json::Value, from: &str, to: &str) -> (out: serde_json::Value)
    ensures
        json_model(out) == rewrite_model(json_model(value), from@, to@),
    decreases json_model(value),
{
    let ghost model = json_model(value);
    match take_parts(value) {
        JsonParts::Leaf(leaf) => leaf,
        JsonParts::Text(text) => text_value(replace(text.as_str(), from, to)),
        JsonParts::Items(items) => {
            let ghost before = items@;
            let mut rewritten: Vec<serde_json::Value> = Vec::new();
            for item in it: items
                invariant
                    it.seq() == before,
                    model == json_model(value),
                    model == JsonModel::List(item_models(before)),
                    rewritten@.len() == it.index(),
                    forall|k: int|
                        0 <= k < rewritten@.len() ==> json_model(#[trigger] rewritten@[k])
                            == rewrite_model(json_model(before[k]), from@, to@),
            {
                assert(item_models(before)[it.index() as int] == json_model(item));
                assert(decreases_to!(model => model->List_0[it.index() as int]));
                let out = rewrite_value(item, from, to);
                rewritten.push(out);
            }
            let out = list_value(rewritten);
            assert(item_models(rewritten@) =~= rewrite_model(model, from@, to@)->List_0);
            out
        },
        JsonParts::Members(members) => {
            let ghost before = members@;
            let mut rewritten: Vec<(String, serde_json::Value)> = Vec::new();
            for member in it: members
                invariant
                    it.seq() == before,
                    model == json_model(value),
                    model == JsonModel::Record(member_models(before)),
                    rewritten@.len() == it.index(),
                    forall|k: int|
                        0 <= k < rewritten@.len() ==> (#[trigger] rewritten@[k]).0@ == before[k].0@
                            && json_model(rewritten@[k].1) == rewrite_model(
                            json_model(before[k].1),
                            from@,
                            to@,
                        ),
            {
                assert(member_models(before)[it.index() as int].1 == json_model(member.1));
                assert(decreases_to!(model => model->Record_0[it.index() as int].1));
                let (key, inner) = member;
                let out = rewrite_value(inner, from, to);
                rewritten.push((key, out));
            }
            assert(is_object_with_keys(value, member_keys(member_models(rewritten@)))) by {
                assert(member_keys(member_models(rewritten@)) =~= member_keys(
                    member_models(before),
                ));
            }
            let out = record_value(rewritten);
            assert(member_models(rewritten@) =~= rewrite_model(model, from@, to@)->Record_0);
            out
        },
    }
}

} // verus!
