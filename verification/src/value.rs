//! Between JSON trees and the values of `serde_json`, and from a tree to its text.

use vstd::prelude::*;

use crate::json::{Json, Member, number_view};
use crate::json::{JsonView, items_view, lemma_items_view, members_view};

verus! {

/// `serde_json`'s value.
#[verifier::external_type_specification]
#[verifier::external_body]
pub struct ExValue(serde_json::Value);

/// `serde_json`'s object.
#[verifier::external_type_specification]
#[verifier::external_body]
#[verifier::reject_recursive_types(K)]
#[verifier::reject_recursive_types(V)]
pub struct ExObject<K, V>(serde_json::Map<K, V>);

/// What a `serde_json` value holds.
pub uninterp spec fn value_view(value: serde_json::Value) -> JsonView;

/// What a `serde_json` object holds.
pub uninterp spec fn object_view(object: serde_json::Map<String, serde_json::Value>) -> Map<
    Seq<char>,
    JsonView,
>;

/// The compact JSON text that `serde_json` writes for a value.
pub uninterp spec fn json_text(value: JsonView) -> Seq<char>;

/// `serde_json::Value::Null` is JSON `null`.
#[verifier::external_body]
fn value_null() -> (value: serde_json::Value)
    ensures
        value_view(value) == JsonView::Null,
{
    serde_json::Value::Null
}

/// `serde_json::Value::from` on a `bool` holds it.
#[verifier::external_body]
fn value_bool(b: bool) -> (value: serde_json::Value)
    ensures
        value_view(value) == JsonView::Bool(b),
{
    serde_json::Value::from(b)
}

/// `serde_json::Value::from` on a number holds it.
#[verifier::external_body]
fn value_number(number: &serde_json::Number) -> (value: serde_json::Value)
    ensures
        value_view(value) == JsonView::Number(number_view(*number)),
{
    serde_json::Value::from(number.clone())
}

/// `serde_json::Value::from` on a `&str` holds its characters.
#[verifier::external_body]
fn value_text(text: &str) -> (value: serde_json::Value)
    ensures
        value_view(value) == JsonView::Text(text@),
{
    serde_json::Value::from(text)
}

/// `serde_json::Value::from` on a list of values holds them in their order.
#[verifier::external_body]
fn value_array(items: Vec<serde_json::Value>) -> (value: serde_json::Value)
    ensures
        value_view(value) == JsonView::Array(
            items@.map_values(|item: serde_json::Value| value_view(item)),
        ),
{
    serde_json::Value::from(items)
}

/// `serde_json::Value::from` on an object holds its members.
#[verifier::external_body]
fn value_object(object: serde_json::Map<String, serde_json::Value>) -> (value: serde_json::Value)
    ensures
        value_view(value) == JsonView::Object(object_view(object)),
{
    serde_json::Value::from(object)
}

/// `serde_json::Map::new` has no members.
#[verifier::external_body]
fn object_new() -> (object: serde_json::Map<String, serde_json::Value>)
    ensures
        object_view(object) == (Map::<Seq<char>, JsonView>::empty()),
{
    serde_json::Map::new()
}

/// `serde_json::Map::insert` sets a member, in place of one with the same key where
/// there is one.
#[verifier::external_body]
fn object_insert(
    object: &mut serde_json::Map<String, serde_json::Value>,
    key: String,
    value: serde_json::Value,
)
    ensures
        object_view(*final(object)) == object_view(*old(object)).insert(key@, value_view(value)),
{
    object.insert(key, value);
}

/// `ToString::to_string` on a `serde_json::Value`: its compact JSON text, the members
/// of every object in the order of their keys. The text depends on what the value
/// holds and on nothing else.
#[verifier::external_body]
fn value_to_string(value: &serde_json::Value) -> (text: String)
    ensures
        text@ == json_text(value_view(*value)),
{
    value.to_string()
}

/// The `serde_json` value for a tree.
pub fn to_value(json: &Json) -> (value: serde_json::Value)
    ensures
        value_view(value) == json@,
    decreases json,
{
    match json {
        Json::Null => value_null(),
        Json::Bool(b) => value_bool(*b),
        Json::Number(number) => value_number(number),
        Json::Text(text) => value_text(text.as_str()),
        Json::Array(items) => {
            let mut values: Vec<serde_json::Value> = Vec::new();
            let mut i: usize = 0;
            while i < items.len()
                invariant
                    i <= items.len(),
                    *json == Json::Array(*items),
                    values@.len() == i,
                    forall|j: int|
                        0 <= j < i ==> value_view(#[trigger] values@[j]) == items@[j]@,
                decreases items.len() - i,
            {
                proof {
                    assert(decreases_to!(*json => json->Array_0));
                    assert(decreases_to!(*items => items@[i as int]));
                }
                let value = to_value(&items[i]);
                values.push(value);
                i += 1;
            }
            proof {
                lemma_items_view(items@);
                assert(values@.map_values(|item: serde_json::Value| value_view(item))
                    =~= items_view(items@));
            }
            value_array(values)
        },
        Json::Object(members) => {
            let mut object = object_new();
            let mut i: usize = 0;
            while i < members.len()
                invariant
                    i <= members.len(),
                    *json == Json::Object(*members),
                    object_view(object) == members_view(members@.take(i as int)),
                decreases members.len() - i,
            {
                proof {
                    assert(decreases_to!(*json => json->Object_0));
                    assert(decreases_to!(*members => members@[i as int]));
                    assert(decreases_to!(members@[i as int] => members@[i as int].value));
                }
                let value = to_value(&members[i].value);
                object_insert(&mut object, members[i].key.clone(), value);
                proof {
                    assert(members@.take(i + 1).drop_last() =~= members@.take(i as int));
                }
                i += 1;
            }
            proof {
                assert(members@.take(members.len() as int) =~= members@);
            }
            value_object(object)
        },
    }
}

/// The outermost layer of a `serde_json` value.
enum Layer {
    Null,
    Bool(bool),
    Number(serde_json::Number),
    Text(String),
    Array(Vec<serde_json::Value>),
    Object(serde_json::Map<String, serde_json::Value>),
}

impl Layer {
    /// What a value with this outermost layer holds.
    spec fn holds(self) -> JsonView {
        match self {
            Layer::Null => JsonView::Null,
            Layer::Bool(b) => JsonView::Bool(b),
            Layer::Number(number) => JsonView::Number(number_view(number)),
            Layer::Text(text) => JsonView::Text(text@),
            Layer::Array(items) => JsonView::Array(
                items@.map_values(|item: serde_json::Value| value_view(item)),
            ),
            Layer::Object(object) => JsonView::Object(object_view(object)),
        }
    }
}

/// The variants of `serde_json::Value` tell what a value holds, each with what is in it.
#[verifier::external_body]
fn outermost(value: serde_json::Value) -> (layer: Layer)
    ensures
        layer.holds() == value_view(value),
{
    match value {
        serde_json::Value::Null => Layer::Null,
        serde_json::Value::Bool(b) => Layer::Bool(b),
        serde_json::Value::Number(number) => Layer::Number(number),
        serde_json::Value::String(text) => Layer::Text(text),
        serde_json::Value::Array(items) => Layer::Array(items),
        serde_json::Value::Object(object) => Layer::Object(object),
    }
}

/// The map that a list of pairs builds when they are set one after another.
spec fn pairs_view(pairs: Seq<(String, serde_json::Value)>) -> Map<Seq<char>, JsonView>
    decreases pairs.len(),
{
    if pairs.len() == 0 {
        Map::empty()
    } else {
        pairs_view(pairs.drop_last()).insert(pairs.last().0@, value_view(pairs.last().1))
    }
}

/// Whether no key occurs twice.
spec fn keys_differ(pairs: Seq<(String, serde_json::Value)>) -> bool {
    forall|i: int, j: int|
        0 <= i < j < pairs.len() ==> (#[trigger] pairs[i]).0@ != (#[trigger] pairs[j]).0@
}

/// `IntoIterator::into_iter` on a `serde_json::Map` gives each member once, with its key.
#[verifier::external_body]
fn object_pairs(object: serde_json::Map<String, serde_json::Value>) -> (pairs: Vec<
    (String, serde_json::Value),
>)
    ensures
        pairs_view(pairs@) == object_view(object),
        keys_differ(pairs@),
{
    object.into_iter().collect()
}

proof fn lemma_pairs_view(pairs: Seq<(String, serde_json::Value)>)
    requires
        keys_differ(pairs),
    ensures
        pairs_view(pairs).dom().finite(),
        forall|i: int|
            0 <= i < pairs.len() ==> {
                &&& pairs_view(pairs).contains_key((#[trigger] pairs[i]).0@)
                &&& pairs_view(pairs)[pairs[i].0@] == value_view(pairs[i].1)
            },
    decreases pairs.len(),
{
    if pairs.len() > 0 {
        let front = pairs.drop_last();
        assert(keys_differ(front)) by {
            assert forall|i: int, j: int| 0 <= i < j < front.len() implies (
            #[trigger] front[i]).0@ != (#[trigger] front[j]).0@ by {
                assert(front[i] == pairs[i] && front[j] == pairs[j]);
            }
        }
        lemma_pairs_view(front);
        assert forall|i: int| 0 <= i < pairs.len() implies {
            &&& pairs_view(pairs).contains_key((#[trigger] pairs[i]).0@)
            &&& pairs_view(pairs)[pairs[i].0@] == value_view(pairs[i].1)
        } by {
            if i < pairs.len() - 1 {
                assert(front[i] == pairs[i]);
                assert(pairs[i].0@ != pairs[pairs.len() - 1].0@);
            }
        }
    }
}

/// The tree for a `serde_json` value.
pub fn from_value(value: serde_json::Value) -> (json: Json)
    ensures
        json@ == value_view(value),
    decreases value_view(value),
{
    let ghost whole = value_view(value);
    match outermost(value) {
        Layer::Null => Json::Null,
        Layer::Bool(b) => Json::Bool(b),
        Layer::Number(number) => Json::Number(number),
        Layer::Text(text) => Json::Text(text),
        Layer::Array(values) => {
            let ghost all = values@;
            let ghost held = all.map_values(|item: serde_json::Value| value_view(item));
            let mut values = values;
            let mut reversed: Vec<Json> = Vec::new();
            while values.len() > 0
                invariant
                    whole == JsonView::Array(held),
                    held == all.map_values(|item: serde_json::Value| value_view(item)),
                    whole == value_view(value),
                    values@ == all.take(values@.len() as int),
                    reversed@.len() + values@.len() == all.len(),
                    forall|j: int|
                        0 <= j < reversed@.len() ==> (#[trigger] reversed@[j])@
                            == held[all.len() - 1 - j],
                decreases values@.len(),
            {
                let ghost last = values@.len() - 1;
                if let Some(item) = values.pop() {
                    proof {
                        assert(held[last] == value_view(item));
                        assert(decreases_to!(whole => whole->Array_0));
                        assert(decreases_to!(held => held[last]));
                    }
                    reversed.push(from_value(item));
                }
            }
            let items = reverse(reversed);
            proof {
                lemma_items_view(items@);
                assert(items_view(items@) =~= held);
            }
            Json::Array(items)
        },
        Layer::Object(object) => {
            let ghost held = object_view(object);
            let pairs = object_pairs(object);
            let ghost all = pairs@;
            proof {
                lemma_pairs_view(all);
            }
            let mut pairs = pairs;
            let mut reversed: Vec<Member> = Vec::new();
            while pairs.len() > 0
                invariant
                    whole == JsonView::Object(held),
                    whole == value_view(value),
                    held == pairs_view(all),
                    keys_differ(all),
                    held.dom().finite(),
                    forall|i: int|
                        0 <= i < all.len() ==> {
                            &&& held.contains_key((#[trigger] all[i]).0@)
                            &&& held[all[i].0@] == value_view(all[i].1)
                        },
                    pairs@ == all.take(pairs@.len() as int),
                    reversed@.len() + pairs@.len() == all.len(),
                    forall|j: int|
                        0 <= j < reversed@.len() ==> {
                            &&& (#[trigger] reversed@[j]).key@ == all[all.len() - 1 - j].0@
                            &&& reversed@[j].value@ == value_view(all[all.len() - 1 - j].1)
                        },
                decreases pairs@.len(),
            {
                let ghost last = pairs@.len() - 1;
                if let Some((key, item)) = pairs.pop() {
                    proof {
                        assert(all[last] == (key, item));
                        assert(decreases_to!(whole => whole->Object_0));
                        vstd::map::axiom_map_index_decreases_finite(held, key@);
                        assert(decreases_to!(held => held[key@]));
                    }
                    reversed.push(Member { key, value: from_value(item) });
                }
            }
            let members = reverse(reversed);
            proof {
                lemma_same_members(all, members@);
            }
            Json::Object(members)
        },
    }
}

/// A list, back to front.
fn reverse<T>(list: Vec<T>) -> (reversed: Vec<T>)
    ensures
        reversed@ == list@.reverse(),
{
    let ghost all = list@;
    let mut list = list;
    let mut reversed: Vec<T> = Vec::new();
    while list.len() > 0
        invariant
            list@ == all.take(list@.len() as int),
            reversed@.len() + list@.len() == all.len(),
            forall|j: int|
                0 <= j < reversed@.len() ==> #[trigger] reversed@[j] == all[all.len() - 1 - j],
        decreases list@.len(),
    {
        if let Some(item) = list.pop() {
            reversed.push(item);
        }
    }
    proof {
        assert(reversed@ =~= all.reverse());
    }
    reversed
}

proof fn lemma_same_members(pairs: Seq<(String, serde_json::Value)>, members: Seq<Member>)
    requires
        pairs.len() == members.len(),
        forall|i: int|
            0 <= i < pairs.len() ==> {
                &&& (#[trigger] members[i]).key@ == pairs[i].0@
                &&& members[i].value@ == value_view(pairs[i].1)
            },
    ensures
        members_view(members) == pairs_view(pairs),
    decreases pairs.len(),
{
    if pairs.len() > 0 {
        assert forall|i: int| 0 <= i < pairs.len() - 1 implies {
            &&& (#[trigger] members.drop_last()[i]).key@ == pairs.drop_last()[i].0@
            &&& members.drop_last()[i].value@ == value_view(pairs.drop_last()[i].1)
        } by {
            assert(members.drop_last()[i] == members[i]);
        }
        assert(members.last() == members[members.len() - 1]);
        lemma_same_members(pairs.drop_last(), members.drop_last());
    }
}

/// The compact JSON text of a tree.
pub fn render(json: &Json) -> (text: String)
    ensures
        text@ == json_text(json@),
{
    value_to_string(&to_value(json))
}

} // verus!
