//! JSON trees, and what they mean. Numbers are those of `serde_json`.

use vstd::prelude::*;

use crate::text::same_text;

verus! {

/// What a JSON number is.
pub enum NumberView {
    /// A number kept as an integer of 64 bits, signed or not.
    Integer(int),
    /// A number kept as a double, by its bit pattern.
    Real(u64),
}

impl NumberView {
    /// The number as a double.
    pub open spec fn as_real(self) -> NumberView {
        match self {
            NumberView::Integer(i) => NumberView::Real(nearest_double(i)),
            NumberView::Real(bits) => NumberView::Real(bits),
        }
    }

    /// The number as a signed integer, where it is one and fits.
    pub open spec fn as_i64(self) -> Option<i64> {
        match self {
            NumberView::Integer(i) if i64::MIN <= i <= i64::MAX => Some(i as i64),
            _ => None,
        }
    }

    /// The number as an unsigned integer, where it is one and fits.
    pub open spec fn as_u64(self) -> Option<u64> {
        match self {
            NumberView::Integer(i) if 0 <= i <= u64::MAX => Some(i as u64),
            _ => None,
        }
    }
}

/// What a JSON value is. The members of an object have no order.
pub enum JsonView {
    Null,
    Bool(bool),
    Number(NumberView),
    Text(Seq<char>),
    Array(Seq<JsonView>),
    Object(Map<Seq<char>, JsonView>),
}

/// `serde_json`'s number, carried as it came: an integer or a double.
#[verifier::external_type_specification]
#[verifier::external_body]
pub struct ExNumber(serde_json::Number);

/// What a `serde_json` number holds.
pub uninterp spec fn number_view(number: serde_json::Number) -> NumberView;

/// `serde_json::Number::as_i64` gives the integer that the number holds, where that
/// integer fits; a double gives nothing, whatever its value.
pub assume_specification[ serde_json::Number::as_i64 ](number: &serde_json::Number) -> (value:
    Option<i64>)
    ensures
        value == number_view(*number).as_i64(),
;

/// `serde_json::Number::as_u64` gives the integer that the number holds, where that
/// integer fits; a double gives nothing, whatever its value.
pub assume_specification[ serde_json::Number::as_u64 ](number: &serde_json::Number) -> (value:
    Option<u64>)
    ensures
        value == number_view(*number).as_u64(),
;

/// The bit pattern of the double that `serde_json::Number::as_f64` gives for an
/// integer: the nearest one.
pub uninterp spec fn nearest_double(value: int) -> u64;

/// `serde_json::Number::from` on an unsigned integer holds that integer.
#[verifier::external_body]
pub(crate) fn number_from_u64(value: u64) -> (number: serde_json::Number)
    ensures
        number_view(number) == NumberView::Integer(value as int),
{
    serde_json::Number::from(value)
}

/// `serde_json::Number::from` on a signed integer holds that integer.
#[verifier::external_body]
pub(crate) fn number_from_i64(value: i64) -> (number: serde_json::Number)
    ensures
        number_view(number) == NumberView::Integer(value as int),
{
    serde_json::Number::from(value)
}

/// `serde_json::Number::as_f64` followed by `serde_json::Number::from_f64`: an integer
/// becomes the double nearest to it, a double stays what it was. Every number that
/// `serde_json` holds is finite, so neither call comes back empty.
#[verifier::external_body]
pub(crate) fn number_to_real(number: &serde_json::Number) -> (double: serde_json::Number)
    ensures
        number_view(double) == (match number_view(*number) {
            NumberView::Integer(i) => NumberView::Real(nearest_double(i)),
            NumberView::Real(bits) => NumberView::Real(bits),
        }),
{
    number.as_f64().and_then(serde_json::Number::from_f64).unwrap()
}

/// A JSON value.
#[derive(Debug, PartialEq)]
pub enum Json {
    Null,
    Bool(bool),
    Number(serde_json::Number),
    Text(String),
    Array(Vec<Json>),
    /// The members in the order in which they were set. Of two members with the
    /// same key the later one counts.
    Object(Vec<Member>),
}

/// One member of a JSON object.
#[derive(Debug, PartialEq)]
pub struct Member {
    pub key: String,
    pub value: Json,
}

/// The value that a tree stands for.
pub open spec fn json_view(json: Json) -> JsonView
    decreases json,
{
    match json {
        Json::Null => JsonView::Null,
        Json::Bool(b) => JsonView::Bool(b),
        Json::Number(n) => JsonView::Number(number_view(n)),
        Json::Text(s) => JsonView::Text(s@),
        Json::Array(items) => JsonView::Array(items_view(items@)),
        Json::Object(members) => JsonView::Object(members_view(members@)),
    }
}

/// The values that a list of trees stands for.
pub open spec fn items_view(items: Seq<Json>) -> Seq<JsonView>
    decreases items,
{
    if items.len() == 0 {
        Seq::empty()
    } else {
        items_view(items.drop_last()).push(json_view(items.last()))
    }
}

/// The map that a list of members builds when they are set one after another.
pub open spec fn members_view(members: Seq<Member>) -> Map<Seq<char>, JsonView>
    decreases members,
{
    if members.len() == 0 {
        Map::empty()
    } else {
        members_view(members.drop_last()).insert(
            members.last().key@,
            json_view(members.last().value),
        )
    }
}

impl View for Json {
    type V = JsonView;

    open spec fn view(&self) -> JsonView {
        json_view(*self)
    }
}

impl DeepView for Json {
    type V = JsonView;

    open spec fn deep_view(&self) -> JsonView {
        json_view(*self)
    }
}

impl JsonView {
    /// The member of an object under a key; nothing on any other value.
    pub open spec fn get(self, key: Seq<char>) -> Option<JsonView> {
        match self {
            JsonView::Object(members) if members.contains_key(key) => Some(members[key]),
            _ => None,
        }
    }

    /// The characters of a string value.
    pub open spec fn as_text(self) -> Option<Seq<char>> {
        match self {
            JsonView::Text(text) => Some(text),
            _ => None,
        }
    }

    /// The characters of the string member under a key.
    pub open spec fn text_at(self, key: Seq<char>) -> Option<Seq<char>> {
        match self.get(key) {
            Some(value) => value.as_text(),
            None => None,
        }
    }

    /// The signed integer under a key, where it is one and fits.
    pub open spec fn i64_at(self, key: Seq<char>) -> Option<i64> {
        match self.get(key) {
            Some(JsonView::Number(number)) => number.as_i64(),
            _ => None,
        }
    }

    /// The unsigned integer under a key, where it is one and fits.
    pub open spec fn u64_at(self, key: Seq<char>) -> Option<u64> {
        match self.get(key) {
            Some(JsonView::Number(number)) => number.as_u64(),
            _ => None,
        }
    }

    /// The number under a key, as a double.
    pub open spec fn real_at(self, key: Seq<char>) -> Option<NumberView> {
        match self.get(key) {
            Some(JsonView::Number(number)) => Some(number.as_real()),
            _ => None,
        }
    }

    /// An object with one member set; any other value as it is.
    pub open spec fn insert(self, key: Seq<char>, value: JsonView) -> JsonView {
        match self {
            JsonView::Object(members) => JsonView::Object(members.insert(key, value)),
            other => other,
        }
    }
}

/// A string, or JSON `null` where there is none.
pub open spec fn text_or_null(text: Option<Seq<char>>) -> JsonView {
    match text {
        Some(text) => JsonView::Text(text),
        None => JsonView::Null,
    }
}

/// An integer as a JSON number.
pub open spec fn integer(value: int) -> JsonView {
    JsonView::Number(NumberView::Integer(value))
}

/// The double nearest to an integer, as a JSON number.
pub open spec fn double(value: int) -> JsonView {
    JsonView::Number(NumberView::Integer(value).as_real())
}

/// An integer, or JSON `null` where there is none.
pub open spec fn integer_or_null(value: Option<i64>) -> JsonView {
    match value {
        Some(value) => integer(value as int),
        None => JsonView::Null,
    }
}

/// A list of trees stands for as many values as it has trees, each in its place.
pub proof fn lemma_items_view(items: Seq<Json>)
    ensures
        items_view(items).len() == items.len(),
        forall|i: int|
            0 <= i < items.len() ==> #[trigger] items_view(items)[i] == json_view(items[i]),
    decreases items.len(),
{
    if items.len() > 0 {
        lemma_items_view(items.drop_last());
    }
}

/// A member list holds a key exactly where one of its members has it, and the last
/// such member gives the value.
proof fn lemma_members_view_last(members: Seq<Member>, i: int)
    requires
        0 <= i < members.len(),
        forall|j: int| i < j < members.len() ==> (#[trigger] members[j]).key@ != members[i].key@,
    ensures
        members_view(members).contains_key(members[i].key@),
        members_view(members)[members[i].key@] == json_view(members[i].value),
    decreases members.len(),
{
    if i < members.len() - 1 {
        assert(members.last() == members[members.len() - 1]);
        lemma_members_view_last(members.drop_last(), i);
    }
}

/// A key that no member has is not held.
proof fn lemma_members_view_absent(members: Seq<Member>, key: Seq<char>)
    requires
        forall|j: int| 0 <= j < members.len() ==> (#[trigger] members[j]).key@ != key,
    ensures
        !members_view(members).contains_key(key),
    decreases members.len(),
{
    if members.len() > 0 {
        assert(members.last() == members[members.len() - 1]);
        lemma_members_view_absent(members.drop_last(), key);
    }
}

/// Replacing the value of the last member with a key sets that key.
proof fn lemma_members_view_update(members: Seq<Member>, i: int, member: Member)
    requires
        0 <= i < members.len(),
        members[i].key@ == member.key@,
        forall|j: int| i < j < members.len() ==> (#[trigger] members[j]).key@ != member.key@,
    ensures
        members_view(members.update(i, member)) == members_view(members).insert(
            member.key@,
            json_view(member.value),
        ),
    decreases members.len(),
{
    let updated = members.update(i, member);
    if i == members.len() - 1 {
        assert(updated.drop_last() =~= members.drop_last());
        assert(members_view(updated) =~= members_view(members).insert(
            member.key@,
            json_view(member.value),
        ));
    } else {
        assert(members.last() == members[members.len() - 1]);
        lemma_members_view_update(members.drop_last(), i, member);
        assert(updated.drop_last() =~= members.drop_last().update(i, member));
        assert(members_view(updated) =~= members_view(members).insert(
            member.key@,
            json_view(member.value),
        ));
    }
}

/// The place of the last member with a key.
fn find_member(members: &Vec<Member>, key: &str) -> (place: Option<usize>)
    ensures
        match place {
            Some(i) => {
                &&& i < members.len()
                &&& members@[i as int].key@ == key@
                &&& forall|j: int|
                    i < j < members.len() ==> (#[trigger] members@[j]).key@ != key@
            },
            None => forall|j: int|
                0 <= j < members.len() ==> (#[trigger] members@[j]).key@ != key@,
        },
{
    let mut i: usize = members.len();
    while i > 0
        invariant
            i <= members.len(),
            forall|j: int| i <= j < members.len() ==> (#[trigger] members@[j]).key@ != key@,
        decreases i,
    {
        i -= 1;
        if same_text(members[i].key.as_str(), key) {
            return Some(i);
        }
    }
    None
}

impl Json {
    /// An object without members.
    pub fn object() -> (json: Json)
        ensures
            json@ == JsonView::Object(Map::empty()),
    {
        let json = Json::Object(Vec::new());
        proof {
            assert(json@ =~= JsonView::Object(Map::empty()));
        }
        json
    }

    /// A string.
    pub fn text(text: &str) -> (json: Json)
        ensures
            json@ == JsonView::Text(text@),
    {
        Json::Text(text.to_owned())
    }

    /// A string, or `null` where there is none.
    pub fn text_or_null(text: Option<String>) -> (json: Json)
        ensures
            json@ == text_or_null(text.deep_view()),
    {
        match text {
            Some(text) => Json::Text(text),
            None => Json::Null,
        }
    }

    /// An unsigned integer.
    pub fn unsigned(value: u64) -> (json: Json)
        ensures
            json@ == integer(value as int),
    {
        Json::Number(number_from_u64(value))
    }

    /// A signed integer.
    pub fn signed(value: i64) -> (json: Json)
        ensures
            json@ == integer(value as int),
    {
        Json::Number(number_from_i64(value))
    }

    /// A signed integer, or `null` where there is none.
    pub fn signed_or_null(value: Option<i64>) -> (json: Json)
        ensures
            json@ == integer_or_null(value),
    {
        match value {
            Some(value) => Json::signed(value),
            None => Json::Null,
        }
    }

    /// The double nearest to an unsigned integer.
    pub fn double(value: u64) -> (json: Json)
        ensures
            json@ == double(value as int),
    {
        Json::Number(number_to_real(&number_from_u64(value)))
    }

    /// The member of an object under a key; nothing on any other value.
    pub fn get(&self, key: &str) -> (member: Option<&Json>)
        ensures
            member.deep_view() == self@.get(key@),
    {
        match self {
            Json::Object(members) => match find_member(members, key) {
                Some(i) => {
                    proof {
                        lemma_members_view_last(members@, i as int);
                    }
                    Some(&members[i].value)
                },
                None => {
                    proof {
                        lemma_members_view_absent(members@, key@);
                    }
                    None
                },
            },
            _ => None,
        }
    }

    /// The member of an object under a key, taken out of it.
    pub fn into_member(self, key: &str) -> (member: Option<Json>)
        ensures
            member.deep_view() == self@.get(key@),
    {
        match self {
            Json::Object(members) => {
                let mut members = members;
                match find_member(&members, key) {
                    Some(i) => {
                        proof {
                            lemma_members_view_last(members@, i as int);
                        }
                        Some(members.swap_remove(i).value)
                    },
                    None => {
                        proof {
                            lemma_members_view_absent(members@, key@);
                        }
                        None
                    },
                }
            },
            _ => None,
        }
    }

    /// Sets a member of an object; leaves any other value as it is.
    pub fn insert(&mut self, key: &str, value: Json)
        ensures
            final(self)@ == old(self)@.insert(key@, value@),
    {
        match self {
            Json::Object(members) => {
                let member = Member { key: key.to_owned(), value };
                match find_member(members, key) {
                    Some(i) => {
                        proof {
                            lemma_members_view_update(members@, i as int, member);
                        }
                        members[i] = member;
                    },
                    None => {
                        let ghost before = members@;
                        members.push(member);
                        proof {
                            assert(members@.drop_last() =~= before);
                        }
                    },
                }
            },
            _ => {},
        }
    }

    /// The characters of a string value.
    pub fn as_str(&self) -> (text: Option<&str>)
        ensures
            text.deep_view() == self@.as_text(),
    {
        match self {
            Json::Text(text) => Some(text.as_str()),
            _ => None,
        }
    }

    /// The characters of the string member under a key.
    pub fn text_at(&self, key: &str) -> (text: Option<&str>)
        ensures
            text.deep_view() == self@.text_at(key@),
    {
        match self.get(key) {
            Some(value) => value.as_str(),
            None => None,
        }
    }

    /// The signed integer under a key, where it is one and fits.
    pub fn i64_at(&self, key: &str) -> (value: Option<i64>)
        ensures
            value == self@.i64_at(key@),
    {
        match self.get(key) {
            Some(Json::Number(number)) => number.as_i64(),
            _ => None,
        }
    }

    /// The unsigned integer under a key, where it is one and fits.
    pub fn u64_at(&self, key: &str) -> (value: Option<u64>)
        ensures
            value == self@.u64_at(key@),
    {
        match self.get(key) {
            Some(Json::Number(number)) => number.as_u64(),
            _ => None,
        }
    }

    /// The number under a key, as a double.
    pub fn real_at(&self, key: &str) -> (value: Option<Json>)
        ensures
            value.deep_view() == (match self@.real_at(key@) {
                Some(number) => Some(JsonView::Number(number)),
                None => None,
            }),
    {
        match self.get(key) {
            Some(Json::Number(number)) => Some(Json::Number(number_to_real(number))),
            _ => None,
        }
    }
}

/// A member of an object is read under its key, and nothing under any other.
pub proof fn law_members_are_read_by_key(members: Map<Seq<char>, JsonView>, key: Seq<char>)
    ensures
        members.contains_key(key) ==> JsonView::Object(members).get(key) == Some(members[key]),
        !members.contains_key(key) ==> JsonView::Object(members).get(key) is None,
{
}

/// Only objects have members: from any other value none is read, and into it none is set.
pub proof fn law_only_objects_have_members(value: JsonView, key: Seq<char>, member: JsonView)
    requires
        !(value is Object),
    ensures
        value.get(key) is None,
        value.insert(key, member) == value,
{
}

/// What was set last under a key is what is read there, and other keys keep what they had.
pub proof fn law_what_is_set_is_read(
    value: JsonView,
    key: Seq<char>,
    member: JsonView,
    other: Seq<char>,
)
    requires
        value is Object,
    ensures
        value.insert(key, member) is Object,
        value.insert(key, member).get(key) == Some(member),
        other != key ==> value.insert(key, member).get(other) == value.get(other),
{
}

/// A text is read under a key exactly where the member there is that text, and an integer
/// exactly where the member there is that integer.
pub proof fn law_members_are_read_by_kind(
    value: JsonView,
    key: Seq<char>,
    text: Seq<char>,
    i: i64,
    u: u64,
)
    ensures
        value.text_at(key) == Some(text) <==> value.get(key) == Some(JsonView::Text(text)),
        value.i64_at(key) == Some(i) <==> value.get(key) == Some(
            JsonView::Number(NumberView::Integer(i as int)),
        ),
        value.u64_at(key) == Some(u) <==> value.get(key) == Some(
            JsonView::Number(NumberView::Integer(u as int)),
        ),
{
}

/// A double is read under a key as it is, an integer as the double nearest to it, and
/// nothing where the member is no number.
pub proof fn law_numbers_are_read_as_doubles(value: JsonView, key: Seq<char>)
    ensures
        match value.get(key) {
            Some(JsonView::Number(NumberView::Real(bits))) => value.real_at(key) == Some(
                NumberView::Real(bits),
            ),
            Some(JsonView::Number(NumberView::Integer(i))) => value.real_at(key) == Some(
                NumberView::Real(nearest_double(i)),
            ),
            _ => value.real_at(key) is None,
        },
{
}

/// A text and an integer stand for themselves, and `null` for what is not there.
pub proof fn law_values_stand_for_what_they_are_made_of(text: Seq<char>, value: i64, wide: int)
    ensures
        text_or_null(Some(text)) == JsonView::Text(text),
        text_or_null(None) == JsonView::Null,
        integer_or_null(Some(value)) == JsonView::Number(NumberView::Integer(value as int)),
        integer_or_null(None) == JsonView::Null,
        integer(wide) == JsonView::Number(NumberView::Integer(wide)),
        double(wide) == JsonView::Number(NumberView::Real(nearest_double(wide))),
        JsonView::Text(text).as_text() == Some(text),
{
}

/// A tree without branches stands for what it holds.
pub proof fn law_leaves_stand_for_what_they_hold(b: bool, number: serde_json::Number, text: String)
    ensures
        Json::Null@ == JsonView::Null,
        Json::Bool(b)@ == JsonView::Bool(b),
        Json::Number(number)@ == JsonView::Number(number_view(number)),
        Json::Text(text)@ == JsonView::Text(text@),
{
}

/// An array stands for what its items stand for, each in its place.
pub proof fn law_arrays_keep_their_items(items: Vec<Json>, i: int)
    requires
        0 <= i < items@.len(),
    ensures
        Json::Array(items)@ matches JsonView::Array(held) && held.len() == items@.len()
            && held[i] == items@[i]@,
{
    lemma_items_view(items@);
}

/// Under a key an object holds what its last member with that key stands for, and nothing
/// where no member has the key.
pub proof fn law_the_last_member_counts(members: Vec<Member>, i: int, key: Seq<char>)
    ensures
        Json::Object(members)@ is Object,
        0 <= i < members@.len() && members@[i].key@ == key && (forall|j: int|
            i < j < members@.len() ==> (#[trigger] members@[j]).key@ != key) ==> Json::Object(
            members,
        )@.get(key) == Some(members@[i].value@),
        (forall|j: int| 0 <= j < members@.len() ==> (#[trigger] members@[j]).key@ != key)
            ==> Json::Object(members)@.get(key) is None,
{
    if 0 <= i < members@.len() && members@[i].key@ == key && (forall|j: int|
        i < j < members@.len() ==> (#[trigger] members@[j]).key@ != key) {
        lemma_members_view_last(members@, i);
    }
    if forall|j: int| 0 <= j < members@.len() ==> (#[trigger] members@[j]).key@ != key {
        lemma_members_view_absent(members@, key);
    }
}

} // verus!
