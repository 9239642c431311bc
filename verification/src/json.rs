//! JSON documents.

use crate::text::same;
use serde_json::Value;
use vstd::prelude::*;

verus! {

/// A member of an object.
pub struct Member {
    pub name: String,
    pub value: Json,
}

/// A JSON value.
pub enum Json {
    Null,
    Bool(bool),
    /// A number: its value where that is a `u64`, and how it is written.
    Number(Option<u64>, String),
    Text(String),
    List(Vec<Json>),
    /// The members of an object, no name twice.
    Object(Vec<Member>),
}

/// What a JSON value says. Of two objects with the same members, neither says more.
pub enum JsonView {
    Null,
    Bool(bool),
    Number(Option<u64>, Seq<char>),
    Text(Seq<char>),
    List(Seq<JsonView>),
    Object(Map<Seq<char>, JsonView>),
}

/// A natural number.
pub open spec fn natural(number: u64) -> JsonView {
    JsonView::Number(Some(number), crate::text::decimal_digits(number as nat))
}

/// An object without members.
pub open spec fn bare() -> JsonView {
    JsonView::Object(Map::empty())
}

/// The members of an object; none where there is no object.
pub open spec fn members_of(json: JsonView) -> Map<Seq<char>, JsonView> {
    match json {
        JsonView::Object(members) => members,
        _ => Map::empty(),
    }
}

/// Whether something can be given members: an object can, and so can what is not there yet.
pub open spec fn takes_members(json: JsonView) -> bool {
    json is Object || json is Null
}

impl JsonView {
    /// An object with one member set, whether it was there before or not.
    pub open spec fn with(self, name: Seq<char>, member: JsonView) -> JsonView {
        JsonView::Object(members_of(self).insert(name, member))
    }
}

/// Where the first member with this name stands, from a place on; the end, where there is none.
pub open spec fn place_named(members: Seq<Member>, name: Seq<char>, from: int) -> int
    decreases members.len() - from,
{
    if from < 0 || from >= members.len() {
        members.len() as int
    } else if members[from].name@ == name {
        from
    } else {
        place_named(members, name, from + 1)
    }
}

/// What a JSON value says.
pub open spec fn said(json: Json) -> JsonView
    decreases json,
{
    match json {
        Json::Null => JsonView::Null,
        Json::Bool(flag) => JsonView::Bool(flag),
        Json::Number(number, text) => JsonView::Number(number, text@),
        Json::Text(text) => JsonView::Text(text@),
        Json::List(items) => JsonView::List(
            Seq::new(
                items@.len(),
                |i: int|
                    if 0 <= i < items@.len() {
                        said(items@[i])
                    } else {
                        JsonView::Null
                    },
            ),
        ),
        Json::Object(members) => JsonView::Object(
            Map::new(
                |name: Seq<char>| place_named(members@, name, 0) < members@.len(),
                |name: Seq<char>|
                    {
                        let at = place_named(members@, name, 0);
                        if 0 <= at < members@.len() {
                            said(members@[at].value)
                        } else {
                            JsonView::Null
                        }
                    },
            ),
        ),
    }
}

// ----- reading -----

/// A JSON value of the `serde_json` crate.
#[verifier::external_type_specification]
#[verifier::external_body]
pub struct ExValue(serde_json::Value);

/// What a value of the `serde_json` crate says.
pub uninterp spec fn value_content(value: Value) -> JsonView;

/// What a text says as JSON, or why it is not JSON.
pub uninterp spec fn parsed_json(text: Seq<char>) -> Result<JsonView, Seq<char>>;

/// Reads a text with `serde_json::from_str` as a `Value`; an error is written as its `Display` does.
/// Whether the text is JSON, what it says, and what is said of one that is not, is a function of the
/// text; the grammar and the words are left unsaid.
#[verifier::external_body]
pub(crate) fn parse_value(text: &str) -> (result: Result<Value, String>)
    ensures
        match result {
            Ok(value) => parsed_json(text@) == Ok::<JsonView, Seq<char>>(value_content(value)),
            Err(message) => parsed_json(text@) == Err::<JsonView, Seq<char>>(message@),
        },
{
    match serde_json::from_str::<Value>(text) {
        Ok(value) => Ok(value),
        Err(error) => Err(error.to_string()),
    }
}

/// Takes a `serde_json::Value` apart, variant by variant. A number keeps what
/// `serde_json::Number::as_u64` returns for it and what its `Display` writes; an object's members,
/// whose names differ, come in the order in which `serde_json::Map` hands them out.
#[verifier::external_body]
fn take_apart(value: Value) -> (result: Json)
    ensures
        said(result) == value_content(value),
{
    match value {
        Value::Null => Json::Null,
        Value::Bool(flag) => Json::Bool(flag),
        Value::Number(number) => Json::Number(number.as_u64(), number.to_string()),
        Value::String(text) => Json::Text(text),
        Value::Array(items) => Json::List(items.into_iter().map(take_apart).collect()),
        Value::Object(members) => Json::Object(
            members.into_iter().map(|(name, value)| Member { name, value: take_apart(value) }).collect(),
        ),
    }
}

/// What a text says as JSON, or why it is not JSON.
pub fn parse_json(text: &str) -> (result: Result<Json, String>)
    ensures
        match result {
            Ok(json) => parsed_json(text@) == Ok::<JsonView, Seq<char>>(said(json)),
            Err(message) => parsed_json(text@) == Err::<JsonView, Seq<char>>(message@),
        },
{
    match parse_value(text) {
        Ok(value) => Ok(take_apart(value)),
        Err(message) => Err(message),
    }
}

/// What a JSON text comes to once it is read and written again.
pub uninterp spec fn json_rewritten(text: Seq<char>) -> Seq<char>;

/// Writes the `serde_json::Value` that a text reads as, with its `Display`. What is written is a
/// function of the text; how numbers, escapes and the order of members come out is left unsaid.
#[verifier::external_body]
pub(crate) fn rewrite_json(text: &str) -> (result: String)
    requires
        parsed_json(text@) is Ok,
    ensures
        result@ == json_rewritten(text@),
{
    match serde_json::from_str::<Value>(text) {
        Ok(value) => value.to_string(),
        Err(error) => error.to_string(),
    }
}

// ----- finding one's way -----

/// What a value that may be missing says: nothing, where it is.
pub open spec fn said_of(json: Option<&Json>) -> JsonView {
    match json {
        Some(value) => said(*value),
        None => JsonView::Null,
    }
}

/// The member of an object with this name; nothing where there is none, or no object.
pub open spec fn member_of(json: JsonView, name: Seq<char>) -> JsonView {
    if members_of(json).contains_key(name) {
        members_of(json)[name]
    } else {
        JsonView::Null
    }
}

/// The member of an object with this name, if there is one.
pub fn member<'a>(json: Option<&'a Json>, name: &str) -> (result: Option<&'a Json>)
    ensures
        said_of(result) == member_of(said_of(json), name@),
{
    match json {
        Some(Json::Object(members)) => {
            let mut index: usize = 0;
            while index < members.len()
                invariant
                    index <= members.len(),
                    json == Some(&Json::Object(*members)),
                    place_named(members@, name@, 0) == place_named(members@, name@, index as int),
                decreases members.len() - index,
            {
                if same(members[index].name.as_str(), name) {
                    return Some(&members[index].value);
                }
                index = index + 1;
            }
            None
        },
        _ => None,
    }
}

/// The items of a list; none where there is no list.
pub open spec fn items_of(json: JsonView) -> Seq<JsonView> {
    match json {
        JsonView::List(items) => items,
        _ => Seq::empty(),
    }
}

/// How many items a list has; none where there is no list.
pub fn item_count(json: Option<&Json>) -> (result: usize)
    ensures
        result == items_of(said_of(json)).len(),
{
    match json {
        Some(Json::List(items)) => items.len(),
        _ => 0,
    }
}

/// An item of a list.
pub fn item<'a>(json: Option<&'a Json>, index: usize) -> (result: Option<&'a Json>)
    requires
        index < items_of(said_of(json)).len(),
    ensures
        said_of(result) == items_of(said_of(json))[index as int],
{
    match json {
        Some(Json::List(items)) => Some(&items[index]),
        _ => None,
    }
}

/// A text; nothing where there is none.
pub open spec fn text_in(json: JsonView) -> Option<Seq<char>> {
    match json {
        JsonView::Text(text) => Some(text),
        _ => None,
    }
}

/// A text, if there is one.
pub fn text_of<'a>(json: Option<&'a Json>) -> (result: Option<&'a str>)
    ensures
        match result {
            Some(text) => text_in(said_of(json)) == Some(text@),
            None => text_in(said_of(json)) is None,
        },
{
    match json {
        Some(Json::Text(text)) => Some(text.as_str()),
        _ => None,
    }
}

/// Whether something is said to be true; a value that is no flag does not say so.
pub fn is_true(json: Option<&Json>) -> (result: bool)
    ensures
        result == (said_of(json) == JsonView::Bool(true)),
{
    match json {
        Some(Json::Bool(flag)) => *flag,
        _ => false,
    }
}

/// A number; zero where there is none, or it is no `u64`.
pub open spec fn natural_in(json: JsonView) -> u64 {
    match json {
        JsonView::Number(Some(number), _) => number,
        _ => 0,
    }
}

/// A number; zero where there is none, or it is no `u64`.
pub fn natural_of(json: Option<&Json>) -> (result: u64)
    ensures
        result == natural_in(said_of(json)),
{
    match json {
        Some(Json::Number(Some(number), _)) => *number,
        _ => 0,
    }
}

// ----- making -----

/// What some values say.
pub open spec fn value_contents(values: Seq<Value>) -> Seq<JsonView> {
    Seq::new(values.len(), |i: int| value_content(values[i]))
}

/// Makes a JSON number with the conversion of `u64` into `serde_json::Value`: it says that number,
/// and its `Display` writes it in decimal.
#[verifier::external_body]
pub(crate) fn number_value(number: u64) -> (result: Value)
    ensures
        value_content(result) == natural(number),
{
    Value::from(number)
}

/// Makes a JSON string with the conversion of `&str` into `serde_json::Value`: it says that text.
#[verifier::external_body]
pub(crate) fn text_value(text: &str) -> (result: Value)
    ensures
        value_content(result) == JsonView::Text(text@),
{
    Value::from(text)
}

/// Makes a JSON flag with the conversion of `bool` into `serde_json::Value`: it says that flag.
#[verifier::external_body]
pub(crate) fn flag_value(flag: bool) -> (result: Value)
    ensures
        value_content(result) == JsonView::Bool(flag),
{
    Value::from(flag)
}

/// Makes a JSON list with the conversion of `Vec` into `serde_json::Value`: it says what its items
/// say, in order.
#[verifier::external_body]
pub(crate) fn list_value(items: Vec<Value>) -> (result: Value)
    ensures
        value_content(result) == JsonView::List(value_contents(items@)),
{
    Value::from(items)
}

/// Makes a JSON object of the map that `serde_json::Map::new` makes: it has no members.
#[verifier::external_body]
pub(crate) fn object_value() -> (result: Value)
    ensures
        value_content(result) == bare(),
{
    Value::Object(serde_json::Map::new())
}

/// Copies what the index operator of `serde_json::Value` finds under a name: that member of an
/// object; null where there is none, or no object.
#[verifier::external_body]
pub(crate) fn member_value(value: &Value, name: &str) -> (result: Value)
    ensures
        value_content(result) == member_of(value_content(*value), name@),
{
    value[name].clone()
}

/// Sets a member through the index operator of `serde_json::Value`: it adds the member to an object
/// or replaces it there, and makes an object of null. The operator panics on anything else.
#[verifier::external_body]
pub(crate) fn set_member(value: &mut Value, name: &str, member: Value)
    requires
        takes_members(value_content(*old(value))),
    ensures
        value_content(*final(value)) == value_content(*old(value)).with(
            name@,
            value_content(member),
        ),
{
    value[name] = member;
}

/// Asks `serde_json::Value::is_object`.
#[verifier::external_body]
pub(crate) fn is_object(value: &Value) -> (result: bool)
    ensures
        result == (value_content(*value) is Object),
{
    value.is_object()
}

/// Asks `serde_json::Value::is_null`.
#[verifier::external_body]
pub(crate) fn is_null(value: &Value) -> (result: bool)
    ensures
        result == (value_content(*value) is Null),
{
    value.is_null()
}

// ----- writing -----

/// A text as a JSON string.
pub uninterp spec fn json_string(text: Seq<char>) -> Seq<char>;

/// Writes a text as a JSON string with the `Display` implementation of `serde_json::Value`. The
/// result is a function of the text alone; which characters are escaped, and how, is left unsaid.
#[verifier::external_body]
pub(crate) fn write_string(text: &str) -> (result: String)
    ensures
        result@ == json_string(text@),
{
    Value::String(text.to_owned()).to_string()
}

/// What a value without parts is written as: a number in decimal, a text as a JSON string.
pub open spec fn plain_text(content: JsonView) -> Seq<char> {
    match content {
        JsonView::Number(Some(number), _) => crate::text::decimal_digits(number as nat),
        JsonView::Text(text) => json_string(text),
        _ => Seq::empty(),
    }
}

/// Whether a value is a natural number or a text.
pub open spec fn is_plain(content: JsonView) -> bool {
    match content {
        JsonView::Number(Some(_), _) => true,
        JsonView::Text(_) => true,
        _ => false,
    }
}

/// Members written one after another, in order.
pub open spec fn object_text(members: Seq<(Seq<char>, JsonView)>) -> Seq<char> {
    "{"@ + crate::text::joined(
        Seq::new(
            members.len(),
            |i: int| json_string(members[i].0) + ":"@ + plain_text(members[i].1),
        ),
        ","@,
    ) + "}"@
}

/// Names paired with what values say.
pub open spec fn named_contents(names: Seq<String>, values: Seq<Value>) -> Seq<
    (Seq<char>, JsonView),
> {
    Seq::new(names.len(), |i: int| (names[i]@, value_content(values[i])))
}

/// Writes an object with `serde::Serializer::collect_map` on a `serde_json::Serializer`, which
/// writes its members in order, without blanks, into a vector of bytes. For members with different
/// names that are natural numbers and texts: what is written reads back, member by member, as what
/// was written.
#[verifier::external_body]
fn write_object(names: Vec<String>, values: Vec<Value>) -> (result: String)
    requires
        names@.len() == values@.len(),
        forall|i: int, j: int| 0 <= i < j < names@.len() ==> names@[i]@ != names@[j]@,
        forall|i: int| 0 <= i < values@.len() ==> is_plain(value_content(#[trigger] values@[i])),
    ensures
        result@ == object_text(named_contents(names@, values@)),
        parsed_json(result@) is Ok,
        forall|i: int|
            0 <= i < names@.len() ==> member_of(parsed_json(result@)->Ok_0, (#[trigger] names@[i])@)
                == value_content(values@[i]),
{
    let mut bytes: Vec<u8> = Vec::new();
    let mut serializer = serde_json::Serializer::new(&mut bytes);
    let members = names.into_iter().zip(values);
    let _ = serde::Serializer::collect_map(&mut serializer, members);
    String::from_utf8_lossy(&bytes).into_owned()
}

/// A member of a flat object.
pub struct PlainMember {
    pub name: String,
    pub value: PlainValue,
}

/// A value without parts.
pub enum PlainValue {
    Number(u64),
    Text(String),
}

/// What a value without parts says.
pub open spec fn plain_said(value: PlainValue) -> JsonView {
    match value {
        PlainValue::Number(number) => natural(number),
        PlainValue::Text(text) => JsonView::Text(text@),
    }
}

/// The members of a flat object, as names and what they say.
pub open spec fn plain_members(members: Seq<PlainMember>) -> Seq<(Seq<char>, JsonView)> {
    Seq::new(members.len(), |i: int| (members[i].name@, plain_said(members[i].value)))
}

/// Writes a flat object, whose members have different names, in order. What is written reads back
/// as what was written.
pub fn write_plain(members: &Vec<PlainMember>) -> (result: String)
    requires
        forall|i: int, j: int|
            0 <= i < j < members@.len() ==> members@[i].name@ != members@[j].name@,
    ensures
        result@ == object_text(plain_members(members@)),
        parsed_json(result@) is Ok,
        forall|i: int|
            0 <= i < members@.len() ==> member_of(
                parsed_json(result@)->Ok_0,
                (#[trigger] members@[i]).name@,
            ) == plain_said(members@[i].value),
{
    let mut names: Vec<String> = Vec::new();
    let mut values: Vec<Value> = Vec::new();
    let mut index: usize = 0;
    while index < members.len()
        invariant
            index <= members.len(),
            names@.len() == index,
            values@.len() == index,
            forall|i: int| 0 <= i < index ==> (#[trigger] names@[i])@ == members@[i].name@,
            forall|i: int|
                0 <= i < index ==> value_content(#[trigger] values@[i]) == plain_said(
                    members@[i].value,
                ),
        decreases members.len() - index,
    {
        names.push(members[index].name.clone());
        values.push(
            match &members[index].value {
                PlainValue::Number(number) => number_value(*number),
                PlainValue::Text(text) => text_value(text.as_str()),
            },
        );
        index = index + 1;
    }
    let ghost first = names@;
    let ghost second = values@;
    proof {
        assert forall|i: int, j: int| 0 <= i < j < first.len() implies first[i]@ != first[j]@ by {
            assert(first[i]@ == members@[i].name@ && first[j]@ == members@[j].name@);
        }
        assert forall|i: int| 0 <= i < second.len() implies is_plain(
            value_content(#[trigger] second[i]),
        ) by {
            assert(value_content(second[i]) == plain_said(members@[i].value));
        }
        assert(named_contents(first, second) =~= plain_members(members@)) by {
            assert forall|i: int| 0 <= i < first.len() implies named_contents(first, second)[i]
                == plain_members(members@)[i] by {
                assert(first[i]@ == members@[i].name@);
                assert(value_content(second[i]) == plain_said(members@[i].value));
            }
        }
    }
    let text = write_object(names, values);
    assert forall|i: int| 0 <= i < members@.len() implies member_of(
        parsed_json(text@)->Ok_0,
        (#[trigger] members@[i]).name@,
    ) == plain_said(members@[i].value) by {
        assert(first[i]@ == members@[i].name@);
        assert(value_content(second[i]) == plain_said(members@[i].value));
    }
    text
}

proof fn lemma_place_named(members: Seq<Member>, name: Seq<char>, from: int)
    requires
        0 <= from <= members.len(),
    ensures
        from <= place_named(members, name, from) <= members.len(),
        forall|i: int|
            from <= i < place_named(members, name, from) ==> (#[trigger] members[i]).name@ != name,
        place_named(members, name, from) < members.len() ==> members[place_named(
            members,
            name,
            from,
        )].name@ == name,
    decreases members.len() - from,
{
    if from < members.len() && members[from].name@ != name {
        lemma_place_named(members, name, from + 1);
    }
}

/// A member of an object is found by its name, and nothing is found by a name that no member has.
pub proof fn members_are_found_by_their_names(members: Vec<Member>, index: int, name: Seq<char>)
    requires
        forall|i: int, j: int|
            0 <= i < j < members@.len() ==> (#[trigger] members@[i]).name@ != (
            #[trigger] members@[j]).name@,
    ensures
        0 <= index < members@.len() ==> member_of(
            said(Json::Object(members)),
            members@[index].name@,
        ) == said(members@[index].value),
        (forall|i: int| 0 <= i < members@.len() ==> (#[trigger] members@[i]).name@ != name)
            ==> member_of(said(Json::Object(members)), name) == JsonView::Null,
{
    lemma_place_named(members@, name, 0);
    if 0 <= index < members@.len() {
        let own = members@[index].name@;
        lemma_place_named(members@, own, 0);
        let at = place_named(members@, own, 0);
        if at < index {
            assert(members@[at].name@ != members@[index].name@);
        }
        assert(at == index);
    }
}

/// A flat object is written between braces: each member as its name, a colon and its value, a number
/// in decimal digits and a text as a JSON string.
pub proof fn members_are_written_as_name_and_value(
    name: Seq<char>,
    number: u64,
    digits: Seq<char>,
    text: Seq<char>,
)
    ensures
        is_plain(JsonView::Number(Some(number), digits)),
        is_plain(JsonView::Text(text)),
        !is_plain(JsonView::Null),
        !is_plain(JsonView::Number(None, digits)),
        object_text(seq![(name, JsonView::Number(Some(number), digits))]) == "{"@ + json_string(name)
            + ":"@ + crate::text::decimal_digits(number as nat) + "}"@,
        object_text(seq![(name, JsonView::Text(text))]) == "{"@ + json_string(name) + ":"@
            + json_string(text) + "}"@,
        object_text(
            seq![(name, JsonView::Text(text)), (name, JsonView::Number(Some(number), digits))],
        ) == "{"@ + json_string(name) + ":"@ + json_string(text) + ","@ + json_string(name) + ":"@
            + crate::text::decimal_digits(number as nat) + "}"@,
{
    reveal_with_fuel(crate::text::joined, 3);
    let first = JsonView::Text(text);
    let second = JsonView::Number(Some(number), digits);
    let told = json_string(name) + ":"@ + json_string(text);
    let counted = json_string(name) + ":"@ + crate::text::decimal_digits(number as nat);
    let written = |members: Seq<(Seq<char>, JsonView)>|
        Seq::new(
            members.len(),
            |i: int| json_string(members[i].0) + ":"@ + plain_text(members[i].1),
        );
    assert(written(seq![(name, first)]) =~= seq![told]);
    assert(written(seq![(name, second)]) =~= seq![counted]);
    assert(written(seq![(name, first), (name, second)]) =~= seq![told, counted]);
    assert(crate::text::joined(seq![told], ","@) == told);
    assert(crate::text::joined(seq![counted], ","@) == counted);
    assert(seq![told, counted].drop_last() =~= seq![told]);
    assert(crate::text::joined(seq![told, counted], ","@) == told + ","@ + counted);
    assert(object_text(seq![(name, first)]) =~= "{"@ + json_string(name) + ":"@ + json_string(text)
        + "}"@);
    assert(object_text(seq![(name, second)]) =~= "{"@ + json_string(name) + ":"@
        + crate::text::decimal_digits(number as nat) + "}"@);
    assert(object_text(seq![(name, first), (name, second)]) =~= "{"@ + json_string(name) + ":"@
        + json_string(text) + ","@ + json_string(name) + ":"@ + crate::text::decimal_digits(
        number as nat,
    ) + "}"@);
}

} // verus!
