//! JSON, read and written by `serde_json`.
//!
//! A `serde_json::Value` is a collection of values, and an object under construction is one
//! of members. The contracts see what they hold as [`Json`] trees, by the names [`json_of`]
//! and [`members_of`]. What text a tree is written as, and what tree a text is read as, is
//! left to `serde_json` and named [`json_text`] and [`parse_result`].
use crate::text::{occurs_in, text_view};
use vstd::prelude::*;

verus! {

/// A JSON number: its text, and the integer that it is, where a `u64` or an `i64` can hold
/// it and it was not written with a fraction or an exponent.
pub ghost struct Number {
    pub integer: Option<int>,
    pub text: Seq<char>,
}

/// A JSON value.
pub ghost enum Json {
    Null,
    Bool(bool),
    Number(Number),
    Str(Seq<char>),
    Array(Seq<Json>),
    Object(Map<Seq<char>, Json>),
}

impl Json {
    /// The member of an object under a key; null where there is none.
    pub open spec fn field(self, key: Seq<char>) -> Json {
        match self {
            Json::Object(members) => if members.contains_key(key) {
                members[key]
            } else {
                Json::Null
            },
            _ => Json::Null,
        }
    }

    pub open spec fn as_str(self) -> Option<Seq<char>> {
        match self {
            Json::Str(text) => Some(text),
            _ => None,
        }
    }

    pub open spec fn as_bool(self) -> Option<bool> {
        match self {
            Json::Bool(truth) => Some(truth),
            _ => None,
        }
    }

    pub open spec fn as_u64(self) -> Option<u64> {
        match self {
            Json::Number(number) => match number.integer {
                Some(integer) => if 0 <= integer <= u64::MAX {
                    Some(integer as u64)
                } else {
                    None
                },
                None => None,
            },
            _ => None,
        }
    }

    pub open spec fn as_array(self) -> Option<Seq<Json>> {
        match self {
            Json::Array(items) => Some(items),
            _ => None,
        }
    }

    /// Whether the value nests arrays and objects at most `levels` deep.
    pub open spec fn nests(self, levels: nat) -> bool
        decreases levels,
    {
        match self {
            Json::Array(items) => levels > 0 && forall|i: int|
                0 <= i < items.len() ==> (#[trigger] items[i]).nests((levels - 1) as nat),
            Json::Object(members) => levels > 0 && forall|key: Seq<char>| #[trigger]
                members.contains_key(key) ==> members[key].nests((levels - 1) as nat),
            _ => true,
        }
    }

    /// Whether the value holds no numbers but integers, and nests arrays and objects at most
    /// `levels` deep.
    pub open spec fn restorable(self, levels: nat) -> bool
        decreases levels,
    {
        match self {
            Json::Number(number) => number.integer is Some,
            Json::Array(items) => levels > 0 && forall|i: int|
                0 <= i < items.len() ==> (#[trigger] items[i]).restorable((levels - 1) as nat),
            Json::Object(members) => levels > 0 && forall|key: Seq<char>| #[trigger]
                members.contains_key(key) ==> members[key].restorable((levels - 1) as nat),
            _ => true,
        }
    }

    /// Whether the values are the same, down to `levels` levels of nesting, but for numbers
    /// that are no integers: in the place of such a number there is one that is no integer
    /// either.
    pub open spec fn alike(self, other: Json, levels: nat) -> bool
        decreases levels,
    {
        match (self, other) {
            (Json::Number(number), Json::Number(found)) => if number.integer is Some {
                found == number
            } else {
                found.integer is None
            },
            (Json::Array(items), Json::Array(found)) => levels > 0 && items.len() == found.len()
                && forall|i: int|
                0 <= i < items.len() ==> (#[trigger] items[i]).alike(
                    found[i],
                    (levels - 1) as nat,
                ),
            (Json::Object(members), Json::Object(found)) => levels > 0 && members.dom()
                == found.dom() && forall|key: Seq<char>| #[trigger]
                members.contains_key(key) ==> members[key].alike(
                    found[key],
                    (levels - 1) as nat,
                ),
            _ => self == other,
        }
    }
}

/// A value whose numbers are integers is alike to itself alone.
pub proof fn lemma_restored(json: Json, read: Json, levels: nat)
    requires
        json.restorable(levels),
        json.alike(read, levels),
    ensures
        read == json,
    decreases levels,
{
    match (json, read) {
        (Json::Array(items), Json::Array(found)) => {
            assert forall|i: int| 0 <= i < items.len() implies items[i] == found[i] by {
                lemma_restored(items[i], found[i], (levels - 1) as nat);
            }
            assert(items == found);
        },
        (Json::Object(members), Json::Object(found)) => {
            assert forall|key: Seq<char>| members.contains_key(key) implies members[key]
                == found[key] by {
                lemma_restored(members[key], found[key], (levels - 1) as nat);
            }
            assert(members == found);
        },
        _ => {},
    }
}

/// A value that can be restored does not nest too deep.
pub proof fn lemma_restorable_nests(json: Json, levels: nat)
    requires
        json.restorable(levels),
    ensures
        json.nests(levels),
    decreases levels,
{
    match json {
        Json::Array(items) => {
            assert forall|i: int| 0 <= i < items.len() implies (#[trigger] items[i]).nests(
                (levels - 1) as nat,
            ) by {
                lemma_restorable_nests(items[i], (levels - 1) as nat);
            }
        },
        Json::Object(members) => {
            assert forall|key: Seq<char>| #[trigger] members.contains_key(key) implies members[
                key
            ].nests((levels - 1) as nat) by {
                lemma_restorable_nests(members[key], (levels - 1) as nat);
            }
        },
        _ => {},
    }
}

/// An object of plain members nests one level deep.
pub proof fn lemma_flat_object(members: Map<Seq<char>, Json>, levels: nat)
    requires
        levels > 0,
        forall|key: Seq<char>| #[trigger]
            members.contains_key(key) ==> members[key] is Str || members[key] is Bool,
    ensures
        Json::Object(members).restorable(levels),
{
    reveal_with_fuel(Json::restorable, 2);
}

/// Whether a value is an object of plain members.
pub open spec fn flat(json: Json) -> bool {
    json matches Json::Object(members) && forall|key: Seq<char>| #[trigger]
        members.contains_key(key) ==> members[key] is Str || members[key] is Bool
}

/// An object that lists some items under a key, after a truthful `ok` member.
pub open spec fn listing(key: Seq<char>, items: Seq<Json>) -> Json {
    Json::Object(map!["ok"@ => Json::Bool(true)].insert(key, Json::Array(items)))
}

/// A list of flat objects nests three levels deep.
pub proof fn lemma_flat_listing(key: Seq<char>, items: Seq<Json>, levels: nat)
    requires
        levels >= 3,
        forall|i: int| 0 <= i < items.len() ==> flat(#[trigger] items[i]),
    ensures
        listing(key, items).restorable(levels),
{
    reveal_with_fuel(Json::restorable, 3);
    assert forall|i: int| 0 <= i < items.len() implies (#[trigger] items[i]).restorable(
        (levels - 2) as nat,
    ) by {
        lemma_flat_object(items[i]->Object_0, (levels - 2) as nat);
    }
}

/// How deep a text may nest arrays and objects for `serde_json` to read it.
pub open spec fn nesting_limit() -> nat {
    127
}

/// The text of a truthful `ok` member.
pub open spec fn ok_mark() -> Seq<char> {
    "\"ok\":true"@
}

/// A value of `serde_json`.
#[verifier::external_type_specification]
#[verifier::external_body]
pub struct ExValue(serde_json::Value);

/// The members of an object of `serde_json`.
#[verifier::external_type_specification]
#[verifier::external_body]
#[verifier::reject_recursive_types(K)]
#[verifier::reject_recursive_types(V)]
pub struct ExMap<K, V>(serde_json::Map<K, V>);

/// The tree that a value of `serde_json` holds.
pub uninterp spec fn json_of(value: serde_json::Value) -> Json;

/// The members that an object under construction holds.
pub uninterp spec fn members_of(
    members: serde_json::Map<String, serde_json::Value>,
) -> Map<Seq<char>, Json>;

/// What `serde_json::from_str` reads a text as: a value, or the text of its error.
pub uninterp spec fn parse_result(text: Seq<char>) -> Result<Json, Seq<char>>;

/// The compact text that a value of `serde_json` displays as.
pub uninterp spec fn json_text(json: Json) -> Seq<char>;

/// The trees of some values.
pub open spec fn trees(values: Seq<serde_json::Value>) -> Seq<Json> {
    values.map_values(|value: serde_json::Value| json_of(value))
}

/// `serde_json::from_str` reads a text as a value, or fails with an error that
/// displays as one of a fixed set of messages and a position. No such message holds
/// the text of a truthful `ok` member. A text that nests too deep is not read.
#[verifier::external_body]
pub(crate) fn parse_json(text: &str) -> (parsed: Result<serde_json::Value, String>)
    ensures
        parse_result(text@) == match parsed {
            Ok(value) => Ok::<Json, Seq<char>>(json_of(value)),
            Err(message) => Err::<Json, Seq<char>>(message@),
        },
        parsed matches Err(message) ==> !occurs_in(message@, ok_mark()),
        parsed matches Ok(value) ==> json_of(value).nests(nesting_limit()),
{
    serde_json::from_str(text).map_err(|error: serde_json::Error| error.to_string())
}

/// Indexing a `serde_json::Value` by a text gives the member of an object under that
/// key, and null where the value is no object or has no such member.
#[verifier::external_body]
pub(crate) fn field<'a>(value: &'a serde_json::Value, key: &str) -> (found: &'a serde_json::Value)
    ensures
        json_of(*found) == json_of(*value).field(key@),
{
    &value[key]
}

/// `serde_json::Value::as_str` gives the text of a string, and `None` of another value.
pub assume_specification [serde_json::Value::as_str] (
    value: &serde_json::Value,
) -> (text: Option<&str>)
    ensures
        json_of(*value).as_str() == match text {
            Some(text) => Some(text@),
            None => None,
        },
;

/// `serde_json::Value::as_bool` gives a boolean, and `None` of another value.
pub assume_specification [serde_json::Value::as_bool] (
    value: &serde_json::Value,
) -> (truth: Option<bool>)
    ensures
        json_of(*value).as_bool() == truth,
;

/// `serde_json::Value::as_u64` gives the integer that a number is, where a `u64` can
/// hold it, and `None` of another value.
pub assume_specification [serde_json::Value::as_u64] (
    value: &serde_json::Value,
) -> (number: Option<u64>)
    ensures
        json_of(*value).as_u64() == number,
;

/// `serde_json::Value::as_array` gives the items of an array, and `None` of another
/// value.
pub assume_specification [serde_json::Value::as_array] (
    value: &serde_json::Value,
) -> (items: Option<&Vec<serde_json::Value>>)
    ensures
        json_of(*value).as_array() == match items {
            Some(items) => Some(trees(items@)),
            None => None,
        },
;

/// Cloning a `serde_json::Value` gives a value with the same tree.
pub assume_specification [<serde_json::Value as Clone>::clone] (
    value: &serde_json::Value,
) -> (copy: serde_json::Value)
    ensures
        json_of(copy) == json_of(*value),
;

/// `serde_json::Value::Bool` holds a boolean.
#[verifier::external_body]
pub(crate) fn bool_value(truth: bool) -> (value: serde_json::Value)
    ensures
        json_of(value) == Json::Bool(truth),
{
    serde_json::Value::Bool(truth)
}

/// `serde_json::Value::String` holds a text.
#[verifier::external_body]
pub(crate) fn string_value(text: &str) -> (value: serde_json::Value)
    ensures
        json_of(value) == Json::Str(text@),
{
    serde_json::Value::String(text.to_string())
}

/// `serde_json::Value::Array` holds the given items.
#[verifier::external_body]
pub(crate) fn array_value(items: Vec<serde_json::Value>) -> (value: serde_json::Value)
    ensures
        json_of(value) == Json::Array(trees(items@)),
{
    serde_json::Value::Array(items)
}

/// `serde_json::Value::Object` holds the given members.
#[verifier::external_body]
pub(crate) fn object_value(
    members: serde_json::Map<String, serde_json::Value>,
) -> (value: serde_json::Value)
    ensures
        json_of(value) == Json::Object(members_of(members)),
{
    serde_json::Value::Object(members)
}

/// `serde_json::Map::new` holds no member.
#[verifier::external_body]
pub(crate) fn no_members() -> (members: serde_json::Map<String, serde_json::Value>)
    ensures
        members_of(members) == (Map::<Seq<char>, Json>::empty()),
{
    serde_json::Map::new()
}

/// `serde_json::Map::insert` sets the member under a key.
#[verifier::external_body]
pub(crate) fn set_member(
    members: &mut serde_json::Map<String, serde_json::Value>,
    key: &str,
    value: serde_json::Value,
)
    ensures
        members_of(*final(members)) == members_of(*old(members)).insert(key@, json_of(value)),
{
    members.insert(key.to_string(), value);
}

/// A `serde_json::Value` displays as compact text that depends on its tree alone. An
/// object with a truthful `ok` member shows that member as [`ok_mark`]. A text that does
/// not nest too deep is read again as the same tree, integers of either sign included. A
/// number that is no integer is written with a fraction or an exponent, and is read as such
/// a number, though not always as the same one: the last digits may differ.
#[verifier::external_body]
fn render(value: &serde_json::Value) -> (text: String)
    ensures
        text@ == json_text(json_of(*value)),
        json_of(*value).field("ok"@) == Json::Bool(true) ==> occurs_in(text@, ok_mark()),
        json_of(*value).nests(nesting_limit()) ==> reads_alike(text@, json_of(*value)),
{
    value.to_string()
}

/// Whether a text reads as a value, but for numbers in it that are no integers.
pub open spec fn reads_alike(text: Seq<char>, json: Json) -> bool {
    parse_result(text) matches Ok(read) && json.alike(read, nesting_limit())
}

/// Writes a value. The text reads as the value again, where its numbers are integers.
pub(crate) fn write_json(value: &serde_json::Value) -> (text: String)
    ensures
        text@ == json_text(json_of(*value)),
        json_of(*value).field("ok"@) == Json::Bool(true) ==> occurs_in(text@, ok_mark()),
        json_of(*value).nests(nesting_limit()) ==> reads_alike(text@, json_of(*value)),
        json_of(*value).restorable(nesting_limit()) ==> reads_alike(text@, json_of(*value))
            && parse_result(text@) == (Ok::<Json, Seq<char>>(json_of(*value))),
{
    let text = render(value);
    proof {
        let json = json_of(*value);
        if json.restorable(nesting_limit()) {
            lemma_restorable_nests(json, nesting_limit());
            lemma_restored(json, parse_result(text@)->Ok_0, nesting_limit());
        }
    }
    text
}

/// Writes an object that lists some items.
pub(crate) fn listing_body(key: &str, items: Vec<serde_json::Value>) -> (body: String)
    ensures
        body@ == json_text(listing(key@, trees(items@))),
        (forall|i: int| 0 <= i < items@.len() ==> flat(json_of(#[trigger] items@[i])))
            ==> parse_result(body@) == (Ok::<Json, Seq<char>>(listing(key@, trees(items@)))),
{
    let ghost list = trees(items@);
    let mut members = no_members();
    set_member(&mut members, "ok", bool_value(true));
    set_member(&mut members, key, array_value(items));
    let value = object_value(members);
    assert(json_of(value) == listing(key@, list));
    proof {
        if forall|i: int| 0 <= i < items@.len() ==> flat(json_of(#[trigger] items@[i])) {
            assert forall|i: int| 0 <= i < list.len() implies flat(#[trigger] list[i]) by {
                assert(list[i] == json_of(items@[i]));
            }
            lemma_flat_listing(key@, list, nesting_limit());
        }
    }
    write_json(&value)
}

/// The text of a member, where it is a string.
pub open spec fn text_field(json: Json, key: Seq<char>) -> Option<Seq<char>> {
    json.field(key).as_str()
}

/// Reads a member that should be a string.
pub(crate) fn read_text(value: &serde_json::Value, key: &str) -> (text: Option<String>)
    ensures
        text_view(text) == text_field(json_of(*value), key@),
{
    match field(value, key).as_str() {
        Some(text) => Some(text.to_owned()),
        None => None,
    }
}

} // verus!
