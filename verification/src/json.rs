//! JSON documents, and what reading them gives.
use vstd::prelude::*;

use crate::decimal::{decimal, law_decimal_reads_back, parse_integer, parsed_integer};
use crate::serde_value::{number_as_i64, number_integer, number_unsigned};
use crate::text::same_text;

verus! {

/// What a JSON document says. An object has at most one value for a key, and
/// its keys have no order.
pub enum JsonValue {
    Null,
    Bool(bool),
    /// A number that is a signed 64-bit integer.
    Integer(i64),
    /// A number that is a greater integer, of 64 bits without sign.
    Unsigned(u64),
    /// Any other number.
    Real(serde_json::Number),
    Text(Seq<char>),
    List(Seq<JsonValue>),
    Record(Map<Seq<char>, JsonValue>),
}

/// A JSON document. Where two fields of a record have the same key, the later
/// one counts.
#[derive(Debug, PartialEq)]
pub enum Json {
    Null,
    Bool(bool),
    Integer(i64),
    Unsigned(u64),
    Number(serde_json::Number),
    Text(String),
    List(Vec<Json>),
    Record(Vec<(String, Json)>),
}

impl View for Json {
    type V = JsonValue;

    open spec fn view(&self) -> JsonValue {
        json_view(*self)
    }
}

/// What a number says: the integer it is, if it is one of 64 bits.
pub open spec fn number_value(n: serde_json::Number) -> JsonValue {
    match number_integer(n) {
        Some(i) => JsonValue::Integer(i),
        None => match number_unsigned(n) {
            Some(u) => JsonValue::Unsigned(u),
            None => JsonValue::Real(n),
        },
    }
}

/// What an integer without sign says: it is a signed one where it fits.
pub open spec fn unsigned_value(u: u64) -> JsonValue {
    if u <= i64::MAX {
        JsonValue::Integer(u as i64)
    } else {
        JsonValue::Unsigned(u)
    }
}

pub open spec fn json_view(json: Json) -> JsonValue
    decreases json,
{
    match json {
        Json::Null => JsonValue::Null,
        Json::Bool(b) => JsonValue::Bool(b),
        Json::Integer(i) => JsonValue::Integer(i),
        Json::Unsigned(u) => unsigned_value(u),
        Json::Number(n) => number_value(n),
        Json::Text(s) => JsonValue::Text(s@),
        Json::List(items) => JsonValue::List(list_view(items@)),
        Json::Record(fields) => JsonValue::Record(record_view(fields@)),
    }
}

/// What each item of a list says.
pub open spec fn list_view(items: Seq<Json>) -> Seq<JsonValue>
    decreases items,
{
    Seq::new(
        items.len(),
        |i: int|
            if 0 <= i < items.len() {
                json_view(items[i])
            } else {
                JsonValue::Null
            },
    )
}

/// What the fields of a record say; a later field replaces an earlier one of
/// the same key.
pub open spec fn record_view(fields: Seq<(String, Json)>) -> Map<Seq<char>, JsonValue>
    decreases fields,
{
    if fields.len() == 0 {
        Map::empty()
    } else {
        record_view(fields.drop_last()).insert(fields.last().0@, json_view(fields.last().1))
    }
}

/// What a part of a document says, if the part is there.
pub open spec fn seen(json: Option<&Json>) -> Option<JsonValue> {
    match json {
        Some(part) => Some(part@),
        None => None,
    }
}

/// The value that a record has for a key; a value of another kind has none.
pub open spec fn field_in(value: Option<JsonValue>, key: Seq<char>) -> Option<JsonValue> {
    match value {
        Some(JsonValue::Record(fields)) => if fields.contains_key(key) {
            Some(fields[key])
        } else {
            None
        },
        _ => None,
    }
}

/// The characters of a text; a value of another kind has none.
pub open spec fn text_in(value: Option<JsonValue>) -> Option<Seq<char>> {
    match value {
        Some(JsonValue::Text(s)) => Some(s),
        _ => None,
    }
}

/// The items of a list; a value of another kind has none.
pub open spec fn list_in(value: Option<JsonValue>) -> Option<Seq<JsonValue>> {
    match value {
        Some(JsonValue::List(items)) => Some(items),
        _ => None,
    }
}

/// The signed 64-bit integer that a number is; any other value is none.
pub open spec fn integer_in(value: Option<JsonValue>) -> Option<i64> {
    match value {
        Some(JsonValue::Integer(i)) => Some(i),
        _ => None,
    }
}

/// The signed 64-bit integer that a number is or that a text denotes.
pub open spec fn number_in(value: Option<JsonValue>) -> Option<i64> {
    match value {
        Some(JsonValue::Integer(i)) => Some(i),
        Some(JsonValue::Text(s)) => parsed_integer(s),
        _ => None,
    }
}

/// Every number in a document is a 64-bit integer or one of the `allowed`, and
/// its lists and records nest no deeper than `depth`.
pub open spec fn is_within(
    value: JsonValue,
    depth: nat,
    allowed: spec_fn(serde_json::Number) -> bool,
) -> bool
    decreases depth,
{
    match value {
        JsonValue::Real(n) => allowed(n),
        JsonValue::List(items) => depth > 0 && forall|i: int|
            0 <= i < items.len() ==> is_within(#[trigger] items[i], (depth - 1) as nat, allowed),
        JsonValue::Record(fields) => depth > 0 && forall|key: Seq<char>|
            #[trigger] fields.contains_key(key) ==> is_within(
                fields[key],
                (depth - 1) as nat,
                allowed,
            ),
        _ => true,
    }
}

/// No number in a document is other than a 64-bit integer, and its lists and
/// records nest no deeper than `depth`.
pub open spec fn is_plain(value: JsonValue, depth: nat) -> bool {
    is_within(value, depth, |n: serde_json::Number| false)
}

/// Allowing more numbers leaves no document out.
pub proof fn lemma_is_within_wider(
    value: JsonValue,
    depth: nat,
    allowed: spec_fn(serde_json::Number) -> bool,
    wider: spec_fn(serde_json::Number) -> bool,
)
    requires
        is_within(value, depth, allowed),
        forall|n: serde_json::Number| #[trigger] allowed(n) ==> wider(n),
    ensures
        is_within(value, depth, wider),
    decreases depth,
{
    match value {
        JsonValue::List(items) => {
            assert forall|i: int| 0 <= i < items.len() implies is_within(
                #[trigger] items[i],
                (depth - 1) as nat,
                wider,
            ) by {
                lemma_is_within_wider(items[i], (depth - 1) as nat, allowed, wider);
            }
        },
        JsonValue::Record(fields) => {
            assert forall|key: Seq<char>| #[trigger] fields.contains_key(key) implies is_within(
                fields[key],
                (depth - 1) as nat,
                wider,
            ) by {
                lemma_is_within_wider(fields[key], (depth - 1) as nat, allowed, wider);
            }
        },
        _ => {},
    }
}

/// An integer is read the same from a number and from its decimal notation in a
/// text.
pub proof fn law_number_is_read_from_text(n: i64)
    ensures
        number_in(Some(JsonValue::Text(decimal(n as int)))) == number_in(
            Some(JsonValue::Integer(n)),
        ),
{
    law_decimal_reads_back(n);
}

/// Adding an item to a list adds what it says.
pub proof fn lemma_list_view_push(items: Seq<Json>, item: Json)
    ensures
        list_view(items.push(item)) == list_view(items).push(json_view(item)),
{
    assert(list_view(items.push(item)) =~= list_view(items).push(json_view(item)));
}

/// Adding a field to a record sets its key.
pub proof fn lemma_record_view_push(fields: Seq<(String, Json)>, field: (String, Json))
    ensures
        record_view(fields.push(field)) == record_view(fields).insert(field.0@, json_view(field.1)),
{
    assert(fields.push(field).drop_last() =~= fields);
}

/// The last field of a key gives the value of that key.
proof fn lemma_last_field_counts(fields: Seq<(String, Json)>, i: int)
    requires
        0 <= i < fields.len(),
        forall|j: int| i < j < fields.len() ==> (#[trigger] fields[j]).0@ != fields[i].0@,
    ensures
        record_view(fields).contains_key(fields[i].0@),
        record_view(fields)[fields[i].0@] == json_view(fields[i].1),
    decreases fields.len(),
{
    if i < fields.len() - 1 {
        let rest = fields.drop_last();
        assert(rest[i] == fields[i]);
        lemma_last_field_counts(rest, i);
        assert(fields[fields.len() - 1].0@ != fields[i].0@);
    }
}

/// A key without a field has no value.
proof fn lemma_no_field(fields: Seq<(String, Json)>, key: Seq<char>)
    requires
        forall|j: int| 0 <= j < fields.len() ==> (#[trigger] fields[j]).0@ != key,
    ensures
        !record_view(fields).contains_key(key),
    decreases fields.len(),
{
    if fields.len() > 0 {
        lemma_no_field(fields.drop_last(), key);
        assert(fields[fields.len() - 1].0@ != key);
    }
}

/// Replacing the last field of a key sets that key.
proof fn lemma_replace_last_field(fields: Seq<(String, Json)>, i: int, field: (String, Json))
    requires
        0 <= i < fields.len(),
        fields[i].0@ == field.0@,
        forall|j: int| i < j < fields.len() ==> (#[trigger] fields[j]).0@ != field.0@,
    ensures
        record_view(fields.update(i, field)) == record_view(fields).insert(
            field.0@,
            json_view(field.1),
        ),
    decreases fields.len(),
{
    let after = fields.update(i, field);
    let rest = fields.drop_last();
    if i == fields.len() - 1 {
        assert(after.drop_last() =~= rest);
        assert(record_view(after) =~= record_view(fields).insert(field.0@, json_view(field.1)));
    } else {
        assert(after.drop_last() =~= rest.update(i, field));
        assert(rest[i] == fields[i]);
        lemma_replace_last_field(rest, i, field);
        assert(fields[fields.len() - 1].0@ != field.0@);
        assert(record_view(after) =~= record_view(fields).insert(field.0@, json_view(field.1)));
    }
}

/// The position of the last field of a key.
fn last_field(fields: &Vec<(String, Json)>, key: &str) -> (position: Option<usize>)
    ensures
        match position {
            Some(i) => {
                &&& i < fields@.len()
                &&& fields@[i as int].0@ == key@
                &&& forall|j: int| i < j < fields@.len() ==> (#[trigger] fields@[j]).0@ != key@
            },
            None => forall|j: int| 0 <= j < fields@.len() ==> (#[trigger] fields@[j]).0@ != key@,
        },
{
    let mut i: usize = fields.len();
    while i > 0
        invariant
            i <= fields@.len(),
            forall|j: int| i <= j < fields@.len() ==> (#[trigger] fields@[j]).0@ != key@,
        decreases i,
    {
        i = i - 1;
        if same_text(fields[i].0.as_str(), key) {
            return Some(i);
        }
    }
    None
}

/// The value that a record has for a key.
pub fn field<'a>(json: Option<&'a Json>, key: &str) -> (value: Option<&'a Json>)
    ensures
        seen(value) == field_in(seen(json), key@),
{
    match json {
        Some(Json::Record(fields)) => match last_field(fields, key) {
            Some(i) => {
                proof {
                    lemma_last_field_counts(fields@, i as int);
                }
                Some(&fields[i].1)
            },
            None => {
                proof {
                    lemma_no_field(fields@, key@);
                }
                None
            },
        },
        _ => None,
    }
}

/// The characters of a text.
pub fn text<'a>(json: Option<&'a Json>) -> (value: Option<&'a str>)
    ensures
        text_in(seen(json)) == (match value {
            Some(s) => Some(s@),
            None => None::<Seq<char>>,
        }),
{
    match json {
        Some(Json::Text(s)) => Some(s.as_str()),
        _ => None,
    }
}

/// The items of a list.
pub fn items<'a>(json: Option<&'a Json>) -> (value: Option<&'a Vec<Json>>)
    ensures
        list_in(seen(json)) == (match value {
            Some(list) => Some(list_view(list@)),
            None => None::<Seq<JsonValue>>,
        }),
{
    match json {
        Some(Json::List(list)) => Some(list),
        _ => None,
    }
}

/// The integer that a number is.
pub fn integer(json: Option<&Json>) -> (value: Option<i64>)
    ensures
        value == integer_in(seen(json)),
{
    match json {
        Some(Json::Integer(i)) => Some(*i),
        Some(Json::Unsigned(u)) => if *u <= i64::MAX as u64 {
            Some(*u as i64)
        } else {
            None
        },
        Some(Json::Number(n)) => number_as_i64(n),
        _ => None,
    }
}

/// The integer that a number is or that a text denotes.
pub fn number(json: Option<&Json>) -> (value: Option<i64>)
    ensures
        value == number_in(seen(json)),
{
    match integer(json) {
        Some(i) => Some(i),
        None => match text(json) {
            Some(s) => parse_integer(s),
            None => None,
        },
    }
}

/// Sets a key of a record.
pub fn set_field(fields: &mut Vec<(String, Json)>, key: &str, value: Json)
    ensures
        record_view(final(fields)@) == record_view(old(fields)@).insert(key@, value@),
{
    let field: (String, Json) = (key.to_owned(), value);
    match last_field(fields, key) {
        Some(i) => {
            proof {
                lemma_replace_last_field(fields@, i as int, field);
            }
            fields.set(i, field);
        },
        None => {
            proof {
                lemma_record_view_push(fields@, field);
            }
            fields.push(field);
        },
    }
}

/// A record has for a key what was set for it last, whatever was set for other
/// keys, and nothing once the key is gone.
pub proof fn law_field_is_what_was_set(
    fields: Map<Seq<char>, JsonValue>,
    key: Seq<char>,
    other: Seq<char>,
    value: JsonValue,
)
    requires
        other != key,
    ensures
        field_in(Some(JsonValue::Record(fields.insert(key, value))), key) == Some(value),
        field_in(Some(JsonValue::Record(fields.insert(other, value))), key) == field_in(
            Some(JsonValue::Record(fields)),
            key,
        ),
        field_in(Some(JsonValue::Record(fields.remove(key))), key) is None,
        fields.contains_key(key) ==> field_in(Some(JsonValue::Record(fields)), key) == Some(
            fields[key],
        ),
{
}

/// What has a field is a record, and has the key.
pub proof fn law_only_records_have_fields(value: Option<JsonValue>, key: Seq<char>)
    ensures
        field_in(value, key) is Some ==> (value matches Some(JsonValue::Record(fields))
            && fields.contains_key(key)),
{
}

/// A value is read as a text, a list or an integer where it is one, and as
/// nothing else.
pub proof fn law_values_are_read_by_kind(
    value: JsonValue,
    s: Seq<char>,
    items: Seq<JsonValue>,
    i: i64,
)
    ensures
        text_in(Some(value)) == Some(s) <==> value == JsonValue::Text(s),
        list_in(Some(value)) == Some(items) <==> value == JsonValue::List(items),
        integer_in(Some(value)) == Some(i) <==> value == JsonValue::Integer(i),
        text_in(None) is None && list_in(None) is None && integer_in(None) is None && number_in(
            None,
        ) is None,
{
}

/// A number is read from an integer as it is, from a text as the text denotes
/// it, and from no other value.
pub proof fn law_numbers_are_read(value: JsonValue, i: i64, s: Seq<char>)
    ensures
        value == JsonValue::Integer(i) ==> number_in(Some(value)) == Some(i),
        value == JsonValue::Text(s) ==> number_in(Some(value)) == parsed_integer(s),
        number_in(Some(value)) is Some ==> value is Integer || value is Text,
{
}

/// Reading a part of a document by a key, and the part as a text, a list or a
/// number, gives what the document says there.
pub proof fn law_parts_are_read(
    whole: &Json,
    key: &str,
    part: Option<&Json>,
    as_text: Option<&str>,
    as_list: Option<&Vec<Json>>,
    as_number: Option<i64>,
    as_integer: Option<i64>,
)
    requires
        call_ensures(field, (Some(whole), key), part),
        call_ensures(text, (part,), as_text),
        call_ensures(items, (part,), as_list),
        call_ensures(number, (part,), as_number),
        call_ensures(integer, (part,), as_integer),
    ensures
        part is Some <==> field_in(Some(whole@), key@) is Some,
        part matches Some(p) ==> field_in(Some(whole@), key@) == Some(p@),
        part is None ==> as_text is None && as_list is None && as_number is None && as_integer
            is None,
        as_number == number_in(field_in(Some(whole@), key@)),
        as_integer == integer_in(field_in(Some(whole@), key@)),
        as_text is Some <==> text_in(field_in(Some(whole@), key@)) is Some,
        as_text matches Some(s) ==> text_in(field_in(Some(whole@), key@)) == Some(s@),
        as_list is Some <==> list_in(field_in(Some(whole@), key@)) is Some,
        as_list matches Some(list) ==> list_in(field_in(Some(whole@), key@)) == Some(
            Seq::new(list@.len(), |i: int| list@[i]@),
        ),
        part matches Some(Json::Integer(i)) ==> as_number == Some(*i) && as_integer == Some(*i),
        part matches Some(Json::Unsigned(u)) ==> (match as_integer {
            Some(i) => i == *u,
            None => *u > i64::MAX,
        }) && as_number == as_integer,
        part matches Some(Json::Text(s)) ==> as_number == parsed_integer(s@) && as_integer is None,
{
    if as_list is Some {
        let list = as_list->0@;
        assert(list_view(list) =~= Seq::new(list.len(), |i: int| list[i]@));
    }
}

/// A document says what it is made of: its texts, its integers, the items of
/// its lists in their order, and for a key the last of its fields.
pub proof fn law_document_says_what_it_holds(
    text: String,
    i: i64,
    b: bool,
    n: serde_json::Number,
    items: Vec<Json>,
    at: int,
    fields: Vec<(String, Json)>,
    last: int,
)
    requires
        0 <= at < items@.len(),
        0 <= last < fields@.len(),
        forall|j: int| last < j < fields@.len() ==> (#[trigger] fields@[j]).0@ != fields@[last].0@,
    ensures
        Json::Null@ == JsonValue::Null,
        Json::Bool(b)@ == JsonValue::Bool(b),
        Json::Integer(i)@ == JsonValue::Integer(i),
        Json::Text(text)@ == JsonValue::Text(text@),
        number_integer(n) == Some(i) ==> Json::Number(n)@ == JsonValue::Integer(i),
        number_integer(n) is None ==> (match number_unsigned(n) {
            Some(u) => Json::Number(n)@ == JsonValue::Unsigned(u),
            None => Json::Number(n)@ == JsonValue::Real(n),
        }),
        list_in(Some(Json::List(items)@)) matches Some(list) && list.len() == items@.len()
            && list[at] == items@[at]@,
        field_in(Some(Json::Record(fields)@), fields@[last].0@) == Some(fields@[last].1@),
{
    lemma_last_field_counts(fields@, last);
}

/// A key that no field has, a record has nothing for.
pub proof fn law_missing_key_has_no_value(fields: Vec<(String, Json)>, key: Seq<char>)
    requires
        forall|j: int| 0 <= j < fields@.len() ==> (#[trigger] fields@[j]).0@ != key,
    ensures
        field_in(Some(Json::Record(fields)@), key) is None,
{
    lemma_no_field(fields@, key);
}

}
