//! JSON documents in serde_json's own representation, and as text.
use vstd::prelude::*;

use crate::json::{
    field_in, is_plain, is_within, json_view, lemma_is_within_wider, lemma_list_view_push,
    lemma_record_view_push, list_view, number_value, record_view, text_in, Json, JsonValue,
};
use crate::text::same_text;

verus! {

/// `serde_json::Value`, a JSON document as serde_json holds it.
#[verifier::external_type_specification]
#[verifier::external_body]
pub struct ExValue(serde_json::Value);

/// `serde_json::Number`, a JSON number as serde_json holds it.
#[verifier::external_type_specification]
#[verifier::external_body]
pub struct ExNumber(serde_json::Number);

/// The signed 64-bit integer that a number is, if it is one.
pub uninterp spec fn number_integer(n: serde_json::Number) -> Option<i64>;

/// The unsigned 64-bit integer that a number is, if it is one.
pub uninterp spec fn number_unsigned(n: serde_json::Number) -> Option<u64>;

/// What a document of serde_json holds.
pub uninterp spec fn value_content(value: serde_json::Value) -> JsonValue;

/// The document that serde_json reads from bytes, if they are one.
pub uninterp spec fn json_from_bytes(bytes: Seq<u8>) -> Option<JsonValue>;

/// The document that serde_json reads from a string, if it is one.
pub uninterp spec fn json_from_text(text: Seq<char>) -> Option<JsonValue>;

/// The bytes that serde_json writes for a document.
pub uninterp spec fn json_to_bytes(value: JsonValue) -> Option<Seq<u8>>;

/// The compact text that serde_json shows for a document.
pub uninterp spec fn json_to_text(value: JsonValue) -> Seq<char>;

/// The outermost layer of a document of serde_json.
enum Layer {
    Null,
    Bool(bool),
    Number(serde_json::Number),
    Text(String),
    List(Vec<serde_json::Value>),
    Record(Vec<(String, serde_json::Value)>),
}

/// What each item of a list holds.
spec fn list_content(items: Seq<serde_json::Value>) -> Seq<JsonValue> {
    Seq::new(items.len(), |i: int| value_content(items[i]))
}

/// What the fields of a record hold; a later field replaces an earlier one of
/// the same key.
spec fn record_content(fields: Seq<(String, serde_json::Value)>) -> Map<
    Seq<char>,
    JsonValue,
>
    decreases fields.len(),
{
    if fields.len() == 0 {
        Map::empty()
    } else {
        record_content(fields.drop_last()).insert(fields.last().0@, value_content(fields.last().1))
    }
}

/// What a document with this outermost layer holds.
spec fn layer_content(layer: Layer) -> JsonValue {
    match layer {
        Layer::Null => JsonValue::Null,
        Layer::Bool(b) => JsonValue::Bool(b),
        Layer::Number(n) => number_value(n),
        Layer::Text(s) => JsonValue::Text(s@),
        Layer::List(items) => JsonValue::List(list_content(items@)),
        Layer::Record(fields) => JsonValue::Record(record_content(fields@)),
    }
}

/// No two fields have the same key.
spec fn distinct_keys(fields: Seq<(String, serde_json::Value)>) -> bool {
    forall|i: int, j: int|
        0 <= i < j < fields.len() ==> #[trigger] fields[i].0@ != #[trigger] fields[j].0@
}

/// `Number::as_i64`. Trusted: the result is a function of the number, the one
/// that `number_integer` names.
#[verifier::external_body]
pub(crate) fn number_as_i64(n: &serde_json::Number) -> (integer: Option<i64>)
    ensures
        integer == number_integer(*n),
{
    n.as_i64()
}

/// `Number::as_u64`. Trusted: the result is a function of the number, the one
/// that `number_unsigned` names; where it fits in a signed 64-bit integer,
/// `Number::as_i64` gives the same integer.
#[verifier::external_body]
fn number_as_u64(n: &serde_json::Number) -> (integer: Option<u64>)
    ensures
        integer == number_unsigned(*n),
        integer is Some && integer->0 <= i64::MAX ==> number_integer(*n) == Some(
            integer->0 as i64,
        ),
{
    n.as_u64()
}

/// `Number::from(u64)`. Trusted: the number is the integer it is made from, and
/// a signed one too where that fits.
#[verifier::external_body]
fn number_from_u64(integer: u64) -> (n: serde_json::Number)
    ensures
        number_unsigned(n) == Some(integer),
        number_integer(n) == (if integer <= i64::MAX {
            Some(integer as i64)
        } else {
            None
        }),
{
    serde_json::Number::from(integer)
}

/// `Number::from(i64)`. Trusted: the number is the integer it is made from.
#[verifier::external_body]
fn number_from_i64(integer: i64) -> (n: serde_json::Number)
    ensures
        number_integer(n) == Some(integer),
{
    serde_json::Number::from(integer)
}

/// `Number::clone`. Trusted: the copy is the same number.
#[verifier::external_body]
pub(crate) fn number_clone(n: &serde_json::Number) -> (copy: serde_json::Number)
    ensures
        copy == *n,
{
    n.clone()
}

/// Takes the variants of `serde_json::Value` apart; the entries of an object
/// come out in the order in which its `Map` hands them out. Trusted: the
/// document holds what its layer holds, and a `Map` has no key twice.
#[verifier::external_body]
fn unwrap_layer(value: serde_json::Value) -> (layer: Layer)
    ensures
        value_content(value) == layer_content(layer),
        layer matches Layer::Record(fields) ==> distinct_keys(fields@),
{
    match value {
        serde_json::Value::Null => Layer::Null,
        serde_json::Value::Bool(b) => Layer::Bool(b),
        serde_json::Value::Number(n) => Layer::Number(n),
        serde_json::Value::String(s) => Layer::Text(s),
        serde_json::Value::Array(items) => Layer::List(items),
        serde_json::Value::Object(fields) => Layer::Record(fields.into_iter().collect()),
    }
}

/// Builds the variants of `serde_json::Value`; an object is collected into its
/// `Map`. Trusted: the document holds what its layer holds.
#[verifier::external_body]
fn wrap_layer(layer: Layer) -> (value: serde_json::Value)
    requires
        layer matches Layer::Record(fields) ==> distinct_keys(fields@),
    ensures
        value_content(value) == layer_content(layer),
{
    match layer {
        Layer::Null => serde_json::Value::Null,
        Layer::Bool(b) => serde_json::Value::Bool(b),
        Layer::Number(n) => serde_json::Value::Number(n),
        Layer::Text(s) => serde_json::Value::String(s),
        Layer::List(items) => serde_json::Value::Array(items),
        Layer::Record(fields) => serde_json::Value::Object(fields.into_iter().collect()),
    }
}

/// `serde_json::from_slice` into a `Value`. Trusted: whether the bytes are a
/// document, and which, is a function of the bytes.
#[verifier::external_body]
fn value_from_slice(bytes: &[u8]) -> (value: Option<serde_json::Value>)
    ensures
        json_from_bytes(bytes@) == (match value {
            Some(v) => Some(value_content(v)),
            None => None::<JsonValue>,
        }),
{
    serde_json::from_slice(bytes).ok()
}

/// `serde_json::from_str` into a `Value`. Trusted: whether the string is a
/// document, and which, is a function of its characters.
#[verifier::external_body]
fn value_from_str(text: &str) -> (value: Option<serde_json::Value>)
    ensures
        json_from_text(text@) == (match value {
            Some(v) => Some(value_content(v)),
            None => None::<JsonValue>,
        }),
{
    serde_json::from_str(text).ok()
}

/// How deep the lists and records of a document may nest for serde_json to read
/// it back.
pub open spec fn depth_limit() -> nat {
    127
}

/// What a number that is not a 64-bit integer is read back as, where it is
/// written alone; nothing, where it cannot be read.
pub open spec fn reread(n: serde_json::Number) -> Option<JsonValue> {
    match json_to_bytes(JsonValue::Real(n)) {
        Some(bytes) => json_from_bytes(bytes),
        None => None,
    }
}

/// `read` says what `value` says, with each number that is not a 64-bit integer
/// as it is read back alone.
pub open spec fn rereads_as(value: JsonValue, read: JsonValue) -> bool
    decreases value,
{
    match (value, read) {
        (JsonValue::Real(n), JsonValue::Real(m)) => reread(n) == Some(read),
        (JsonValue::List(a), JsonValue::List(b)) => {
            &&& a.len() == b.len()
            &&& forall|i: int| 0 <= i < a.len() ==> rereads_as(#[trigger] a[i], b[i])
        },
        (JsonValue::Record(a), JsonValue::Record(b)) => {
            &&& a.dom().finite()
            &&& a.dom() == b.dom()
            &&& forall|key: Seq<char>|
                a.dom().finite() && #[trigger] a.contains_key(key) ==> rereads_as(a[key], b[key])
        },
        _ => value == read,
    }
}

/// The lists and records of a document nest no deeper than `depth`, and each of
/// its numbers can be read back alone.
pub open spec fn is_readable(value: JsonValue, depth: nat) -> bool {
    is_within(value, depth, |n: serde_json::Number| reread(n) is Some)
}

/// The lists and records of a document nest no deeper than `depth`, and each of
/// its numbers is read back alone as it is.
pub open spec fn is_faithful(value: JsonValue, depth: nat) -> bool {
    is_within(value, depth, |n: serde_json::Number| reread(n) == Some(JsonValue::Real(n)))
}

/// Reading bytes gives, if anything, a document with each number as it is read
/// back alone; and it gives one, where each number is read and none nests too
/// deep.
pub open spec fn reads_as(bytes: Seq<u8>, value: JsonValue) -> bool {
    &&& is_readable(value, depth_limit()) ==> json_from_bytes(bytes) is Some
    &&& json_from_bytes(bytes) matches Some(read) ==> rereads_as(value, read)
}

/// A document of 64-bit integers alone is faithful.
pub proof fn law_plain_is_faithful(value: JsonValue, depth: nat)
    requires
        is_plain(value, depth),
    ensures
        is_faithful(value, depth),
{
    lemma_is_within_wider(
        value,
        depth,
        |n: serde_json::Number| false,
        |n: serde_json::Number| reread(n) == Some(JsonValue::Real(n)),
    );
}

/// A faithful document is readable.
pub proof fn law_faithful_is_readable(value: JsonValue, depth: nat)
    requires
        is_faithful(value, depth),
    ensures
        is_readable(value, depth),
{
    lemma_is_within_wider(
        value,
        depth,
        |n: serde_json::Number| reread(n) == Some(JsonValue::Real(n)),
        |n: serde_json::Number| reread(n) is Some,
    );
}

/// A faithful document is read back as nothing but itself.
proof fn lemma_faithful_rereads_as_itself(value: JsonValue, read: JsonValue, depth: nat)
    requires
        is_faithful(value, depth),
        rereads_as(value, read),
    ensures
        read == value,
    decreases depth,
{
    match (value, read) {
        (JsonValue::List(a), JsonValue::List(b)) => {
            assert forall|i: int| 0 <= i < a.len() implies a[i] == b[i] by {
                assert(rereads_as(a[i], b[i]));
                lemma_faithful_rereads_as_itself(a[i], b[i], (depth - 1) as nat);
            }
            assert(a =~= b);
        },
        (JsonValue::Record(a), JsonValue::Record(b)) => {
            assert forall|key: Seq<char>| #[trigger] a.contains_key(key) implies a[key]
                == b[key] by {
                assert(rereads_as(a[key], b[key]));
                lemma_faithful_rereads_as_itself(a[key], b[key], (depth - 1) as nat);
            }
            assert(a =~= b);
        },
        _ => {},
    }
}

/// Bytes of a faithful document are read back as that document.
pub proof fn law_faithful_document_reads_back(bytes: Seq<u8>, value: JsonValue)
    requires
        reads_as(bytes, value),
        is_faithful(value, depth_limit()),
    ensures
        json_from_bytes(bytes) == Some(value),
{
    law_faithful_is_readable(value, depth_limit());
    lemma_faithful_rereads_as_itself(value, json_from_bytes(bytes)->0, depth_limit());
}

/// A text that a document has for a key, it still has once it is read back.
pub proof fn law_texts_are_read_back(value: JsonValue, read: JsonValue, key: Seq<char>)
    requires
        rereads_as(value, read),
    ensures
        text_in(field_in(Some(value), key)) == text_in(field_in(Some(read), key)),
{
    match (value, read) {
        (JsonValue::Record(a), JsonValue::Record(b)) => {
            assert(a.contains_key(key) == b.contains_key(key));
            if a.contains_key(key) {
                assert(rereads_as(a[key], b[key]));
            }
        },
        _ => {},
    }
}

/// `serde_json::to_vec` of a `Value`. Trusted: the bytes are a function of what
/// the document holds, since a `Map` hands its keys out sorted, and writing
/// never fails, since its keys are strings and the bytes go to memory. Reading
/// them gives the document back, but for floats, which serde_json may round or
/// refuse as it reads; it does to a float in a document what it does to the same
/// float alone. Nothing is read where lists and records nest too deep or a float
/// is refused. Which floats come back as they are is left unsaid.
#[verifier::external_body]
fn value_to_vec(value: &serde_json::Value) -> (bytes: Option<Vec<u8>>)
    ensures
        json_to_bytes(value_content(*value)) == (match bytes {
            Some(b) => Some(b@),
            None => None::<Seq<u8>>,
        }),
        bytes is Some,
        reads_as(bytes->0@, value_content(*value)),
{
    serde_json::to_vec(value).ok()
}

/// `Value::to_string`, its `Display` in compact form. Trusted: the text is a
/// function of what the document holds, and has no line break, since the compact
/// form puts none between its parts and escapes those in strings. Reading it
/// gives the document back, where it nests no deeper than serde_json reads and
/// holds no number but 64-bit integers, signed or not.
#[verifier::external_body]
fn value_to_string(value: &serde_json::Value) -> (text: String)
    ensures
        text@ == json_to_text(value_content(*value)),
        !text@.contains('\n'),
        is_plain(value_content(*value), depth_limit()) ==> json_from_text(text@) == Some(
            value_content(*value),
        ),
{
    value.to_string()
}

/// A record has finitely many keys.
proof fn lemma_record_content_finite(fields: Seq<(String, serde_json::Value)>)
    ensures
        record_content(fields).dom().finite(),
    decreases fields.len(),
{
    if fields.len() > 0 {
        lemma_record_content_finite(fields.drop_last());
    }
}

/// Every field of a record with distinct keys gives the value of its key.
proof fn lemma_record_content_member(fields: Seq<(String, serde_json::Value)>, i: int)
    requires
        distinct_keys(fields),
        0 <= i < fields.len(),
    ensures
        record_content(fields).dom().finite(),
        record_content(fields).contains_key(fields[i].0@),
        record_content(fields)[fields[i].0@] == value_content(fields[i].1),
    decreases fields.len(),
{
    lemma_record_content_finite(fields);
    if i < fields.len() - 1 {
        let rest = fields.drop_last();
        assert(rest[i] == fields[i]);
        assert forall|j: int, k: int| 0 <= j < k < rest.len() implies #[trigger] rest[j].0@
            != #[trigger] rest[k].0@ by {
            assert(fields[j].0@ != fields[k].0@);
        }
        lemma_record_content_member(rest, i);
        assert(fields[i].0@ != fields[fields.len() - 1].0@);
    }
}

/// The document that a `Value` of serde_json holds.
fn import(value: serde_json::Value) -> (json: Json)
    ensures
        json@ == value_content(value),
    decreases value_content(value),
{
    let ghost content = value_content(value);
    match unwrap_layer(value) {
        Layer::Null => Json::Null,
        Layer::Bool(b) => Json::Bool(b),
        Layer::Number(n) => match number_as_i64(&n) {
            Some(i) => Json::Integer(i),
            None => match number_as_u64(&n) {
                Some(u) => Json::Unsigned(u),
                None => Json::Number(n),
            },
        },
        Layer::Text(s) => Json::Text(s),
        Layer::List(items) => {
            let ghost all = items@;
            let mut list: Vec<Json> = Vec::new();
            assert(list_view(list@) =~= list_content(all).take(0));
            for item in iter: items
                invariant
                    iter.seq() == all,
                    content == value_content(value),
                    content == JsonValue::List(list_content(all)),
                    list_view(list@) == list_content(all).take(iter.index() as int),
            {
                let ghost i = iter.index() as int;
                let ghost before = list@;
                assert(list_content(all)[i] == value_content(item));
                assert(decreases_to!(content => content->List_0));
                assert(decreases_to!(content->List_0 => content->List_0[i]));
                list.push(import(item));
                proof {
                    lemma_list_view_push(before, list@.last());
                }
                assert(list_content(all).take(i + 1) =~= list_content(all).take(i).push(
                    list_content(all)[i],
                ));
            }
            assert(list_content(all).take(all.len() as int) =~= list_content(all));
            Json::List(list)
        },
        Layer::Record(fields) => {
            let ghost all = fields@;
            let mut record: Vec<(String, Json)> = Vec::new();
            for field in iter: fields
                invariant
                    iter.seq() == all,
                    distinct_keys(all),
                    content == value_content(value),
                    content == JsonValue::Record(record_content(all)),
                    record_view(record@) == record_content(all.take(iter.index() as int)),
            {
                let ghost i = iter.index() as int;
                let ghost before = record@;
                proof {
                    lemma_record_content_member(all, i);
                    assert(decreases_to!(content => content->Record_0));
                    assert(decreases_to!(content->Record_0 => content->Record_0[all[i].0@]));
                }
                let (key, item) = field;
                record.push((key, import(item)));
                proof {
                    lemma_record_view_push(before, record@.last());
                }
                assert(record@ =~= before.push(record@.last()));
                assert(all.take(i + 1).drop_last() =~= all.take(i));
            }
            assert(all.take(all.len() as int) =~= all);
            Json::Record(record)
        },
    }
}

/// A field from position `from` on has the key.
spec fn has_key_from(fields: Seq<(String, Json)>, from: int, key: Seq<char>) -> bool {
    exists|j: int| from <= j < fields.len() && (#[trigger] fields[j]).0@ == key
}

/// `content` has the keys of the first `count` fields that no later field has,
/// each with the value that these fields give it.
spec fn is_settled(
    content: Map<Seq<char>, JsonValue>,
    fields: Seq<(String, Json)>,
    count: int,
) -> bool {
    forall|key: Seq<char>|
        {
            let earlier = record_view(fields.take(count));
            &&& #[trigger] content.contains_key(key) <==> earlier.contains_key(key)
                && !has_key_from(fields, count, key)
            &&& content.contains_key(key) ==> content[key] == earlier[key]
        }
}

/// A key from a position on is the key at that position or one from the next.
proof fn lemma_has_key_next(fields: Seq<(String, Json)>, from: int)
    requires
        0 <= from < fields.len(),
    ensures
        forall|key: Seq<char>| #[trigger]
            has_key_from(fields, from, key) <==> (fields[from].0@ == key || has_key_from(
                fields,
                from + 1,
                key,
            )),
{
}

/// Whether a field from position `from` on has the key.
fn is_key_from(fields: &Vec<(String, Json)>, from: usize, key: &str) -> (found: bool)
    requires
        from <= fields@.len(),
    ensures
        found == has_key_from(fields@, from as int, key@),
{
    let mut i: usize = from;
    while i < fields.len()
        invariant
            from <= i <= fields@.len(),
            forall|j: int| from <= j < i ==> (#[trigger] fields@[j]).0@ != key@,
        decreases fields@.len() - i,
    {
        if same_text(fields[i].0.as_str(), key) {
            return true;
        }
        i = i + 1;
    }
    false
}

/// The `Value` of serde_json that holds a document.
fn export(json: &Json) -> (value: serde_json::Value)
    ensures
        value_content(value) == json@,
    decreases json,
{
    match json {
        Json::Null => wrap_layer(Layer::Null),
        Json::Bool(b) => wrap_layer(Layer::Bool(*b)),
        Json::Integer(i) => wrap_layer(Layer::Number(number_from_i64(*i))),
        Json::Unsigned(u) => wrap_layer(Layer::Number(number_from_u64(*u))),
        Json::Number(n) => wrap_layer(Layer::Number(number_clone(n))),
        Json::Text(s) => wrap_layer(Layer::Text(s.clone())),
        Json::List(items) => {
            let mut values: Vec<serde_json::Value> = Vec::new();
            let mut i: usize = 0;
            while i < items.len()
                invariant
                    i <= items@.len(),
                    *json == Json::List(*items),
                    values@.len() == i,
                    forall|j: int|
                        0 <= j < i ==> value_content(#[trigger] values@[j]) == json_view(items@[j]),
                decreases items@.len() - i,
            {
                proof {
                    let list = json->List_0;
                    assert(decreases_to!(json => json->List_0));
                    assert(decreases_to!(list => list@));
                    assert(decreases_to!(list@ => list@[i as int]));
                }
                values.push(export(&items[i]));
                i = i + 1;
            }
            assert(list_content(values@) =~= list_view(items@));
            wrap_layer(Layer::List(values))
        },
        Json::Record(fields) => {
            let mut values: Vec<(String, serde_json::Value)> = Vec::new();
            let mut i: usize = 0;
            while i < fields.len()
                invariant
                    i <= fields@.len(),
                    *json == Json::Record(*fields),
                    distinct_keys(values@),
                    forall|j: int|
                        0 <= j < values@.len() ==> !has_key_from(
                            fields@,
                            i as int,
                            (#[trigger] values@[j]).0@,
                        ),
                    is_settled(record_content(values@), fields@, i as int),
                decreases fields@.len() - i,
            {
                let ghost before = values@;
                let key: &str = fields[i].0.as_str();
                assert(has_key_from(fields@, i as int, key@));
                assert(fields@.take(i + 1).drop_last() =~= fields@.take(i as int));
                proof {
                    lemma_has_key_next(fields@, i as int);
                }
                if !is_key_from(fields, i + 1, key) {
                    proof {
                        let list = json->Record_0;
                        assert(decreases_to!(json => json->Record_0));
                        assert(decreases_to!(list => list@));
                        assert(decreases_to!(list@ => list@[i as int]));
                        assert(decreases_to!(list@[i as int] => list@[i as int].1));
                    }
                    let value = export(&fields[i].1);
                    values.push((fields[i].0.clone(), value));
                    assert(values@.drop_last() =~= before);
                    assert forall|j: int, k: int| 0 <= j < k < values@.len() implies (
                    #[trigger] values@[j]).0@ != (#[trigger] values@[k]).0@ by {
                        assert(values@[j] == before[j]);
                        if k < before.len() {
                            assert(values@[k] == before[k]);
                        }
                    }
                }
                i = i + 1;
            }
            assert(fields@.take(fields@.len() as int) =~= fields@);
            assert(record_content(values@) =~= record_view(fields@)) by {
                assert forall|key: Seq<char>| !has_key_from(
                    fields@,
                    fields@.len() as int,
                    key,
                ) by {}
            }
            wrap_layer(Layer::Record(values))
        },
    }
}

/// The document that bytes hold; `None` where they hold none.
pub fn parse_json(bytes: &[u8]) -> (json: Option<Json>)
    ensures
        json_from_bytes(bytes@) == (match json {
            Some(j) => Some(j@),
            None => None::<JsonValue>,
        }),
{
    match value_from_slice(bytes) {
        Some(value) => Some(import(value)),
        None => None,
    }
}

/// The document that a string holds; `None` where it holds none.
pub fn parse_json_text(text: &str) -> (json: Option<Json>)
    ensures
        json_from_text(text@) == (match json {
            Some(j) => Some(j@),
            None => None::<JsonValue>,
        }),
{
    match value_from_str(text) {
        Some(value) => Some(import(value)),
        None => None,
    }
}

/// A document as bytes of JSON, and what reading them gives: the document
/// itself, where it is faithful, and otherwise, if anything, the document with
/// each number as it is read back alone.
pub fn json_bytes(json: &Json) -> (bytes: Option<Vec<u8>>)
    ensures
        json_to_bytes(json@) == (match bytes {
            Some(b) => Some(b@),
            None => None::<Seq<u8>>,
        }),
        bytes is Some,
        reads_as(bytes->0@, json@),
        is_faithful(json@, depth_limit()) ==> json_from_bytes(bytes->0@) == Some(json@),
{
    let bytes = value_to_vec(&export(json));
    proof {
        if is_faithful(json@, depth_limit()) {
            law_faithful_document_reads_back(bytes->0@, json@);
        }
    }
    bytes
}

/// A document as one line of JSON, from which a plain document is read back.
pub fn json_line(json: &Json) -> (line: String)
    ensures
        line@ == json_to_text(json@),
        !line@.contains('\n'),
        is_plain(json@, depth_limit()) ==> json_from_text(line@) == Some(json@),
{
    value_to_string(&export(json))
}

/// What is read from bytes and from text is the document that serde_json reads,
/// and nothing where it reads none.
pub proof fn law_documents_are_read(
    bytes: &[u8],
    from_bytes: Option<Json>,
    text: &str,
    from_text: Option<Json>,
)
    requires
        call_ensures(parse_json, (bytes,), from_bytes),
        call_ensures(parse_json_text, (text,), from_text),
    ensures
        from_bytes is Some <==> json_from_bytes(bytes@) is Some,
        from_bytes matches Some(json) ==> json_from_bytes(bytes@) == Some(json@),
        from_text is Some <==> json_from_text(text@) is Some,
        from_text matches Some(json) ==> json_from_text(text@) == Some(json@),
{
}

/// A faithful document that is written and read is the same document.
pub proof fn law_written_document_is_read(
    json: &Json,
    written: Option<Vec<u8>>,
    bytes: &[u8],
    read: Option<Json>,
)
    requires
        call_ensures(json_bytes, (json,), written),
        written is Some ==> bytes@ == written->0@,
        call_ensures(parse_json, (bytes,), read),
        is_faithful(json@, depth_limit()),
    ensures
        written is Some,
        read matches Some(again) && again@ == json@,
{
}

/// A document of 64-bit integers alone that is written as a line and read is the
/// same document, and the line has no break in it.
pub proof fn law_written_line_is_read(json: &Json, line: String, text: &str, read: Option<Json>)
    requires
        call_ensures(json_line, (json,), line),
        text@ == line@,
        call_ensures(parse_json_text, (text,), read),
        is_plain(json@, depth_limit()),
    ensures
        !line@.contains('\n'),
        read matches Some(again) && again@ == json@,
{
}

}
