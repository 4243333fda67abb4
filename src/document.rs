use vstd::prelude::*;

use bson::Document;

use crate::model::OrderView;

verus! {

#[verifier::external_type_specification]
#[verifier::external_body]
pub struct ExDocument(bson::Document);

/// What a document holds under one key, as far as this library reads it.
pub enum Field {
    Text(Seq<char>),
    /// A UTC date, in milliseconds since the Unix epoch.
    Date(i64),
    Flag(bool),
    Int(i32),
    Nested(Document),
    /// Any other BSON value (an object id, a float, an array, ...).
    Other,
}

/// The key-value contents of a BSON document.
pub uninterp spec fn doc_fields(d: Document) -> Map<Seq<char>, Field>;

/// A value that this library writes into a document.
pub enum Value {
    Text(String),
    Date(i64),
    Flag(bool),
    Int(i32),
    Nested(Document),
}

pub open spec fn field_of(v: Value) -> Field {
    match v {
        Value::Text(s) => Field::Text(s@),
        Value::Date(ms) => Field::Date(ms),
        Value::Flag(b) => Field::Flag(b),
        Value::Int(i) => Field::Int(i),
        Value::Nested(d) => Field::Nested(d),
    }
}

/// The outcome of reading one typed field of a document.
pub enum FieldRead<T> {
    Present(T),
    Missing,
    Malformed,
}

/// Relies on bson::Document::new: a new document is empty.
#[verifier::external_body]
pub(crate) fn empty_document() -> (r: Document)
    ensures
        doc_fields(r).dom() == Set::<Seq<char>>::empty(),
{
    Document::new()
}

/// Relies on bson::Document::insert: the key maps to the new value afterwards,
/// and every other key is kept (bson::DateTime::from_millis keeps the milliseconds).
#[verifier::external_body]
pub(crate) fn put(d: &mut Document, key: &str, v: Value)
    ensures
        doc_fields(*final(d)) == doc_fields(*old(d)).insert(key@, field_of(v)),
{
    let b = match v {
        Value::Text(s) => bson::Bson::String(s),
        Value::Date(ms) => bson::Bson::DateTime(bson::DateTime::from_millis(ms)),
        Value::Flag(f) => bson::Bson::Boolean(f),
        Value::Int(i) => bson::Bson::Int32(i),
        Value::Nested(n) => bson::Bson::Document(n),
    };
    d.insert(key, b);
}

/// Relies on bson::Document::get_str: a string under the key, `NotPresent`
/// for a missing key, `UnexpectedType` for a value of another type.
#[verifier::external_body]
pub(crate) fn read_text(d: &Document, key: &str) -> (r: FieldRead<String>)
    ensures
        match r {
            FieldRead::Present(s) => doc_fields(*d).contains_key(key@) && doc_fields(*d)[key@]
                == Field::Text(s@),
            FieldRead::Missing => !doc_fields(*d).contains_key(key@),
            FieldRead::Malformed => doc_fields(*d).contains_key(key@) && !(doc_fields(
                *d,
            )[key@] is Text),
        },
{
    match d.get_str(key) {
        Ok(s) => FieldRead::Present(s.to_string()),
        Err(bson::document::ValueAccessError::NotPresent) => FieldRead::Missing,
        Err(_) => FieldRead::Malformed,
    }
}

/// Relies on bson::Document::get_datetime: a date under the key, `NotPresent`
/// for a missing key, `UnexpectedType` for a value of another type
/// (bson::DateTime::timestamp_millis gives back its milliseconds).
#[verifier::external_body]
pub(crate) fn read_date(d: &Document, key: &str) -> (r: FieldRead<i64>)
    ensures
        match r {
            FieldRead::Present(ms) => doc_fields(*d).contains_key(key@) && doc_fields(*d)[key@]
                == Field::Date(ms),
            FieldRead::Missing => !doc_fields(*d).contains_key(key@),
            FieldRead::Malformed => doc_fields(*d).contains_key(key@) && !(doc_fields(
                *d,
            )[key@] is Date),
        },
{
    match d.get_datetime(key) {
        Ok(dt) => FieldRead::Present(dt.timestamp_millis()),
        Err(bson::document::ValueAccessError::NotPresent) => FieldRead::Missing,
        Err(_) => FieldRead::Malformed,
    }
}

/// Relies on chrono::Utc::now: the current time in milliseconds since the
/// Unix epoch. Nothing is known of its value.
#[verifier::external_body]
pub(crate) fn clock_millis() -> i64 {
    chrono::Utc::now().timestamp_millis()
}

/// How a date is written out, given in milliseconds since the Unix epoch.
pub uninterp spec fn date_text_of(ms: i64) -> Seq<char>;

/// Relies on bson::DateTime's Display: an RFC 3339 instant where the date is
/// in range, the plain milliseconds otherwise. The text depends on `ms` alone.
#[verifier::external_body]
pub(crate) fn date_text(ms: i64) -> (r: String)
    ensures
        r@ == date_text_of(ms),
{
    bson::DateTime::from_millis(ms).to_string()
}

/// The text under `key`, or the empty string where there is none.
pub open spec fn text_or_empty(m: Map<Seq<char>, Field>, key: Seq<char>) -> Seq<char> {
    if m.contains_key(key) && m[key] is Text {
        m[key]->Text_0
    } else {
        Seq::empty()
    }
}

/// The date under `key`, or `now` where there is none.
pub open spec fn date_or(m: Map<Seq<char>, Field>, key: Seq<char>, now: i64) -> i64 {
    if m.contains_key(key) && m[key] is Date {
        m[key]->Date_0
    } else {
        now
    }
}

/// The stored form of an order: one entry per attribute.
pub open spec fn order_fields(o: OrderView) -> Map<Seq<char>, Field> {
    map![
        "orderId"@ => Field::Text(o.order_id),
        "size"@ => Field::Text(o.size),
        "filled"@ => Field::Text(o.filled),
        "status"@ => Field::Text(o.status),
        "ticker"@ => Field::Text(o.ticker),
        "mic"@ => Field::Text(o.mic),
        "action"@ => Field::Text(o.action),
        "timestamp"@ => Field::Date(o.timestamp),
        "last_modified"@ => Field::Date(o.last_modified),
    ]
}

/// The order read from a stored document, missing text read as empty and
/// missing dates read as `now`.
pub open spec fn order_from_fields(m: Map<Seq<char>, Field>, now: i64) -> OrderView {
    OrderView {
        order_id: text_or_empty(m, "orderId"@),
        size: text_or_empty(m, "size"@),
        filled: text_or_empty(m, "filled"@),
        status: text_or_empty(m, "status"@),
        ticker: text_or_empty(m, "ticker"@),
        mic: text_or_empty(m, "mic"@),
        action: text_or_empty(m, "action"@),
        timestamp: date_or(m, "timestamp"@, now),
        last_modified: date_or(m, "last_modified"@, now),
    }
}

/// The text under `field_name`; the empty string where the field is missing
/// or holds no text.
pub fn get_field_as_str(field_name: &str, document: &Document) -> (r: String)
    ensures
        r@ == text_or_empty(doc_fields(*document), field_name@),
{
    match read_text(document, field_name) {
        FieldRead::Present(s) => s,
        _ => String::new(),
    }
}

/// The date under `field_name`; `now` where the field is missing or holds no date.
pub fn get_field_as_datetime(field_name: &str, document: &Document, now: i64) -> (r: i64)
    ensures
        r == date_or(doc_fields(*document), field_name@, now),
{
    match read_date(document, field_name) {
        FieldRead::Present(ms) => ms,
        _ => now,
    }
}

} // verus!
