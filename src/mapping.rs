use vstd::prelude::*;

use bson::Document;

use crate::document::{
    clock_millis, doc_fields, empty_document, get_field_as_datetime, get_field_as_str,
    order_fields, order_from_fields, put, Field, Value,
};
use crate::model::{OrderView, WorkOrder};

verus! {

/// The stored form of an order, field for field.
pub fn map_to_mongo_doc(data: &WorkOrder) -> (r: Document)
    ensures
        doc_fields(r) == order_fields(data@),
{
    let mut d = empty_document();
    put(&mut d, "orderId", Value::Text(data.order_id.clone()));
    put(&mut d, "size", Value::Text(data.size.clone()));
    put(&mut d, "filled", Value::Text(data.filled.clone()));
    put(&mut d, "status", Value::Text(data.status.clone()));
    put(&mut d, "ticker", Value::Text(data.ticker.clone()));
    put(&mut d, "mic", Value::Text(data.mic.clone()));
    put(&mut d, "action", Value::Text(data.action.clone()));
    put(&mut d, "timestamp", Value::Date(data.timestamp));
    put(&mut d, "last_modified", Value::Date(data.last_modified));
    assert(doc_fields(d) =~= order_fields(data@));
    d
}

/// The order that a stored document holds; a missing text field reads as
/// empty, a missing date as `now`.
pub fn map_to_external_model(mongo_doc: &Document, now: i64) -> (r: WorkOrder)
    ensures
        r@ == order_from_fields(doc_fields(*mongo_doc), now),
{
    WorkOrder {
        order_id: get_field_as_str("orderId", mongo_doc),
        size: get_field_as_str("size", mongo_doc),
        filled: get_field_as_str("filled", mongo_doc),
        status: get_field_as_str("status", mongo_doc),
        ticker: get_field_as_str("ticker", mongo_doc),
        mic: get_field_as_str("mic", mongo_doc),
        action: get_field_as_str("action", mongo_doc),
        timestamp: get_field_as_datetime("timestamp", mongo_doc, now),
        last_modified: get_field_as_datetime("last_modified", mongo_doc, now),
    }
}

/// The order that a stored document holds, a missing date read as the
/// current time.
pub fn read_work_order(mongo_doc: &Document) -> (r: WorkOrder)
    ensures
        exists|now: i64| r@ == order_from_fields(doc_fields(*mongo_doc), now),
{
    let now = clock_millis();
    map_to_external_model(mongo_doc, now)
}

/// Each attribute of an order stands under its own key in the stored form.
pub(crate) proof fn lemma_order_fields_entries(o: OrderView)
    ensures
        order_fields(o).contains_key("orderId"@) && order_fields(o)["orderId"@] == Field::Text(o.order_id),
        order_fields(o).contains_key("size"@) && order_fields(o)["size"@] == Field::Text(o.size),
        order_fields(o).contains_key("filled"@) && order_fields(o)["filled"@] == Field::Text(o.filled),
        order_fields(o).contains_key("status"@) && order_fields(o)["status"@] == Field::Text(o.status),
        order_fields(o).contains_key("ticker"@) && order_fields(o)["ticker"@] == Field::Text(o.ticker),
        order_fields(o).contains_key("mic"@) && order_fields(o)["mic"@] == Field::Text(o.mic),
        order_fields(o).contains_key("action"@) && order_fields(o)["action"@] == Field::Text(o.action),
        order_fields(o).contains_key("timestamp"@) && order_fields(o)["timestamp"@] == Field::Date(o.timestamp),
        order_fields(o).contains_key("last_modified"@) && order_fields(o)["last_modified"@] == Field::Date(o.last_modified),
{
    reveal_strlit("orderId");
    reveal_strlit("size");
    reveal_strlit("filled");
    reveal_strlit("status");
    reveal_strlit("ticker");
    reveal_strlit("mic");
    reveal_strlit("action");
    reveal_strlit("timestamp");
    reveal_strlit("last_modified");
    assert("orderId"@.len() == 7 && "orderId"@[0] == 'o');
    assert("size"@.len() == 4 && "size"@[0] == 's');
    assert("filled"@.len() == 6 && "filled"@[0] == 'f');
    assert("status"@.len() == 6 && "status"@[0] == 's');
    assert("ticker"@.len() == 6 && "ticker"@[0] == 't');
    assert("mic"@.len() == 3 && "mic"@[0] == 'm');
    assert("action"@.len() == 6 && "action"@[0] == 'a');
    assert("timestamp"@.len() == 9 && "timestamp"@[0] == 't');
    assert("last_modified"@.len() == 13 && "last_modified"@[0] == 'l');
}

/// Writing an order into its stored form and reading it back gives the
/// same order, whatever time stands in for a missing date.
pub proof fn lemma_document_round_trip(o: OrderView, now: i64)
    ensures
        order_from_fields(order_fields(o), now) == o,
{
    lemma_order_fields_entries(o);
}

} // verus!
