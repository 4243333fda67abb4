use vstd::prelude::*;

use bson::Document;

use crate::document::{doc_fields, empty_document, put, Field, Value};

verus! {

/// How many orders a listing returns at most.
pub const RECENT_LIMIT: u32 = 10;

/// The fields that a read returns: the record's own id and the nine attributes.
pub open spec fn projection_fields() -> Map<Seq<char>, Field> {
    map![
        "_id"@ => Field::Flag(true),
        "orderId"@ => Field::Flag(true),
        "size"@ => Field::Flag(true),
        "filled"@ => Field::Flag(true),
        "status"@ => Field::Flag(true),
        "ticker"@ => Field::Flag(true),
        "mic"@ => Field::Flag(true),
        "action"@ => Field::Flag(true),
        "timestamp"@ => Field::Flag(true),
        "last_modified"@ => Field::Flag(true),
    ]
}

/// The projection that every read applies.
pub fn build_out_doc_projection() -> (r: Document)
    ensures
        doc_fields(r) == projection_fields(),
{
    let mut d = empty_document();
    put(&mut d, "_id", Value::Flag(true));
    put(&mut d, "orderId", Value::Flag(true));
    put(&mut d, "size", Value::Flag(true));
    put(&mut d, "filled", Value::Flag(true));
    put(&mut d, "status", Value::Flag(true));
    put(&mut d, "ticker", Value::Flag(true));
    put(&mut d, "mic", Value::Flag(true));
    put(&mut d, "action", Value::Flag(true));
    put(&mut d, "timestamp", Value::Flag(true));
    put(&mut d, "last_modified", Value::Flag(true));
    assert(doc_fields(d) =~= projection_fields());
    d
}

/// The filter that selects the records of one order identifier.
pub fn order_id_filter(id: &str) -> (r: Document)
    ensures
        doc_fields(r) == map!["orderId"@ => Field::Text(id@)],
{
    let mut d = empty_document();
    put(&mut d, "orderId", Value::Text(id.to_string()));
    assert(doc_fields(d) =~= map!["orderId"@ => Field::Text(id@)]);
    d
}

/// The query that lists every record, newest `timestamp` first.
pub fn recent_orders_query() -> (r: Document)
    ensures
        doc_fields(r).dom() == set!["$query"@, "$sort"@],
        doc_fields(r)["$query"@] is Nested,
        doc_fields(doc_fields(r)["$query"@]->Nested_0).dom() == Set::<Seq<char>>::empty(),
        doc_fields(r)["$sort"@] is Nested,
        doc_fields(doc_fields(r)["$sort"@]->Nested_0) == map!["timestamp"@ => Field::Int(-1i32)],
{
    let everything = empty_document();
    let mut order = empty_document();
    put(&mut order, "timestamp", Value::Int(-1));
    let ghost e = everything;
    let ghost o = order;
    let mut d = empty_document();
    put(&mut d, "$query", Value::Nested(everything));
    put(&mut d, "$sort", Value::Nested(order));
    proof {
        reveal_strlit("$query");
        reveal_strlit("$sort");
        assert("$query"@.len() == 6 && "$sort"@.len() == 5);
        assert(doc_fields(d)["$query"@] == Field::Nested(e));
    }
    assert(doc_fields(d).dom() =~= set!["$query"@, "$sort"@]);
    assert(doc_fields(o) =~= map!["timestamp"@ => Field::Int(-1i32)]);
    d
}

} // verus!
