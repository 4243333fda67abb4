use vstd::prelude::*;

use bson::Document;

use crate::document::{doc_fields, order_fields, order_from_fields, Field};
use crate::mapping::{
    lemma_document_round_trip, lemma_order_fields_entries, map_to_external_model, map_to_mongo_doc,
    read_work_order,
};
use crate::model::{ConnectionOptions, OrderView, WorkOrder};

verus! {

/// The operations of a work-order store, whatever holds the records.
pub trait DataStore<T>: Sized {
    fn new(options: Option<ConnectionOptions>) -> Self
        requires
            options is Some,
    ;

    fn get_data(&self) -> Vec<Option<T>>;

    fn get_data_by_id(&self, id: String) -> Option<T>;

    fn create_new(&self, data: &T) -> Option<T>;

    fn update(&self, data: &T) -> Option<T>;

    fn delete(&self, id: String) -> bool;
}

/// A stored document is selected by a filter when it holds every entry of it.
pub open spec fn matches_filter(doc: Map<Seq<char>, Field>, filter: Map<Seq<char>, Field>) -> bool {
    forall|k: Seq<char>| filter.contains_key(k) ==> doc.contains_key(k) && doc[k] == filter[k]
}

/// The orders of a listing, one slot per record that the database returned:
/// a record that could not be fetched leaves its slot empty.
pub fn collect_orders(found: &Vec<Option<Document>>, now: i64) -> (r: Vec<Option<WorkOrder>>)
    ensures
        r.len() == found.len(),
        forall|i: int|
            0 <= i < r.len() ==> match (#[trigger] found[i], r[i]) {
                (Some(d), Some(w)) => w@ == order_from_fields(doc_fields(d), now),
                (None, None) => true,
                _ => false,
            },
{
    let mut r: Vec<Option<WorkOrder>> = Vec::new();
    let mut i: usize = 0;
    while i < found.len()
        invariant
            i <= found.len(),
            r.len() == i,
            forall|j: int|
                0 <= j < i ==> match (#[trigger] found[j], r[j]) {
                    (Some(d), Some(w)) => w@ == order_from_fields(doc_fields(d), now),
                    (None, None) => true,
                    _ => false,
                },
        decreases found.len() - i,
    {
        let slot = match &found[i] {
            Some(d) => Some(map_to_external_model(d, now)),
            None => None,
        };
        r.push(slot);
        i = i + 1;
    }
    r
}

/// The order of the first record that a lookup by identifier returned, if any.
pub fn lookup_outcome(first: &Option<Document>, now: i64) -> (r: Option<WorkOrder>)
    ensures
        match (first, r) {
            (Some(d), Some(w)) => w@ == order_from_fields(doc_fields(*d), now),
            (None, None) => true,
            _ => false,
        },
{
    match first {
        Some(d) => Some(map_to_external_model(d, now)),
        None => None,
    }
}

/// What a creation reports: on success the order read back from the
/// document that was written, which is the order given.
pub fn created_order(data: &WorkOrder, inserted: bool) -> (r: Option<WorkOrder>)
    ensures
        inserted <==> r is Some,
        r matches Some(w) ==> w@ == data@,
{
    if inserted {
        let doc = map_to_mongo_doc(data);
        let w = read_work_order(&doc);
        proof {
            let now = choose|now: i64| w@ == order_from_fields(doc_fields(doc), now);
            lemma_document_round_trip(data@, now);
        }
        Some(w)
    } else {
        None
    }
}

/// What an update reports: on success the order as it now stands.
pub fn updated_order(data: &WorkOrder, updated: bool) -> (r: Option<WorkOrder>)
    ensures
        updated <==> r is Some,
        r matches Some(w) ==> w@ == data@,
{
    if updated {
        Some(data.duplicate())
    } else {
        None
    }
}

/// An order that was written is selected by the filter on its identifier,
/// and reads back as itself.
pub proof fn lemma_created_document_found(o: OrderView, now: i64)
    ensures
        matches_filter(order_fields(o), map!["orderId"@ => Field::Text(o.order_id)]),
        order_from_fields(order_fields(o), now) == o,
{
    lemma_document_round_trip(o, now);
    lemma_order_fields_entries(o);
    let m = order_fields(o);
    assert forall|k: Seq<char>| #[trigger] map!["orderId"@ => Field::Text(o.order_id)].contains_key(k)
        implies m.contains_key(k) && m[k] == map!["orderId"@ => Field::Text(o.order_id)][k] by {
        assert(k == "orderId"@);
    }
}

} // verus!
