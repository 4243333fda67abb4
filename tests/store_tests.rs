use bson::Document;
use work_order_store::document::{get_field_as_datetime, get_field_as_str};
use work_order_store::mapping::{map_to_external_model, map_to_mongo_doc, read_work_order};
use work_order_store::memory::MemoryDataStore;
use work_order_store::model::WorkOrder;
use work_order_store::queries::{
    build_out_doc_projection, order_id_filter, recent_orders_query, RECENT_LIMIT,
};
use work_order_store::store::{collect_orders, created_order, lookup_outcome, updated_order};

fn order(id: &str, size: &str, timestamp: i64) -> WorkOrder {
    WorkOrder {
        order_id: id.to_string(),
        size: size.to_string(),
        filled: "0".to_string(),
        status: "Accepted".to_string(),
        ticker: "BTCUSD".to_string(),
        mic: "LIQD".to_string(),
        action: "BUY".to_string(),
        timestamp,
        last_modified: timestamp + 5,
    }
}

fn same(a: &WorkOrder, b: &WorkOrder) -> bool {
    a.order_id == b.order_id
        && a.size == b.size
        && a.filled == b.filled
        && a.status == b.status
        && a.ticker == b.ticker
        && a.mic == b.mic
        && a.action == b.action
        && a.timestamp == b.timestamp
        && a.last_modified == b.last_modified
}

#[test]
fn document_round_trip_keeps_every_field() {
    let w = order("665599", "1", 1_600_000_000_000);
    let doc = map_to_mongo_doc(&w);
    assert_eq!(doc.len(), 9);
    assert_eq!(doc.get_str("orderId").unwrap(), "665599");
    assert_eq!(doc.get_datetime("last_modified").unwrap().timestamp_millis(), 1_600_000_000_005);
    let back = map_to_external_model(&doc, 42);
    assert!(same(&back, &w));
    let again = read_work_order(&doc);
    assert!(same(&again, &w));
}

#[test]
fn missing_text_reads_as_empty() {
    let mut doc = Document::new();
    doc.insert("size", "7");
    doc.insert("status", 3i32);
    assert_eq!(get_field_as_str("size", &doc), "7");
    assert_eq!(get_field_as_str("orderId", &doc), "");
    assert_eq!(get_field_as_str("status", &doc), "");
}

#[test]
fn missing_or_malformed_date_reads_as_now() {
    let mut doc = Document::new();
    doc.insert("timestamp", bson::DateTime::from_millis(1234));
    doc.insert("last_modified", "yesterday");
    assert_eq!(get_field_as_datetime("timestamp", &doc, 99), 1234);
    assert_eq!(get_field_as_datetime("last_modified", &doc, 99), 99);
    assert_eq!(get_field_as_datetime("other", &doc, 99), 99);
    let w = map_to_external_model(&doc, 99);
    assert_eq!(w.order_id, "");
    assert_eq!(w.timestamp, 1234);
    assert_eq!(w.last_modified, 99);
}

#[test]
fn projection_names_id_and_nine_fields() {
    let p = build_out_doc_projection();
    assert_eq!(p.len(), 10);
    for key in [
        "_id", "orderId", "size", "filled", "status", "ticker", "mic", "action", "timestamp",
        "last_modified",
    ] {
        assert_eq!(p.get_bool(key).unwrap(), true);
    }
}

#[test]
fn filter_and_listing_query() {
    let f = order_id_filter("665599");
    assert_eq!(f.len(), 1);
    assert_eq!(f.get_str("orderId").unwrap(), "665599");
    let q = recent_orders_query();
    assert_eq!(q.len(), 2);
    assert!(q.get_document("$query").unwrap().is_empty());
    assert_eq!(q.get_document("$sort").unwrap().get_i32("timestamp").unwrap(), -1);
    assert_eq!(RECENT_LIMIT, 10);
}

#[test]
fn listing_keeps_a_slot_per_record() {
    let a = map_to_mongo_doc(&order("1", "1", 10));
    let b = map_to_mongo_doc(&order("2", "2", 20));
    let found = vec![Some(a), None, Some(b)];
    let r = collect_orders(&found, 0);
    assert_eq!(r.len(), 3);
    assert_eq!(r[0].as_ref().unwrap().order_id, "1");
    assert!(r[1].is_none());
    assert_eq!(r[2].as_ref().unwrap().timestamp, 20);
    assert!(collect_orders(&vec![], 0).is_empty());
}

#[test]
fn lookup_outcome_maps_first_record() {
    let a = map_to_mongo_doc(&order("665599", "1", 10));
    let r = lookup_outcome(&Some(a), 0).unwrap();
    assert_eq!(r.order_id, "665599");
    assert_eq!(r.size, "1");
    assert!(lookup_outcome(&None, 0).is_none());
}

#[test]
fn creation_and_update_outcomes() {
    let w = order("665599", "5", 10);
    assert!(same(&created_order(&w, true).unwrap(), &w));
    assert!(created_order(&w, false).is_none());
    let u = updated_order(&w, true).unwrap();
    assert_eq!(u.size, "5");
    assert!(same(&u, &w));
    assert!(updated_order(&w, false).is_none());
}

#[test]
fn order_text_lists_fields() {
    let w = order("665599", "1", 0);
    let t = w.to_string();
    assert!(t.starts_with("[order_id: 665599, size: 1, filled: 0, status: Accepted, ticker: BTCUSD, mic: LIQD, action: BUY, timestamp: "));
    assert!(t.contains("1970-01-01"));
    assert!(t.ends_with("]"));
}

#[test]
fn well_formed_order() {
    assert!(order("1", "1", 10).is_well_formed());
    assert!(!order("", "1", 10).is_well_formed());
    let mut w = order("1", "1", 10);
    w.last_modified = 9;
    assert!(!w.is_well_formed());
    assert!(same(&w.duplicate(), &w));
}

#[test]
fn order_scenario_create_fetch_update_delete() {
    let mut store = MemoryDataStore::new();
    let created = store.create_new(&order("665599", "1", 100)).unwrap();
    assert_eq!(created.order_id, "665599");
    let found = store.get_data_by_id("665599".to_string()).unwrap();
    assert_eq!(found.order_id, "665599");
    assert_eq!(found.size, "1");
    let updated = store.update(&order("665599", "5", 100)).unwrap();
    assert_eq!(updated.size, "5");
    assert_eq!(store.get_data_by_id("665599".to_string()).unwrap().size, "5");
    assert!(store.delete("665599".to_string()));
    assert!(store.get_data_by_id("665599".to_string()).is_none());
}

#[test]
fn read_after_create_returns_same_fields() {
    let mut store = MemoryDataStore::new();
    store.create_new(&order("a", "1", 1)).unwrap();
    let w = order("b", "3", 7);
    store.create_new(&w).unwrap();
    assert!(same(&store.get_data_by_id("b".to_string()).unwrap(), &w));
    assert!(store.get_data_by_id(" b".to_string()).is_none());
}

#[test]
fn delete_twice_returns_true_both_times() {
    let mut store = MemoryDataStore::new();
    store.create_new(&order("x", "1", 1)).unwrap();
    store.create_new(&order("y", "1", 2)).unwrap();
    store.create_new(&order("x", "2", 3)).unwrap();
    assert!(store.delete("x".to_string()));
    assert!(store.delete("x".to_string()));
    assert!(store.get_data_by_id("x".to_string()).is_none());
    assert_eq!(store.get_data().len(), 1);
    assert!(store.delete("missing".to_string()));
}

#[test]
fn update_without_match_changes_nothing() {
    let mut store = MemoryDataStore::new();
    store.create_new(&order("a", "1", 1)).unwrap();
    let r = store.update(&order("b", "9", 1)).unwrap();
    assert_eq!(r.order_id, "b");
    assert!(store.get_data_by_id("b".to_string()).is_none());
    assert_eq!(store.get_data_by_id("a".to_string()).unwrap().size, "1");
}

#[test]
fn listing_is_newest_ten() {
    let mut store = MemoryDataStore::new();
    assert!(store.get_data().is_empty());
    let stamps: [i64; 12] = [5, 40, 12, 7, 33, 1, 90, 18, 60, 2, 75, 25];
    for (i, ts) in stamps.iter().enumerate() {
        store.create_new(&order(&i.to_string(), "1", *ts)).unwrap();
    }
    let listed = store.get_data();
    assert_eq!(listed.len(), 10);
    let got: Vec<i64> = listed.iter().map(|o| o.as_ref().unwrap().timestamp).collect();
    assert_eq!(got, vec![90, 75, 60, 40, 33, 25, 18, 12, 7, 5]);
}

#[test]
fn listing_of_few_returns_all_sorted() {
    let mut store = MemoryDataStore::new();
    store.create_new(&order("a", "1", 3)).unwrap();
    store.create_new(&order("b", "1", 9)).unwrap();
    store.create_new(&order("c", "1", 3)).unwrap();
    let listed = store.get_data();
    assert_eq!(listed.len(), 3);
    assert_eq!(listed[0].as_ref().unwrap().order_id, "b");
    assert_eq!(listed[1].as_ref().unwrap().timestamp, 3);
    assert_eq!(listed[2].as_ref().unwrap().timestamp, 3);
}
