// A data-access layer for work orders kept in a document database: the
// mapping between orders and BSON documents, the queries that the store
// sends, what each store operation reports, and an in-memory store.
pub mod document;
pub mod mapping;
pub mod memory;
pub mod model;
pub mod queries;
pub mod store;
