use vstd::prelude::*;
use vstd::string::StringExecFns;

use crate::document::{date_text, date_text_of};

verus! {

/// Where and how to reach the document database.
pub struct ConnectionOptions {
    pub uri: String,
    pub username: String,
    pub password: String,
}

/// A trade order record.
///
/// `timestamp` and `last_modified` are UTC instants, held as milliseconds
/// since the Unix epoch (the precision a BSON date keeps).
pub struct WorkOrder {
    pub order_id: String,
    pub size: String,
    pub filled: String,
    pub status: String,
    pub ticker: String,
    pub mic: String,
    pub action: String,
    pub timestamp: i64,
    pub last_modified: i64,
}

/// The mathematical value of a `WorkOrder`.
pub struct OrderView {
    pub order_id: Seq<char>,
    pub size: Seq<char>,
    pub filled: Seq<char>,
    pub status: Seq<char>,
    pub ticker: Seq<char>,
    pub mic: Seq<char>,
    pub action: Seq<char>,
    pub timestamp: i64,
    pub last_modified: i64,
}

impl View for WorkOrder {
    type V = OrderView;

    open spec fn view(&self) -> OrderView {
        OrderView {
            order_id: self.order_id@,
            size: self.size@,
            filled: self.filled@,
            status: self.status@,
            ticker: self.ticker@,
            mic: self.mic@,
            action: self.action@,
            timestamp: self.timestamp,
            last_modified: self.last_modified,
        }
    }
}

impl OrderView {
    /// A persisted order has an identifier and was not modified before it was made.
    pub open spec fn well_formed(self) -> bool {
        &&& self.order_id.len() > 0
        &&& self.timestamp <= self.last_modified
    }
}

/// How an order is written out for people to read.
pub open spec fn order_text(o: OrderView) -> Seq<char> {
    "[order_id: "@ + o.order_id + ", size: "@ + o.size + ", filled: "@ + o.filled + ", status: "@
        + o.status + ", ticker: "@ + o.ticker + ", mic: "@ + o.mic + ", action: "@ + o.action
        + ", timestamp: "@ + date_text_of(o.timestamp) + ", last_modified: "@ + date_text_of(
        o.last_modified,
    ) + "]"@
}

impl WorkOrder {
    /// A field-for-field copy.
    pub fn duplicate(&self) -> (r: WorkOrder)
        ensures
            r@ == self@,
    {
        WorkOrder {
            order_id: self.order_id.clone(),
            size: self.size.clone(),
            filled: self.filled.clone(),
            status: self.status.clone(),
            ticker: self.ticker.clone(),
            mic: self.mic.clone(),
            action: self.action.clone(),
            timestamp: self.timestamp,
            last_modified: self.last_modified,
        }
    }

    /// Whether the record meets the invariants of a persisted order.
    pub fn is_well_formed(&self) -> (r: bool)
        ensures
            r == self@.well_formed(),
    {
        self.order_id.as_str().unicode_len() > 0 && self.timestamp <= self.last_modified
    }

    /// The order written out for people to read.
    pub fn to_string(&self) -> (r: String)
        ensures
            r@ == order_text(self@),
    {
        let mut s = String::new();
        s.append("[order_id: ");
        s.append(self.order_id.as_str());
        s.append(", size: ");
        s.append(self.size.as_str());
        s.append(", filled: ");
        s.append(self.filled.as_str());
        s.append(", status: ");
        s.append(self.status.as_str());
        s.append(", ticker: ");
        s.append(self.ticker.as_str());
        s.append(", mic: ");
        s.append(self.mic.as_str());
        s.append(", action: ");
        s.append(self.action.as_str());
        s.append(", timestamp: ");
        s.append(date_text(self.timestamp).as_str());
        s.append(", last_modified: ");
        s.append(date_text(self.last_modified).as_str());
        s.append("]");
        assert(s@ =~= order_text(self@));
        s
    }
}

} // verus!
