use vstd::prelude::*;
use vstd::set_lib::{lemma_int_range, lemma_len_subset, set_int_range};

use crate::model::{OrderView, WorkOrder};
use crate::queries::RECENT_LIMIT;

verus! {

/// A store that keeps its records in memory, in the order they were written.
/// It stands in for the database where callers want no network.
pub struct MemoryDataStore {
    orders: Vec<WorkOrder>,
}

pub open spec fn views(v: Seq<WorkOrder>) -> Seq<OrderView> {
    v.map_values(|w: WorkOrder| w@)
}

/// The first record with the identifier, in the order of writing.
pub open spec fn find_by_id(s: Seq<OrderView>, id: Seq<char>) -> Option<OrderView>
    decreases s.len(),
{
    if s.len() == 0 {
        None
    } else if s[0].order_id == id {
        Some(s[0])
    } else {
        find_by_id(s.drop_first(), id)
    }
}

/// The records whose identifier differs from `id`, in their order.
pub open spec fn remove_id(s: Seq<OrderView>, id: Seq<char>) -> Seq<OrderView> {
    s.filter(|o: OrderView| o.order_id != id)
}

/// Whether `i` is the index of the first record with the identifier.
pub open spec fn is_first_with(s: Seq<OrderView>, id: Seq<char>, i: int) -> bool {
    &&& 0 <= i < s.len()
    &&& s[i].order_id == id
    &&& forall|j: int| 0 <= j < i ==> s[j].order_id != id
}

/// The records with the first one that has the order's identifier replaced
/// by the order; unchanged where none has it.
pub open spec fn replace_first(s: Seq<OrderView>, o: OrderView) -> Seq<OrderView> {
    if exists|i: int| is_first_with(s, o.order_id, i) {
        s.update(choose|i: int| is_first_with(s, o.order_id, i), o)
    } else {
        s
    }
}

proof fn lemma_replace_first_at(s: Seq<OrderView>, o: OrderView, i: int)
    requires
        is_first_with(s, o.order_id, i),
    ensures
        replace_first(s, o) == s.update(i, o),
{
    let k = choose|k: int| is_first_with(s, o.order_id, k);
    assert(is_first_with(s, o.order_id, k));
    if k < i {
        assert(s[k].order_id != o.order_id);
    } else if i < k {
        assert(s[i].order_id != o.order_id);
    }
}

/// The orders in the slots of a listing.
pub open spec fn slot_views(r: Seq<Option<WorkOrder>>) -> Seq<OrderView> {
    r.map_values(|x: Option<WorkOrder>| x->Some_0@)
}

/// `picked` holds the records of `s` at the distinct indices `idx`, newest
/// `timestamp` first, and no record left out is newer than one picked.
pub open spec fn is_recent_selection(s: Seq<OrderView>, picked: Seq<OrderView>, idx: Seq<int>) -> bool {
    &&& picked.len() == idx.len()
    &&& forall|a: int| 0 <= a < idx.len() ==> 0 <= #[trigger] idx[a] < s.len() && picked[a] == s[idx[a]]
    &&& forall|a: int, b: int| 0 <= a < b < idx.len() ==> idx[a] != idx[b]
    &&& forall|a: int, b: int|
        0 <= a < b < picked.len() ==> picked[a].timestamp >= picked[b].timestamp
    &&& forall|j: int, a: int|
        0 <= j < s.len() && !idx.contains(j) && 0 <= a < picked.len() ==> s[j].timestamp
            <= picked[a].timestamp
}

/// An order written to a store in which no record has its identifier is what
/// a lookup of that identifier then finds.
pub proof fn lemma_read_after_create(s: Seq<OrderView>, o: OrderView)
    requires
        forall|i: int| 0 <= i < s.len() ==> s[i].order_id != o.order_id,
    ensures
        find_by_id(s.push(o), o.order_id) == Some(o),
{
    lemma_find_from(s.push(o), o.order_id, s.len() as int);
    assert(s.push(o).subrange(s.len() as int, s.len() + 1int)[0] == o);
}

/// After the records of an identifier are removed, a lookup of it finds nothing.
pub proof fn lemma_nothing_after_delete(s: Seq<OrderView>, id: Seq<char>)
    ensures
        find_by_id(remove_id(s, id), id) is None,
{
    let t = remove_id(s, id);
    assert forall|j: int| 0 <= j < t.len() implies t[j].order_id != id by {
        s.lemma_filter_pred(|o: OrderView| o.order_id != id, j);
    }
    lemma_find_absent(t, id);
}

proof fn lemma_filter_keeps_all(s: Seq<OrderView>, id: Seq<char>)
    requires
        forall|j: int| 0 <= j < s.len() ==> s[j].order_id != id,
    ensures
        remove_id(s, id) == s,
    decreases s.len(),
{
    reveal(Seq::filter);
    if s.len() > 0 {
        lemma_filter_keeps_all(s.drop_last(), id);
        assert(s.drop_last().push(s.last()) =~= s);
    }
}

/// Removing the records of an identifier a second time changes nothing.
pub proof fn lemma_delete_twice(s: Seq<OrderView>, id: Seq<char>)
    ensures
        remove_id(remove_id(s, id), id) == remove_id(s, id),
{
    let t = remove_id(s, id);
    assert forall|j: int| 0 <= j < t.len() implies t[j].order_id != id by {
        s.lemma_filter_pred(|o: OrderView| o.order_id != id, j);
    }
    lemma_filter_keeps_all(t, id);
}

/// Distinct indices below `n` number at most `n`, and exactly `n` where every
/// index below `n` is among them.
proof fn lemma_selection_len(n: int, idx: Seq<int>)
    requires
        0 <= n,
        forall|a: int| 0 <= a < idx.len() ==> 0 <= #[trigger] idx[a] < n,
        forall|a: int, b: int| 0 <= a < b < idx.len() ==> idx[a] != idx[b],
    ensures
        idx.len() <= n,
        (forall|j: int| 0 <= j < n ==> idx.contains(j)) ==> idx.len() == n,
{
    assert(idx.no_duplicates()) by {
        assert forall|a: int, b: int|
            0 <= a < idx.len() && 0 <= b < idx.len() && a != b implies idx[a] != idx[b] by {
            if b < a {
                assert(idx[b] != idx[a]);
            }
        }
    }
    idx.unique_seq_to_set();
    lemma_int_range(0, n);
    assert(idx.to_set().subset_of(set_int_range(0, n)));
    lemma_len_subset(idx.to_set(), set_int_range(0, n));
    if forall|j: int| 0 <= j < n ==> idx.contains(j) {
        assert(idx.to_set() =~= set_int_range(0, n));
    }
}

impl View for MemoryDataStore {
    type V = Seq<OrderView>;

    closed spec fn view(&self) -> Seq<OrderView> {
        views(self.orders@)
    }
}

/// Searching from index `i` on finds what a search of the whole sequence finds,
/// when no record before `i` has the identifier.
proof fn lemma_find_from(s: Seq<OrderView>, id: Seq<char>, i: int)
    requires
        0 <= i <= s.len(),
        forall|j: int| 0 <= j < i ==> s[j].order_id != id,
    ensures
        find_by_id(s, id) == find_by_id(s.subrange(i, s.len() as int), id),
    decreases i,
{
    if i > 0 {
        lemma_find_from(s.drop_first(), id, i - 1);
        assert(s.drop_first().subrange(i - 1, s.drop_first().len() as int) =~= s.subrange(
            i,
            s.len() as int,
        ));
    } else {
        assert(s.subrange(0, s.len() as int) =~= s);
    }
}

/// No record has the identifier, so a search finds nothing.
proof fn lemma_find_absent(s: Seq<OrderView>, id: Seq<char>)
    requires
        forall|j: int| 0 <= j < s.len() ==> s[j].order_id != id,
    ensures
        find_by_id(s, id) is None,
    decreases s.len(),
{
    if s.len() > 0 {
        lemma_find_absent(s.drop_first(), id);
    }
}

impl MemoryDataStore {
    /// An empty store.
    pub fn new() -> (r: MemoryDataStore)
        ensures
            r@ == Seq::<OrderView>::empty(),
    {
        let r = MemoryDataStore { orders: Vec::new() };
        assert(r@ =~= Seq::<OrderView>::empty());
        r
    }

    /// The first record with the identifier, in the order of writing.
    pub fn get_data_by_id(&self, id: String) -> (r: Option<WorkOrder>)
        ensures
            match r {
                Some(w) => find_by_id(self@, id@) == Some(w@),
                None => find_by_id(self@, id@) is None,
            },
    {
        let mut i: usize = 0;
        while i < self.orders.len()
            invariant
                i <= self.orders.len(),
                self@.len() == self.orders.len(),
                forall|j: int| 0 <= j < i ==> self@[j].order_id != id@,
            decreases self.orders.len() - i,
        {
            if self.orders[i].order_id == id {
                proof {
                    lemma_find_from(self@, id@, i as int);
                    assert(self@.subrange(i as int, self@.len() as int)[0] == self@[i as int]);
                }
                return Some(self.orders[i].duplicate());
            }
            i = i + 1;
        }
        proof {
            lemma_find_absent(self@, id@);
        }
        None
    }

    /// Appends the order as a new record and reports it back; no check is
    /// made for an identifier already in use.
    pub fn create_new(&mut self, data: &WorkOrder) -> (r: Option<WorkOrder>)
        ensures
            final(self)@ == old(self)@.push(data@),
            r matches Some(w) && w@ == data@,
    {
        self.orders.push(data.duplicate());
        assert(self@ =~= old(self)@.push(data@));
        Some(data.duplicate())
    }

    /// Removes every record with the identifier. Removing nothing is no failure.
    pub fn delete(&mut self, id: String) -> (r: bool)
        ensures
            final(self)@ == remove_id(old(self)@, id@),
            r,
    {
        let ghost s = self@;
        let ghost pred = |o: OrderView| o.order_id != id@;
        let mut kept: Vec<WorkOrder> = Vec::new();
        let mut i: usize = 0;
        while i < self.orders.len()
            invariant
                i <= self.orders.len(),
                s == self@,
                s.len() == self.orders.len(),
                pred == (|o: OrderView| o.order_id != id@),
                views(kept@) == s.take(i as int).filter(pred),
            decreases self.orders.len() - i,
        {
            proof {
                assert(s.take(i + 1).drop_last() =~= s.take(i as int));
                reveal(Seq::filter);
            }
            if self.orders[i].order_id != id {
                kept.push(self.orders[i].duplicate());
                assert(views(kept@) =~= s.take(i + 1).filter(pred));
            } else {
                assert(views(kept@) =~= s.take(i + 1).filter(pred));
            }
            i = i + 1;
        }
        assert(s.take(s.len() as int) =~= s);
        self.orders = kept;
        true
    }

    /// Replaces the whole of the first record with the order's identifier, and
    /// reports the order as it now stands. Where no record has it, nothing changes.
    pub fn update(&mut self, data: &WorkOrder) -> (r: Option<WorkOrder>)
        ensures
            r matches Some(w) && w@ == data@,
            final(self)@ == replace_first(old(self)@, data@),
    {
        let mut i: usize = 0;
        while i < self.orders.len()
            invariant
                i <= self.orders.len(),
                self@ == old(self)@,
                self@.len() == self.orders.len(),
                forall|j: int| 0 <= j < i ==> self@[j].order_id != data.order_id@,
            decreases self.orders.len() - i,
        {
            if self.orders[i].order_id == data.order_id {
                self.orders.set(i, data.duplicate());
                assert(self@ =~= old(self)@.update(i as int, data@));
                proof {
                    lemma_replace_first_at(old(self)@, data@, i as int);
                }
                return Some(data.duplicate());
            }
            i = i + 1;
        }
        assert(!exists|k: int| is_first_with(old(self)@, data.order_id@, k));
        Some(data.duplicate())
    }

    /// The most recent records, at most `RECENT_LIMIT` of them, newest
    /// `timestamp` first. Every slot is filled. Fewer come back only when
    /// the store holds fewer.
    pub fn get_data(&self) -> (r: Vec<Option<WorkOrder>>)
        ensures
            r.len() == if self@.len() < RECENT_LIMIT {
                self@.len()
            } else {
                RECENT_LIMIT as nat
            },
            forall|k: int| 0 <= k < r.len() ==> r[k] is Some,
            exists|idx: Seq<int>|
                {
                    &&& is_recent_selection(self@, slot_views(r@), idx)
                    &&& r.len() < RECENT_LIMIT ==> forall|j: int|
                        0 <= j < self@.len() ==> idx.contains(j)
                },
    {
        let n = self.orders.len();
        let mut taken: Vec<bool> = Vec::new();
        let mut t: usize = 0;
        while t < n
            invariant
                t <= n,
                taken.len() == t,
                forall|j: int| 0 <= j < t ==> !taken[j],
            decreases n - t,
        {
            taken.push(false);
            t = t + 1;
        }
        let mut r: Vec<Option<WorkOrder>> = Vec::new();
        let ghost mut idx: Seq<int> = Seq::empty();
        let mut more = true;
        let limit = RECENT_LIMIT as usize;
        while more && r.len() < limit
            invariant
                limit == RECENT_LIMIT,
                n == self.orders.len(),
                n == self@.len(),
                taken.len() == n,
                r.len() <= limit,
                r.len() == idx.len(),
                forall|k: int| 0 <= k < r.len() ==> r[k] is Some,
                is_recent_selection(self@, slot_views(r@), idx),
                forall|j: int| 0 <= j < n ==> (taken[j] <==> idx.contains(j)),
                !more ==> forall|j: int| 0 <= j < n ==> idx.contains(j),
            decreases 2 * (limit - r.len()) + (if more { 1int } else { 0int }),
        {
            let mut best: usize = 0;
            let mut found = false;
            let mut j: usize = 0;
            while j < n
                invariant
                    j <= n,
                    n == self.orders.len(),
                    n == self@.len(),
                    taken.len() == n,
                    found ==> best < n && !taken[best as int] && forall|t: int|
                        0 <= t < j && !taken[t] ==> self@[t].timestamp <= self@[best as int].timestamp,
                    !found ==> forall|t: int| 0 <= t < j ==> taken[t],
                decreases n - j,
            {
                if !taken[j] && (!found || self.orders[j].timestamp > self.orders[best].timestamp) {
                    best = j;
                    found = true;
                }
                j = j + 1;
            }
            if found {
                let ghost old_r = r@;
                let ghost old_idx = idx;
                let ghost old_taken = taken@;
                let w = self.orders[best].duplicate();
                r.push(Some(w));
                taken.set(best, true);
                proof {
                    idx = idx.push(best as int);
                    let s = self@;
                    assert(slot_views(r@) =~= slot_views(old_r).push(s[best as int]));
                    assert(!old_idx.contains(best as int));
                    assert forall|jj: int| 0 <= jj < n implies (taken[jj] <==> idx.contains(jj)) by {
                        if jj == best as int {
                            assert(idx[idx.len() - 1] == jj);
                        } else {
                            if idx.contains(jj) {
                                let a = choose|a: int| 0 <= a < idx.len() && idx[a] == jj;
                                assert(old_idx[a] == jj);
                            }
                            if old_idx.contains(jj) {
                                let a = choose|a: int| 0 <= a < old_idx.len() && old_idx[a] == jj;
                                assert(idx[a] == jj);
                            }
                        }
                    }
                    let p = slot_views(r@);
                    assert forall|jj: int, a: int|
                        0 <= jj < s.len() && !idx.contains(jj) && 0 <= a < p.len() implies s[jj].timestamp
                        <= p[a].timestamp by {
                        assert(!taken[jj]);
                        assert(!old_taken[jj]);
                        if a < old_idx.len() {
                            assert(!old_idx.contains(jj));
                        }
                    }
                    assert forall|a: int, b: int|
                        0 <= a < b < p.len() implies p[a].timestamp >= p[b].timestamp by {
                        if b == p.len() - 1 {
                            assert(!old_idx.contains(best as int));
                        }
                    }
                    assert(is_recent_selection(s, p, idx));
                }
            } else {
                more = false;
                proof {
                    assert forall|jj: int| 0 <= jj < n implies idx.contains(jj) by {
                        assert(taken[jj]);
                    }
                }
            }
        }
        proof {
            lemma_selection_len(n as int, idx);
        }
        r
    }
}

} // verus!
