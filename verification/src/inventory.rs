use vstd::prelude::*;

use crate::textmap::TextMap;

verus! {

/// Sum of the amounts held by a sequence of entries.
pub open spec fn sum_amounts(s: Seq<(String, u32)>) -> int
    decreases s.len(),
{
    if s.len() == 0 {
        0
    } else {
        sum_amounts(s.drop_last()) + s.last().1
    }
}

/// Amount of `item` in a stock map, 0 when absent.
pub open spec fn stock_of(m: Map<Seq<char>, u32>, item: Seq<char>) -> int {
    if m.contains_key(item) {
        m[item] as int
    } else {
        0
    }
}

/// How much of `amount` fits into a store holding `total` out of `capacity`.
pub open spec fn accepted_amount(total: int, capacity: int, amount: int) -> int {
    let free = if capacity > total {
        capacity - total
    } else {
        0
    };
    if amount < free {
        amount
    } else {
        free
    }
}

/// The stock after adding `amount` of `item` to a store holding `total` out of `capacity`.
pub open spec fn stock_after_add(
    m: Map<Seq<char>, u32>,
    total: int,
    capacity: int,
    item: Seq<char>,
    amount: int,
) -> Map<Seq<char>, u32> {
    let accepted = accepted_amount(total, capacity, amount);
    if accepted > 0 {
        m.insert(item, (stock_of(m, item) + accepted) as u32)
    } else {
        m
    }
}

/// Stock and total after adding the entries of `s` one after the other, in order.
pub open spec fn add_all(m: Map<Seq<char>, u32>, total: int, capacity: int, s: Seq<(String, u32)>) -> (
    Map<Seq<char>, u32>,
    int,
)
    decreases s.len(),
{
    if s.len() == 0 {
        (m, total)
    } else {
        let (m0, t0) = add_all(m, total, capacity, s.drop_last());
        let item = s.last().0@;
        let accepted = accepted_amount(t0, capacity, s.last().1 as int);
        (stock_after_add(m0, t0, capacity, item, s.last().1 as int), t0 + accepted)
    }
}

pub proof fn lemma_sum_update(s: Seq<(String, u32)>, p: int, e: (String, u32))
    requires
        0 <= p < s.len(),
    ensures
        sum_amounts(s.update(p, e)) == sum_amounts(s) - s[p].1 + e.1,
    decreases s.len(),
{
    if p == s.len() - 1 {
        assert(s.update(p, e).drop_last() =~= s.drop_last());
    } else {
        lemma_sum_update(s.drop_last(), p, e);
        assert(s.update(p, e).drop_last() =~= s.drop_last().update(p, e));
    }
}

pub proof fn lemma_sum_insert(s: Seq<(String, u32)>, p: int, e: (String, u32))
    requires
        0 <= p <= s.len(),
    ensures
        sum_amounts(s.insert(p, e)) == sum_amounts(s) + e.1,
    decreases s.len(),
{
    if p == s.len() {
        assert(s.insert(p, e).drop_last() =~= s);
    } else {
        lemma_sum_insert(s.drop_last(), p, e);
        assert(s.insert(p, e).drop_last() =~= s.drop_last().insert(p, e));
    }
}

pub proof fn lemma_sum_remove(s: Seq<(String, u32)>, p: int)
    requires
        0 <= p < s.len(),
    ensures
        sum_amounts(s.remove(p)) == sum_amounts(s) - s[p].1,
    decreases s.len(),
{
    if p == s.len() - 1 {
        assert(s.remove(p) =~= s.drop_last());
    } else {
        lemma_sum_remove(s.drop_last(), p);
        assert(s.remove(p).drop_last() =~= s.drop_last().remove(p));
    }
}

pub proof fn lemma_sum_nonnegative(s: Seq<(String, u32)>)
    ensures
        sum_amounts(s) >= 0,
    decreases s.len(),
{
    if s.len() > 0 {
        lemma_sum_nonnegative(s.drop_last());
    }
}

pub proof fn lemma_sum_bounds_entry(s: Seq<(String, u32)>, p: int)
    requires
        0 <= p < s.len(),
    ensures
        s[p].1 <= sum_amounts(s),
    decreases s.len(),
{
    lemma_sum_nonnegative(s.drop_last());
    if p < s.len() - 1 {
        lemma_sum_bounds_entry(s.drop_last(), p);
    }
}

/// Adding entries one by one moves, in total, exactly what fits:
/// the smaller of their summed amounts and the free capacity.
pub proof fn lemma_add_all_total(
    m: Map<Seq<char>, u32>,
    total: int,
    capacity: int,
    s: Seq<(String, u32)>,
)
    requires
        0 <= total <= capacity,
    ensures
        add_all(m, total, capacity, s).1 - total == if sum_amounts(s) < capacity - total {
            sum_amounts(s)
        } else {
            capacity - total
        },
        add_all(m, total, capacity, s).1 <= capacity,
    decreases s.len(),
{
    if s.len() > 0 {
        lemma_add_all_total(m, total, capacity, s.drop_last());
        lemma_sum_nonnegative(s.drop_last());
    }
}

/// Items held with a limit on the total amount.
#[derive(Debug, Clone, PartialEq, Eq, Default)]
pub struct Inventory {
    pub items: TextMap<u32>,
    pub capacity: u32,
}

impl Inventory {
    /// Stock map of the inventory.
    pub open spec fn stock(self) -> Map<Seq<char>, u32> {
        self.items.to_map()
    }

    /// Total amount held.
    pub open spec fn total(self) -> int {
        sum_amounts(self.items.entries@)
    }

    /// Keys are sorted and every entry holds a positive amount.
    pub open spec fn wf(self) -> bool {
        &&& self.items.wf()
        &&& forall|i: int| 0 <= i < self.items.entries@.len() ==> #[trigger] self.items.entries@[i].1 > 0
    }

    /// Whether the inventory is well formed and holds no more than its capacity.
    pub fn is_consistent(&self) -> (r: bool)
        ensures
            r == (self.wf() && self.total() <= self.capacity),
    {
        if !self.items.is_ordered() {
            return false;
        }
        let n = self.items.entries.len();
        let mut sum: u64 = 0;
        let mut i: usize = 0;
        while i < n
            invariant
                n == self.items.entries@.len(),
                self.items.wf(),
                i <= n,
                sum == sum_amounts(self.items.entries@.take(i as int)),
                sum <= self.capacity,
                forall|q: int| 0 <= q < i ==> #[trigger] self.items.entries@[q].1 > 0,
            decreases n - i,
        {
            proof {
                assert(self.items.entries@.take(i + 1).drop_last() =~= self.items.entries@.take(i as int));
            }
            let amount = self.items.entries[i].1;
            if amount == 0 {
                return false;
            }
            if sum + amount as u64 > self.capacity as u64 {
                proof {
                    lemma_sum_prefix_bounded(self.items.entries@, i + 1);
                }
                return false;
            }
            sum = sum + amount as u64;
            i += 1;
        }
        assert(self.items.entries@.take(n as int) =~= self.items.entries@);
        true
    }

    /// An empty inventory with the given capacity.
    pub fn with_capacity(capacity: u32) -> (r: Self)
        ensures
            r.wf(),
            r.capacity == capacity,
            r.stock() == Map::<Seq<char>, u32>::empty(),
            r.total() == 0,
    {
        Inventory { items: TextMap::new(), capacity }
    }

    pub fn amount(&self, item: &str) -> (r: u32)
        requires
            self.items.wf(),
        ensures
            r == stock_of(self.stock(), item@),
    {
        match self.items.get(item) {
            Some(v) => *v,
            None => 0,
        }
    }

    pub fn used(&self) -> (r: u32)
        requires
            self.total() <= u32::MAX,
        ensures
            r == self.total(),
    {
        let n = self.items.entries.len();
        let mut sum: u32 = 0;
        let mut i: usize = 0;
        while i < n
            invariant
                n == self.items.entries@.len(),
                i <= n,
                sum == sum_amounts(self.items.entries@.take(i as int)),
                self.total() <= u32::MAX,
            decreases n - i,
        {
            proof {
                assert(self.items.entries@.take(i + 1).drop_last() =~= self.items.entries@.take(
                    i as int,
                ));
                lemma_sum_nonnegative(self.items.entries@.take(i + 1));
                lemma_sum_prefix_bounded(self.items.entries@, i + 1);
            }
            sum = sum + self.items.entries[i].1;
            i += 1;
        }
        assert(self.items.entries@.take(n as int) =~= self.items.entries@);
        sum
    }

    /// Adds as much of `amount` as the free capacity allows and returns that much.
    pub fn add(&mut self, item: &str, amount: u32) -> (accepted: u32)
        requires
            old(self).wf(),
            old(self).total() <= u32::MAX,
        ensures
            final(self).wf(),
            final(self).capacity == old(self).capacity,
            accepted == accepted_amount(old(self).total(), old(self).capacity as int, amount as int),
            final(self).stock() == stock_after_add(
                old(self).stock(),
                old(self).total(),
                old(self).capacity as int,
                item@,
                amount as int,
            ),
            final(self).total() == old(self).total() + accepted,
    {
        let used = self.used();
        let free = if self.capacity > used {
            self.capacity - used
        } else {
            0
        };
        let accepted = if amount < free {
            amount
        } else {
            free
        };
        if accepted > 0 {
            let ghost old_self = *self;
            let current = self.amount(item);
            proof {
                if old_self.items.has(item@) {
                    let p = old_self.items.index_of(item@);
                    old_self.items.lemma_index_of(p);
                    lemma_sum_bounds_entry(old_self.items.entries@, p);
                }
            }
            let key = item.to_string();
            assert(key@ == item@);
            self.items.insert(key, current + accepted);
            proof {
                if old_self.items.has(item@) {
                    lemma_sum_update(
                        old_self.items.entries@,
                        old_self.items.index_of(item@),
                        (key, (current + accepted) as u32),
                    );
                } else {
                    let p = choose|p: int|
                        0 <= p <= old_self.items.entries@.len() && self.items.entries@
                            == #[trigger] old_self.items.entries@.insert(p, (key, (current + accepted) as u32));
                    lemma_sum_insert(old_self.items.entries@, p, (key, (current + accepted) as u32));
                }
                assert forall|i: int| 0 <= i < self.items.entries@.len() implies #[trigger] self.items.entries@[i].1 > 0 by {
                    if self.items.entries@[i].0@ != item@ {
                        let k = self.items.entries@[i].0@;
                        self.items.lemma_index_of(i);
                        assert(old_self.items.has(k));
                        let w = old_self.items.index_of(k);
                        old_self.items.lemma_index_of(w);
                    } else {
                        self.items.lemma_index_of(i);
                    }
                }
            }
        }
        accepted
    }

    /// Takes up to `amount` of `item` out and returns how much was taken;
    /// an item whose stock reaches zero disappears.
    pub fn remove(&mut self, item: &str, amount: u32) -> (removed: u32)
        requires
            old(self).wf(),
        ensures
            final(self).wf(),
            final(self).capacity == old(self).capacity,
            removed == if amount < stock_of(old(self).stock(), item@) {
                amount as int
            } else {
                stock_of(old(self).stock(), item@)
            },
            final(self).stock() == if !old(self).stock().contains_key(item@) {
                old(self).stock()
            } else if removed == stock_of(old(self).stock(), item@) {
                old(self).stock().remove(item@)
            } else {
                old(self).stock().insert(item@, (stock_of(old(self).stock(), item@) - removed) as u32)
            },
            final(self).total() == old(self).total() - removed,
    {
        let ghost old_self = *self;
        match self.items.position(item) {
            Err(_) => 0,
            Ok(p) => {
                let current = self.items.entries[p].1;
                proof {
                    old_self.items.lemma_index_of(p as int);
                }
                let removed = if amount < current {
                    amount
                } else {
                    current
                };
                if current - removed == 0 {
                    self.items.remove(item);
                    proof {
                        lemma_sum_remove(old_self.items.entries@, p as int);
                        assert forall|i: int| 0 <= i < self.items.entries@.len() implies #[trigger] self.items.entries@[i].1 > 0 by {
                            if i < p {
                                assert(self.items.entries@[i] == old_self.items.entries@[i]);
                            } else {
                                assert(self.items.entries@[i] == old_self.items.entries@[i + 1]);
                            }
                        }
                    }
                } else {
                    let key = item.to_string();
                    assert(key@ == item@);
                    self.items.insert(key, current - removed);
                    proof {
                        lemma_sum_update(
                            old_self.items.entries@,
                            p as int,
                            (key, (current - removed) as u32),
                        );
                        assert forall|i: int| 0 <= i < self.items.entries@.len() implies #[trigger] self.items.entries@[i].1 > 0 by {
                            if i != p {
                                assert(self.items.entries@[i] == old_self.items.entries@[i]);
                            }
                        }
                    }
                }
                removed
            },
        }
    }

    /// Moves every item into `destination`, in key order, and returns how much
    /// `destination` accepted; whatever does not fit is dropped.
    pub fn drain_into(&mut self, destination: &mut Self) -> (moved: u32)
        requires
            old(self).wf(),
            old(destination).wf(),
            old(destination).total() <= old(destination).capacity,
        ensures
            final(self).wf(),
            final(self).capacity == old(self).capacity,
            final(self).stock() == Map::<Seq<char>, u32>::empty(),
            final(self).total() == 0,
            final(destination).wf(),
            final(destination).capacity == old(destination).capacity,
            (final(destination).stock(), final(destination).total()) == add_all(
                old(destination).stock(),
                old(destination).total(),
                old(destination).capacity as int,
                old(self).items.entries@,
            ),
            moved == final(destination).total() - old(destination).total(),
            moved == if old(self).total() < old(destination).capacity - old(destination).total() {
                old(self).total()
            } else {
                old(destination).capacity - old(destination).total()
            },
    {
        let mut items = TextMap::new();
        std::mem::swap(&mut items, &mut self.items);
        let ghost s = items.entries@;
        let n = items.entries.len();
        let mut moved: u32 = 0;
        let mut i: usize = 0;
        proof {
            lemma_sum_nonnegative(destination.items.entries@);
            lemma_add_all_total(destination.stock(), destination.total(), destination.capacity as int, s);
        }
        let ghost start_stock = destination.stock();
        let ghost start_total = destination.total();
        while i < n
            invariant
                items.entries@ == s,
                n == s.len(),
                i <= n,
                destination.wf(),
                destination.capacity == old(destination).capacity,
                start_stock == old(destination).stock(),
                start_total == old(destination).total(),
                0 <= start_total <= destination.capacity,
                (destination.stock(), destination.total()) == add_all(
                    start_stock,
                    start_total,
                    destination.capacity as int,
                    s.take(i as int),
                ),
                moved == destination.total() - start_total,
                destination.total() <= destination.capacity,
            decreases n - i,
        {
            proof {
                assert(s.take(i + 1).drop_last() =~= s.take(i as int));
                lemma_add_all_total(start_stock, start_total, destination.capacity as int, s.take(i + 1));
            }
            let accepted = destination.add(items.entries[i].0.as_str(), items.entries[i].1);
            moved = moved + accepted;
            i += 1;
        }
        assert(s.take(n as int) =~= s);
        proof {
            assert(sum_amounts(self.items.entries@) == 0);
        }
        moved
    }
}

pub proof fn lemma_sum_prefix_bounded(s: Seq<(String, u32)>, k: int)
    requires
        0 <= k <= s.len(),
    ensures
        sum_amounts(s.take(k)) <= sum_amounts(s),
    decreases s.len() - k,
{
    if k < s.len() {
        lemma_sum_prefix_bounded(s, k + 1);
        assert(s.take(k + 1).drop_last() =~= s.take(k));
    } else {
        assert(s.take(k) =~= s);
    }
}

/// Adding and then removing the accepted amount of an item restores the stock
/// that the item had before.
pub proof fn add_then_remove_restores_amount(
    m: Map<Seq<char>, u32>,
    total: int,
    capacity: int,
    item: Seq<char>,
    amount: int,
)
    requires
        0 <= total,
        0 <= amount,
        stock_of(m, item) + accepted_amount(total, capacity, amount) <= u32::MAX,
    ensures
        stock_of(stock_after_add(m, total, capacity, item, amount), item) == stock_of(m, item)
            + accepted_amount(total, capacity, amount),
{
}

} // verus!
