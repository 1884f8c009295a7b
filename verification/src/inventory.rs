//! The bounded container and the laws that govern it.

use vstd::prelude::*;
use crate::item::Item;

verus! {

/// The ways an inventory operation can fail. Both are recoverable: the
/// container is left exactly as it was.
#[derive(Debug, Clone, PartialEq)]
pub enum InventoryError {
    /// Every slot was taken; carries the name of the rejected item.
    CapacityExceeded(String),
    /// A removal named a position at or past the end; carries that position.
    IndexOutOfRange(usize),
}

/// The sum of the `value` fields over a sequence of items.
pub open spec fn sum_values(s: Seq<Item>) -> int
    decreases s.len(),
{
    if s.len() == 0 {
        0
    } else {
        sum_values(s.drop_last()) + s.last().value
    }
}

/// A total value never falls below zero: every item's worth is
/// non-negative.
pub proof fn lemma_sum_nonneg(s: Seq<Item>)
    ensures
        sum_values(s) >= 0,
    decreases s.len(),
{
    if s.len() > 0 {
        lemma_sum_nonneg(s.drop_last());
    }
}

/// Extending a prefix of `s` by one item adds exactly that item's value to
/// the prefix sum.
proof fn lemma_sum_take_succ(s: Seq<Item>, i: int)
    requires
        0 <= i < s.len(),
    ensures
        sum_values(s.take(i + 1)) == sum_values(s.take(i)) + s[i].value,
{
    assert(s.take(i + 1).drop_last() =~= s.take(i));
    assert(s.take(i + 1).last() == s[i]);
}

/// The sum over a prefix never exceeds the sum over the whole sequence.
proof fn lemma_sum_take_le(s: Seq<Item>, i: int)
    requires
        0 <= i <= s.len(),
    ensures
        sum_values(s.take(i)) <= sum_values(s),
    decreases s.len() - i,
{
    if i == s.len() {
        assert(s.take(i) =~= s);
    } else {
        lemma_sum_take_succ(s, i);
        lemma_sum_take_le(s, i + 1);
    }
}

/// What an inventory of the given capacity holds after each item of
/// `attempts` has been offered to `add_item` in order, starting from empty:
/// an attempt is appended exactly when a slot is still free, as `add_item`
/// promises, and is turned away otherwise.
pub open spec fn contents_after_adds(capacity: nat, attempts: Seq<Item>) -> Seq<Item>
    decreases attempts.len(),
{
    if attempts.len() == 0 {
        Seq::<Item>::empty()
    } else {
        let before = contents_after_adds(capacity, attempts.drop_last());
        if before.len() < capacity {
            before.push(attempts.last())
        } else {
            before
        }
    }
}

/// For every capacity `c` and every series of attempted adds into an
/// initially empty inventory, exactly the first `c` attempts succeed: what
/// is held after `k` attempts is the first `min(k, c)` attempts, so attempt
/// `k` (zero-based) finds a free slot if and only if `k < c`, and the
/// inventory is full exactly from the `c`-th successful add on.
pub proof fn lemma_adds_fill_exactly_to_capacity(capacity: nat, attempts: Seq<Item>)
    ensures
        contents_after_adds(capacity, attempts)
            == attempts.take(vstd::math::min(attempts.len() as int, capacity as int)),
        forall|k: int| 0 <= k <= attempts.len() ==>
            (#[trigger] contents_after_adds(capacity, attempts.take(k))).len()
                == vstd::math::min(k, capacity as int),
        forall|k: int| 0 <= k <= attempts.len() ==>
            ((#[trigger] contents_after_adds(capacity, attempts.take(k))).len() < capacity
                <==> k < capacity),
    decreases attempts.len(),
{
    let n = attempts.len() as int;
    if attempts.len() == 0 {
        assert(contents_after_adds(capacity, attempts) =~= attempts.take(0));
        assert(attempts.take(0) =~= attempts);
    } else {
        let prev = attempts.drop_last();
        lemma_adds_fill_exactly_to_capacity(capacity, prev);
        let m = vstd::math::min(prev.len() as int, capacity as int);
        assert(prev.take(m) =~= attempts.take(m));
        assert(contents_after_adds(capacity, attempts)
            =~= attempts.take(vstd::math::min(n, capacity as int)));
    }
    assert forall|k: int| 0 <= k <= attempts.len() implies
        (#[trigger] contents_after_adds(capacity, attempts.take(k))).len()
            == vstd::math::min(k, capacity as int) by {
        if k < attempts.len() {
            lemma_adds_fill_exactly_to_capacity(capacity, attempts.take(k));
        } else {
            assert(attempts.take(k) =~= attempts);
        }
    }
}

/// A successful add raises the total value by exactly the added item's
/// value; together with the unchanged state on a failed add, the total is
/// unaffected by rejected insertions.
pub proof fn lemma_sum_push(s: Seq<Item>, item: Item)
    ensures
        sum_values(s.push(item)) == sum_values(s) + item.value,
{
    assert(s.push(item).drop_last() =~= s);
    assert(s.push(item).last() == item);
}

/// A successful removal lowers the total value by exactly the removed item's
/// value; together with the unchanged state on a failed removal, the total
/// is unaffected by rejected removals.
pub proof fn lemma_sum_remove(s: Seq<Item>, i: int)
    requires
        0 <= i < s.len(),
    ensures
        sum_values(s.remove(i)) == sum_values(s) - s[i].value,
    decreases s.len(),
{
    if i == s.len() - 1 {
        assert(s.remove(i) =~= s.drop_last());
    } else {
        assert(s.remove(i).drop_last() =~= s.drop_last().remove(i));
        assert(s.remove(i).last() == s[s.len() - 1]);
        lemma_sum_remove(s.drop_last(), i);
    }
}

/// Removing the item at a valid position keeps the relative order of what
/// remains: items before the position stay where they were, and every item
/// after it moves one position earlier. In particular, the item formerly at
/// `i + 1`, if there was one, is afterwards found at `i`; when `i` was the
/// last position, nothing stands at `i` any more.
pub proof fn lemma_remove_shifts_left(s: Seq<Item>, i: int)
    requires
        0 <= i < s.len(),
    ensures
        s.remove(i).len() == s.len() - 1,
        forall|j: int| 0 <= j < i ==> #[trigger] s.remove(i)[j] == s[j],
        forall|j: int| i <= j < s.len() - 1 ==> #[trigger] s.remove(i)[j] == s[j + 1],
{
    s.remove_ensures(i);
}

/// Adding an item and then removing it from the position where it landed,
/// with no other mutation in between, hands back that very item and restores
/// the previous contents: the same slots and the same total value as before
/// the add.
pub proof fn lemma_add_remove_round_trip(s: Seq<Item>, item: Item)
    ensures
        s.push(item)[s.len() as int] == item,
        s.push(item).remove(s.len() as int) == s,
        sum_values(s.push(item).remove(s.len() as int)) == sum_values(s),
{
    assert(s.push(item).remove(s.len() as int) =~= s);
}

/// An ordered container of items, bounded by a capacity fixed at
/// construction.
#[derive(Debug)]
pub struct Inventory {
    pub items: Vec<Item>,
    pub max_slots: usize,
}

impl Inventory {
    /// The container invariant: never more items than slots. Established at
    /// construction and enforced solely by `add_item`.
    pub open spec fn wf(self) -> bool {
        self.items@.len() <= self.max_slots
    }

    /// Whether one more item fits.
    pub open spec fn spec_can_add(self) -> bool {
        self.items@.len() < self.max_slots
    }

    /// What `is_full` reports: every slot taken.
    pub open spec fn spec_is_full(self) -> bool {
        self.items@.len() >= self.max_slots
    }

    /// Returns an empty inventory with the given fixed capacity. A capacity
    /// of zero is legal and yields an inventory that is already full.
    pub fn new(max_slots: usize) -> (r: Inventory)
        ensures
            r.items@ == Seq::<Item>::empty(),
            r.max_slots == max_slots,
            sum_values(r.items@) == 0,
            r.wf(),
    {
        Inventory { items: Vec::new(), max_slots }
    }

    /// Appends the item at the end when a slot is free; otherwise fails with
    /// `CapacityExceeded`, naming the rejected item, and stores nothing. This
    /// is the sole point that enforces the capacity bound.
    pub fn add_item(&mut self, item: Item) -> (r: Result<(), InventoryError>)
        ensures
            r is Ok <==> old(self).spec_can_add(),
            final(self).max_slots == old(self).max_slots,
            r is Ok ==> final(self).items@ == old(self).items@.push(item),
            (r matches Err(e) ==> (e == InventoryError::CapacityExceeded(item.name)
                && final(self).items@ == old(self).items@)),
            old(self).wf() ==> final(self).wf(),
    {
        if self.items.len() >= self.max_slots {
            Err(InventoryError::CapacityExceeded(item.name))
        } else {
            self.items.push(item);
            Ok(())
        }
    }

    /// Removes and returns the item at `index`, shifting every later item one
    /// position earlier; on a position at or past the end it fails with
    /// `IndexOutOfRange`, naming the position, and changes nothing.
    pub fn remove_item(&mut self, index: usize) -> (r: Result<Item, InventoryError>)
        ensures
            r is Ok <==> index < old(self).items@.len(),
            final(self).max_slots == old(self).max_slots,
            (r matches Ok(it) ==> (it == old(self).items@[index as int]
                && final(self).items@ == old(self).items@.remove(index as int))),
            (r matches Err(e) ==> (e == InventoryError::IndexOutOfRange(index)
                && final(self).items@ == old(self).items@)),
            old(self).wf() ==> final(self).wf(),
    {
        if index >= self.items.len() {
            Err(InventoryError::IndexOutOfRange(index))
        } else {
            Ok(self.items.remove(index))
        }
    }

    /// Returns a reference to the item at `index`, or nothing when the
    /// position is out of range. Absence, not an error, is the failure
    /// signal here.
    pub fn get_item<'a>(&'a self, index: usize) -> (r: Option<&'a Item>)
        ensures
            r is Some <==> index < self.items@.len(),
            (r matches Some(it) ==> *it == self.items@[index as int]),
    {
        if index < self.items.len() {
            Some(&self.items[index])
        } else {
            None
        }
    }

    /// Sums the `value` fields of all held items: zero for an empty
    /// inventory. A pure query; the bound on the mathematical sum is what the
    /// `u32` result forces.
    pub fn total_value(&self) -> (r: u32)
        requires
            sum_values(self.items@) <= u32::MAX,
        ensures
            r == sum_values(self.items@),
    {
        let mut total: u32 = 0;
        let mut i: usize = 0;
        while i < self.items.len()
            invariant
                i <= self.items@.len(),
                total == sum_values(self.items@.take(i as int)),
                sum_values(self.items@) <= u32::MAX,
            decreases self.items@.len() - i,
        {
            proof {
                lemma_sum_take_succ(self.items@, i as int);
                lemma_sum_take_le(self.items@, i + 1);
            }
            total = total + self.items[i].value;
            i = i + 1;
        }
        proof {
            assert(self.items@.take(self.items@.len() as int) =~= self.items@);
        }
        total
    }

    /// True exactly when every slot is taken. A pure query.
    pub fn is_full(&self) -> (r: bool)
        ensures
            r == self.spec_is_full(),
    {
        self.items.len() >= self.max_slots
    }
}

} // verus!
