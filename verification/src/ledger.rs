//! The resource ledger: a quantity for every kind of resource, with debits
//! that are paid in full or not at all and credits that stop at a capacity.

use vstd::prelude::*;

use crate::building::{amount_in, mentions, no_negative, plain, Amounts, Resource};

verus! {

/// A quantity for every kind of resource.
pub struct Ledger {
    /// The quantities, each at the index of its kind.
    pub amounts: [i32; 11],
}

impl View for Ledger {
    type V = Map<Resource, int>;

    open spec fn view(&self) -> Map<Resource, int> {
        Map::total(|r: Resource| self.amounts@[r.index_spec()] as int)
    }
}

/// A quantity after `amount` is credited to it: the sum, but no more than
/// `cap` (and no less than an `i32` can hold).
pub open spec fn capped(current: int, amount: int, cap: int) -> int {
    let sum = if current + amount <= cap {
        current + amount
    } else {
        cap
    };
    if sum < i32::MIN {
        i32::MIN as int
    } else {
        sum
    }
}

/// Whether the ledger holds every amount that `cost` lists.
pub open spec fn affordable(ledger: Map<Resource, int>, cost: Amounts) -> bool {
    forall|i: int| 0 <= i < cost.len() ==> ledger[(#[trigger] cost[i]).0] >= cost[i].1
}

/// The ledger after every amount of `cost` is taken from it.
pub open spec fn debited(ledger: Map<Resource, int>, cost: Amounts) -> Map<Resource, int> {
    Map::total(|r: Resource| ledger[r] - amount_in(cost, r))
}

/// The capacity for resource `r`, given the storage capacity and the cash
/// capacity: the currency-like resources `Tax` and `CashStorage` may fill
/// both together, every other resource the storage alone.
pub open spec fn limit(r: Resource, storage: int, cash_storage: int) -> int {
    let cap = match r {
        Resource::CashStorage | Resource::Tax => storage + cash_storage,
        _ => storage,
    };
    if cap > i32::MAX {
        i32::MAX as int
    } else if cap < i32::MIN {
        i32::MIN as int
    } else {
        cap
    }
}

/// The capacity that a ledger gives resource `r` between two ticks: what it
/// holds of `Storage`, and for `Tax` and `CashStorage` of `CashStorage` too.
pub open spec fn room(ledger: Map<Resource, int>, r: Resource) -> int {
    limit(r, ledger[Resource::Storage], ledger[Resource::CashStorage])
}

/// The ledger after `cost` is given back to it: each amount is credited, but
/// fills no further than the capacity that the ledger gives its resource
/// when the refund begins.
pub open spec fn given_back(ledger: Map<Resource, int>, cost: Amounts) -> Map<Resource, int> {
    refunded(ledger, cost, ledger[Resource::Storage], ledger[Resource::CashStorage])
}

/// The ledger after the amounts of `cost` are credited to it one after the
/// other, each stopping at the capacity of its resource.
pub open spec fn refunded(
    ledger: Map<Resource, int>,
    cost: Amounts,
    storage: int,
    cash_storage: int,
) -> Map<Resource, int>
    decreases cost.len(),
{
    if cost.len() == 0 {
        ledger
    } else {
        let before = refunded(ledger, cost.drop_last(), storage, cash_storage);
        let (r, amount) = cost.last();
        before.insert(r, capped(before[r], amount as int, limit(r, storage, cash_storage)))
    }
}

/// Whether no quantity is negative.
pub open spec fn non_negative(ledger: Map<Resource, int>) -> bool {
    forall|r: Resource| ledger[r] >= 0
}

/// Whether the map holds a quantity for every kind of resource.
pub open spec fn total(ledger: Map<Resource, int>) -> bool {
    forall|r: Resource| ledger.dom().contains(r)
}

/// A refund changes only the resources that the cost lists, and lifts none
/// of them above its capacity.
pub proof fn lemma_refunded(
    ledger: Map<Resource, int>,
    cost: Amounts,
    storage: int,
    cash_storage: int,
    r: Resource,
)
    requires
        total(ledger),
    ensures
        total(refunded(ledger, cost, storage, cash_storage)),
        !mentions(cost, r) ==> refunded(ledger, cost, storage, cash_storage)[r] == ledger[r],
        ledger[r] >= i32::MIN ==> refunded(ledger, cost, storage, cash_storage)[r] >= i32::MIN,
        ledger[r] >= i32::MIN && refunded(ledger, cost, storage, cash_storage)[r] > ledger[r]
            ==> refunded(ledger, cost, storage, cash_storage)[r] <= limit(
            r,
            storage,
            cash_storage,
        ),
    decreases cost.len(),
{
    if cost.len() > 0 {
        let rest = cost.drop_last();
        lemma_refunded(ledger, rest, storage, cash_storage, r);
        if mentions(rest, r) {
            let i = choose|i: int| 0 <= i < rest.len() && (#[trigger] rest[i]).0 == r;
            assert(cost[i].0 == r);
        }
        if cost.last().0 == r {
            assert(cost[cost.len() - 1].0 == r);
        }
        assert(total(refunded(ledger, cost, storage, cash_storage))) by {
            assert forall|q: Resource|
                refunded(ledger, cost, storage, cash_storage).dom().contains(q) by {
                lemma_refunded(ledger, rest, storage, cash_storage, q);
            }
        }
    }
}

/// Where the cost lists no negative amount, a refund credits each resource
/// the sum listed for it, stopping at the capacity of the resource.
pub proof fn lemma_refunded_sum(
    ledger: Map<Resource, int>,
    cost: Amounts,
    storage: int,
    cash_storage: int,
    r: Resource,
)
    requires
        total(ledger),
        no_negative(cost),
        ledger[r] >= i32::MIN,
    ensures
        mentions(cost, r) ==> refunded(ledger, cost, storage, cash_storage)[r] == capped(
            ledger[r],
            amount_in(cost, r),
            limit(r, storage, cash_storage),
        ),
        ledger[r] >= 0 && storage >= 0 && cash_storage >= 0 ==> refunded(
            ledger,
            cost,
            storage,
            cash_storage,
        )[r] >= 0,
    decreases cost.len(),
{
    if cost.len() > 0 {
        let rest = cost.drop_last();
        assert(no_negative(rest)) by {
            assert forall|i: int| 0 <= i < rest.len() implies (#[trigger] rest[i]).1 >= 0 by {
                assert(cost[i].1 >= 0);
            }
        }
        assert(cost[cost.len() - 1].1 >= 0);
        lemma_refunded_sum(ledger, rest, storage, cash_storage, r);
        lemma_refunded(ledger, rest, storage, cash_storage, r);
        lemma_amount_in_bounds(rest, r);
        if mentions(cost, r) && cost.last().0 != r {
            let i = choose|i: int| 0 <= i < cost.len() && (#[trigger] cost[i]).0 == r;
            assert(rest[i].0 == r);
        }
    }
}

/// Where no amount is negative, no sum of amounts is.
pub proof fn lemma_amount_in_bounds(list: Amounts, r: Resource)
    ensures
        no_negative(list) ==> amount_in(list, r) >= 0,
        !mentions(list, r) ==> amount_in(list, r) == 0,
    decreases list.len(),
{
    if list.len() > 0 {
        let rest = list.drop_last();
        lemma_amount_in_bounds(rest, r);
        if no_negative(list) {
            assert(no_negative(rest)) by {
                assert forall|i: int| 0 <= i < rest.len() implies (#[trigger] rest[i]).1 >= 0 by {
                    assert(list[i].1 >= 0);
                }
            }
            assert(list[list.len() - 1].1 >= 0);
        }
        if !mentions(list, r) {
            assert(list[list.len() - 1].0 != r);
            assert forall|i: int| 0 <= i < rest.len() implies (#[trigger] rest[i]).0 != r by {
                assert(list[i].0 != r);
            }
        }
    }
}

/// In a plain list, the sum for a resource is the one amount listed for it.
pub proof fn lemma_amount_in_plain(list: Amounts, i: int)
    requires
        plain(list),
        0 <= i < list.len(),
    ensures
        amount_in(list, list[i].0) == list[i].1,
    decreases list.len(),
{
    let rest = list.drop_last();
    assert(plain(rest)) by {
        assert forall|a: int| 0 <= a < rest.len() implies (#[trigger] rest[a]).1 >= 0 by {
            assert(list[a].1 >= 0);
        }
        assert forall|a: int, b: int| 0 <= a < b < rest.len() implies (#[trigger] rest[a]).0 != (
        #[trigger] rest[b]).0 by {
            assert(list[a].0 != list[b].0);
        }
    }
    if i < list.len() - 1 {
        lemma_amount_in_plain(rest, i);
        assert(list[i].0 != list[list.len() - 1].0);
    } else {
        assert forall|a: int| 0 <= a < rest.len() implies (#[trigger] rest[a]).0 != list[i].0 by {
            assert(list[a].0 != list[list.len() - 1].0);
        }
        lemma_amount_in_bounds(rest, list[i].0);
    }
}

impl Ledger {
    /// Whether no quantity is negative.
    pub open spec fn non_negative(&self) -> bool {
        non_negative(self@)
    }

    /// A ledger that holds nothing.
    pub fn new() -> (ledger: Ledger)
        ensures
            forall|r: Resource| ledger@[r] == 0,
            ledger.non_negative(),
    {
        Ledger { amounts: [0, 0, 0, 0, 0, 0, 0, 0, 0, 0, 0] }
    }

    /// The quantity held of `r`.
    pub fn get(&self, r: Resource) -> (amount: i32)
        ensures
            amount == self@[r],
    {
        self.amounts[r.index()]
    }

    /// Sets the quantity held of `r`.
    pub fn insert(&mut self, r: Resource, amount: i32)
        ensures
            final(self)@ == old(self)@.insert(r, amount as int),
    {
        self.amounts[r.index()] = amount;
        assert(self@ =~= old(self)@.insert(r, amount as int));
    }

    /// Credits `amount` of `r`, but fills no further than `cap`.
    pub fn credit(&mut self, r: Resource, amount: i32, cap: i32)
        ensures
            final(self)@ == old(self)@.insert(r, capped(old(self)@[r], amount as int, cap as int)),
    {
        let sum: i64 = self.amounts[r.index()] as i64 + amount as i64;
        let stopped: i64 = if sum <= cap as i64 {
            sum
        } else {
            cap as i64
        };
        let held: i32 = if stopped < i32::MIN as i64 {
            i32::MIN
        } else {
            stopped as i32
        };
        self.insert(r, held);
    }

    /// Whether the ledger holds every amount that `cost` lists.
    pub fn can_afford(&self, cost: &Vec<(Resource, i32)>) -> (enough: bool)
        ensures
            enough == affordable(self@, cost@),
    {
        let mut i: usize = 0;
        while i < cost.len()
            invariant
                i <= cost.len(),
                forall|j: int| 0 <= j < i ==> self@[(#[trigger] cost@[j]).0] >= cost@[j].1,
            decreases cost.len() - i,
        {
            if self.get(cost[i].0) < cost[i].1 {
                return false;
            }
            i = i + 1;
        }
        true
    }

    /// Takes every amount of `cost` from the ledger.
    pub fn debit(&mut self, cost: &Vec<(Resource, i32)>)
        requires
            plain(cost@),
            affordable(old(self)@, cost@),
        ensures
            final(self)@ == debited(old(self)@, cost@),
            old(self).non_negative() ==> final(self).non_negative(),
    {
        let mut i: usize = 0;
        while i < cost.len()
            invariant
                i <= cost.len(),
                plain(cost@),
                affordable(old(self)@, cost@),
                self@ == debited(old(self)@, cost@.take(i as int)),
            decreases cost.len() - i,
        {
            let (r, amount) = cost[i];
            proof {
                let done = cost@.take(i as int);
                assert(!mentions(done, r)) by {
                    if mentions(done, r) {
                        let j = choose|j: int| 0 <= j < done.len() && (#[trigger] done[j]).0 == r;
                        assert(cost@[j].0 != cost@[i as int].0);
                    }
                }
                lemma_amount_in_bounds(done, r);
                assert(self@[r] == old(self)@[r]);
                assert(old(self)@[cost@[i as int].0] >= cost@[i as int].1);
                assert(cost@[i as int].1 >= 0);
            }
            let held = self.get(r);
            self.insert(r, held - amount);
            proof {
                let next = cost@.take(i + 1);
                assert(next.drop_last() =~= cost@.take(i as int));
                assert(next.last() == cost@[i as int]);
                assert(self@ =~= debited(old(self)@, next));
            }
            i = i + 1;
        }
        proof {
            assert(cost@.take(cost.len() as int) =~= cost@);
            if old(self).non_negative() {
                assert forall|r: Resource| self@[r] >= 0 by {
                    assert(old(self)@[r] >= 0);
                    if mentions(cost@, r) {
                        let j = choose|j: int| 0 <= j < cost@.len() && (#[trigger] cost@[j]).0 == r;
                        lemma_amount_in_plain(cost@, j);
                    } else {
                        lemma_amount_in_bounds(cost@, r);
                    }
                }
            }
        }
    }

    /// Gives back the amounts of `cost`. Each is credited in full unless that
    /// would lift the resource above its capacity: what exceeds it is lost.
    /// The capacity is what the ledger holds when the refund begins, of
    /// `Storage` and `CashStorage` together for `Tax` and `CashStorage`, of
    /// `Storage` alone for every other resource.
    pub fn refund(&mut self, cost: &Vec<(Resource, i32)>)
        ensures
            final(self)@ == given_back(old(self)@, cost@),
            forall|r: Resource|
                final(self)@[r] > old(self)@[r] ==> final(self)@[r] <= room(old(self)@, r),
    {
        let storage = self.get(Resource::Storage);
        let cash_storage = self.get(Resource::CashStorage);
        let mut i: usize = 0;
        while i < cost.len()
            invariant
                i <= cost.len(),
                storage == old(self)@[Resource::Storage],
                cash_storage == old(self)@[Resource::CashStorage],
                self@ == refunded(
                    old(self)@,
                    cost@.take(i as int),
                    storage as int,
                    cash_storage as int,
                ),
            decreases cost.len() - i,
        {
            let (r, amount) = cost[i];
            self.credit(r, amount, limit_of(r, storage, cash_storage));
            proof {
                let next = cost@.take(i + 1);
                assert(next.drop_last() =~= cost@.take(i as int));
                assert(next.last() == cost@[i as int]);
            }
            i = i + 1;
        }
        proof {
            assert(cost@.take(cost.len() as int) =~= cost@);
            assert forall|r: Resource| #[trigger] self@[r] > old(self)@[r] implies self@[r]
                <= limit(r, storage as int, cash_storage as int) by {
                lemma_refunded(old(self)@, cost@, storage as int, cash_storage as int, r);
            }
        }
    }
}

/// The capacity for resource `r`, given the storage capacity and the cash
/// capacity.
pub fn limit_of(r: Resource, storage: i32, cash_storage: i32) -> (cap: i32)
    ensures
        cap == limit(r, storage as int, cash_storage as int),
{
    match r {
        Resource::CashStorage | Resource::Tax => {
            let both: i64 = storage as i64 + cash_storage as i64;
            if both > i32::MAX as i64 {
                i32::MAX
            } else if both < i32::MIN as i64 {
                i32::MIN
            } else {
                both as i32
            }
        },
        _ => storage,
    }
}

} // verus!
