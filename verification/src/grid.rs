//! The rules of a parcel, stated over its 64 cells as plain values: which
//! placements are valid, and how a parcel settles after an edit.
//!
//! The cell in row `x`, column `y` stands at index `8 * x + y`.

use vstd::prelude::*;

use crate::building::{catalog, BuildingType, BuildingView, Resource};
use crate::ledger::{
    affordable, debited, given_back, lemma_refunded, lemma_refunded_sum, non_negative, room, total,
};
use crate::pos::Pos;

verus! {

/// How many of `cells` hold kind `t`.
pub open spec fn count(cells: Seq<BuildingType>, t: BuildingType) -> int
    decreases cells.len(),
{
    if cells.len() == 0 {
        0
    } else {
        count(cells.drop_last(), t) + if cells.last() == t {
            1int
        } else {
            0int
        }
    }
}

/// How many of `cells` hold a building.
pub open spec fn built(cells: Seq<BuildingType>) -> int {
    cells.len() - count(cells, BuildingType::Ground)
}

/// A count lies between nothing and all.
pub proof fn lemma_count_bounds(cells: Seq<BuildingType>, t: BuildingType)
    ensures
        0 <= count(cells, t) <= cells.len(),
    decreases cells.len(),
{
    if cells.len() > 0 {
        lemma_count_bounds(cells.drop_last(), t);
    }
}

/// A kind is counted if and only if some cell holds it.
pub proof fn lemma_count_positive(cells: Seq<BuildingType>, t: BuildingType)
    ensures
        count(cells, t) > 0 <==> cells.contains(t),
    decreases cells.len(),
{
    if cells.len() > 0 {
        let rest = cells.drop_last();
        lemma_count_positive(rest, t);
        lemma_count_bounds(rest, t);
        if rest.contains(t) {
            let i = choose|i: int| 0 <= i < rest.len() && rest[i] == t;
            assert(cells[i] == t);
        }
        if cells.last() == t {
            assert(cells[cells.len() - 1] == t);
        }
        if cells.contains(t) && cells.last() != t {
            let i = choose|i: int| 0 <= i < cells.len() && cells[i] == t;
            assert(rest[i] == t);
        }
    }
}

/// Replacing one cell takes one from the count of the kind that leaves and
/// adds one to the count of the kind that comes.
pub proof fn lemma_count_update(
    cells: Seq<BuildingType>,
    k: int,
    new: BuildingType,
    t: BuildingType,
)
    requires
        0 <= k < cells.len(),
    ensures
        count(cells.update(k, new), t) == count(cells, t) - (if cells[k] == t {
            1int
        } else {
            0int
        }) + (if new == t {
            1int
        } else {
            0int
        }),
    decreases cells.len(),
{
    let after = cells.update(k, new);
    if k == cells.len() - 1 {
        assert(after.drop_last() =~= cells.drop_last());
    } else {
        assert(after.drop_last() =~= cells.drop_last().update(k, new));
        lemma_count_update(cells.drop_last(), k, new, t);
    }
}

/// Whether `(x, y)` is a cell of the parcel.
pub open spec fn in_grid(x: int, y: int) -> bool {
    0 <= x < 8 && 0 <= y < 8
}

/// Whether `(x, y)` is a cell that holds kind `t`.
pub open spec fn holds(cells: Seq<BuildingType>, x: int, y: int, t: BuildingType) -> bool {
    in_grid(x, y) && cells[8 * x + y] == t
}

/// Whether one of the orthogonal neighbors of `(x, y)` inside the parcel
/// holds kind `t`.
pub open spec fn has_neighbor(cells: Seq<BuildingType>, x: int, y: int, t: BuildingType) -> bool {
    holds(cells, x - 1, y, t) || holds(cells, x + 1, y, t) || holds(cells, x, y - 1, t) || holds(
        cells,
        x,
        y + 1,
        t,
    )
}

/// Whether `b` tolerates what stands at `(x, y)`: a place outside the parcel
/// holds nothing to object to; a cell inside must hold a kind that `b`
/// requires or admits. An empty cell holds `Ground`, which is a kind like
/// any other here: a building stands beside empty land only if its lists
/// name `Ground`.
pub open spec fn tolerated(cells: Seq<BuildingType>, x: int, y: int, b: BuildingView) -> bool {
    in_grid(x, y) ==> b.required_adj.contains(cells[8 * x + y]) || b.optional_adj.contains(
        cells[8 * x + y],
    )
}

/// Whether building `b` may stand at `(x, y)`.
pub open spec fn valid(cells: Seq<BuildingType>, x: int, y: int, b: BuildingView) -> bool {
    b.building_type == BuildingType::Ground || {
        &&& forall|i: int| 0 <= i < b.tile_adj.len() ==> count(cells, #[trigger] b.tile_adj[i]) > 0
        &&& forall|i: int|
            0 <= i < b.required_adj.len() ==> has_neighbor(cells, x, y, #[trigger] b.required_adj[i])
        &&& tolerated(cells, x - 1, y, b)
        &&& tolerated(cells, x + 1, y, b)
        &&& tolerated(cells, x, y - 1, b)
        &&& tolerated(cells, x, y + 1, b)
    }
}

/// An empty cell is valid wherever it is, whatever the parcel holds.
pub proof fn lemma_ground_is_valid(cells: Seq<BuildingType>, x: int, y: int)
    ensures
        valid(cells, x, y, catalog(BuildingType::Ground)),
{
}

/// A building is valid only where every kind that it requires stands among
/// the orthogonal neighbors inside the parcel, and every kind of its
/// parcel-wide list stands in some cell.
pub proof fn lemma_valid_needs(
    cells: Seq<BuildingType>,
    x: int,
    y: int,
    b: BuildingView,
    needed: BuildingType,
)
    requires
        b.building_type != BuildingType::Ground,
        valid(cells, x, y, b),
    ensures
        b.required_adj.contains(needed) ==> has_neighbor(cells, x, y, needed),
        b.tile_adj.contains(needed) ==> cells.contains(needed),
{
    if b.required_adj.contains(needed) {
        let i = choose|i: int| 0 <= i < b.required_adj.len() && b.required_adj[i] == needed;
        assert(has_neighbor(cells, x, y, b.required_adj[i]));
    }
    if b.tile_adj.contains(needed) {
        let i = choose|i: int| 0 <= i < b.tile_adj.len() && b.tile_adj[i] == needed;
        assert(count(cells, b.tile_adj[i]) > 0);
        lemma_count_positive(cells, needed);
    }
}

/// A building is valid only where every neighbor cell inside the parcel,
/// the empty ones too, holds a kind that the building requires or admits:
/// one neighbor of another kind is enough to reject it.
pub proof fn lemma_valid_admits_every_neighbor(
    cells: Seq<BuildingType>,
    x: int,
    y: int,
    b: BuildingView,
    nx: int,
    ny: int,
)
    requires
        b.building_type != BuildingType::Ground,
        valid(cells, x, y, b),
        in_grid(nx, ny),
        (nx == x - 1 && ny == y) || (nx == x + 1 && ny == y) || (nx == x && ny == y - 1) || (nx
            == x && ny == y + 1),
    ensures
        b.required_adj.contains(cells[8 * nx + ny]) || b.optional_adj.contains(cells[8 * nx + ny]),
{
}

/// The position of the cell at index `k`.
pub open spec fn cell_pos(k: int) -> Pos {
    Pos { x: (k / 8) as i32, y: (k % 8) as i32 }
}

/// Whether what stands in cell `k` may stand there.
pub open spec fn cell_valid(cells: Seq<BuildingType>, k: int) -> bool {
    valid(cells, k / 8, k % 8, catalog(cells[k]))
}

/// Whether every cell holds what may stand there.
pub open spec fn settled(cells: Seq<BuildingType>) -> bool {
    forall|k: int| 0 <= k < 64 ==> cell_valid(cells, k)
}

/// The first cell from `from` on that holds what may not stand there, or 64
/// where there is none.
pub open spec fn first_invalid(cells: Seq<BuildingType>, from: int) -> int
    decreases 64 - from,
{
    if from >= 64 {
        64
    } else if !cell_valid(cells, from) {
        from
    } else {
        first_invalid(cells, from + 1)
    }
}

/// `first_invalid` finds an invalid cell, and passes over valid ones only.
pub proof fn lemma_first_invalid(cells: Seq<BuildingType>, from: int)
    requires
        0 <= from <= 64,
    ensures
        from <= first_invalid(cells, from) <= 64,
        first_invalid(cells, from) < 64 ==> !cell_valid(cells, first_invalid(cells, from))
            && cells[first_invalid(cells, from)] != BuildingType::Ground,
        forall|k: int| from <= k < first_invalid(cells, from) ==> cell_valid(cells, k),
    decreases 64 - from,
{
    if from < 64 && cell_valid(cells, from) {
        lemma_first_invalid(cells, from + 1);
    }
}

/// What a sweep works on: the cells of a parcel, its planned markers and
/// the ledger that takes the refunds.
pub struct Estate {
    pub cells: Seq<BuildingType>,
    pub planned: Map<Pos, BuildingType>,
    pub ledger: Map<Resource, int>,
}

/// The estate after the building in cell `k` is torn down: the cell is
/// empty, its kind is planned at its position, and its cost is given back as
/// far as the capacity of each resource allows.
pub open spec fn razed(s: Estate, k: int) -> Estate {
    Estate {
        cells: s.cells.update(k, BuildingType::Ground),
        planned: s.planned.insert(cell_pos(k), s.cells[k]),
        ledger: given_back(s.ledger, s.cells[k].cost_spec()),
    }
}

/// The estate after the consistency sweep: as long as some cell holds what
/// may not stand there, the first such cell is torn down. Each step empties
/// a cell, so the sweep ends, and it ends with every cell valid.
pub open spec fn settle(s: Estate) -> Estate
    decreases built(s.cells),
    when s.cells.len() == 64
{
    let k = first_invalid(s.cells, 0);
    if k < 64 {
        proof {
            lemma_first_invalid(s.cells, 0);
            lemma_count_update(s.cells, k, BuildingType::Ground, BuildingType::Ground);
            lemma_count_bounds(s.cells, BuildingType::Ground);
            lemma_count_bounds(s.cells.update(k, BuildingType::Ground), BuildingType::Ground);
        }
        settle(razed(s, k))
    } else {
        s
    }
}

/// The sweep reaches a fixed point: afterwards every cell is valid, so a
/// second sweep tears nothing down and changes nothing.
pub proof fn lemma_settle_fixed_point(s: Estate)
    requires
        s.cells.len() == 64,
    ensures
        settle(s).cells.len() == 64,
        settled(settle(s).cells),
        first_invalid(settle(s).cells, 0) == 64,
        settle(settle(s)) == settle(s),
    decreases built(s.cells),
{
    let k = first_invalid(s.cells, 0);
    lemma_first_invalid(s.cells, 0);
    if k < 64 {
        lemma_count_update(s.cells, k, BuildingType::Ground, BuildingType::Ground);
        lemma_count_bounds(s.cells, BuildingType::Ground);
        lemma_count_bounds(s.cells.update(k, BuildingType::Ground), BuildingType::Ground);
        lemma_settle_fixed_point(razed(s, k));
    } else {
        assert(settle(s) == s);
    }
}

/// A sweep on cells that are all valid tears nothing down.
pub proof fn lemma_settle_settled(s: Estate)
    requires
        s.cells.len() == 64,
        settled(s.cells),
    ensures
        settle(s) == s,
{
    lemma_first_invalid(s.cells, 0);
}

/// What a sweep leaves of the cells and the ledger: a cell keeps its
/// building or is empty; the two capacities stay what they were; no
/// resource is lifted above its capacity; and nothing that was not negative
/// becomes so.
pub proof fn lemma_settle_bounds(s: Estate, r: Resource)
    requires
        s.cells.len() == 64,
        total(s.ledger),
        forall|q: Resource| s.ledger[q] >= i32::MIN,
    ensures
        total(settle(s).ledger),
        forall|k: int|
            0 <= k < 64 ==> settle(s).cells[k] == s.cells[k] || settle(s).cells[k]
                == BuildingType::Ground,
        settle(s).ledger[Resource::Storage] == s.ledger[Resource::Storage],
        settle(s).ledger[Resource::CashStorage] == s.ledger[Resource::CashStorage],
        settle(s).ledger[r] >= i32::MIN,
        settle(s).ledger[r] > s.ledger[r] ==> settle(s).ledger[r] <= room(s.ledger, r),
        settle(s).ledger[r] >= s.ledger[r] || settle(s).ledger[r] >= room(s.ledger, r),
    decreases built(s.cells),
{
    let k = first_invalid(s.cells, 0);
    lemma_first_invalid(s.cells, 0);
    if k < 64 {
        lemma_count_update(s.cells, k, BuildingType::Ground, BuildingType::Ground);
        lemma_count_bounds(s.cells, BuildingType::Ground);
        lemma_count_bounds(s.cells.update(k, BuildingType::Ground), BuildingType::Ground);
        let next = razed(s, k);
        lemma_given_back(s.ledger, s.cells[k], r);
        assert forall|q: Resource| next.ledger[q] >= i32::MIN by {
            lemma_given_back(s.ledger, s.cells[k], q);
        }
        lemma_settle_bounds(next, r);
        lemma_settle_fixed_point(next);
        assert forall|j: int| 0 <= j < 64 implies settle(s).cells[j] == s.cells[j] || settle(
            s,
        ).cells[j] == BuildingType::Ground by {
            assert(settle(next).cells[j] == next.cells[j] || settle(next).cells[j]
                == BuildingType::Ground);
        }
    }
}

/// What the refund of a building of kind `t` leaves: each resource of its
/// cost is credited the amount listed, stopping at the capacity that the
/// ledger gives the resource; every other resource, and with them the two
/// capacities, stay what they were.
pub proof fn lemma_given_back(ledger: Map<Resource, int>, t: BuildingType, r: Resource)
    requires
        total(ledger),
        ledger[r] >= i32::MIN,
    ensures
        total(given_back(ledger, t.cost_spec())),
        given_back(ledger, t.cost_spec())[r] == if crate::building::mentions(t.cost_spec(), r) {
            crate::ledger::capped(
                ledger[r],
                crate::building::amount_in(t.cost_spec(), r),
                room(ledger, r),
            )
        } else {
            ledger[r]
        },
        crate::building::amount_in(t.cost_spec(), r) >= 0,
        given_back(ledger, t.cost_spec())[Resource::Storage] == ledger[Resource::Storage],
        given_back(ledger, t.cost_spec())[Resource::CashStorage] == ledger[Resource::CashStorage],
        given_back(ledger, t.cost_spec())[r] >= i32::MIN,
        given_back(ledger, t.cost_spec())[r] > ledger[r] ==> given_back(ledger, t.cost_spec())[r]
            <= room(ledger, r),
        given_back(ledger, t.cost_spec())[r] >= ledger[r] || given_back(
            ledger,
            t.cost_spec(),
        )[r] >= room(ledger, r),
{
    let cost = t.cost_spec();
    let storage = ledger[Resource::Storage];
    let cash = ledger[Resource::CashStorage];
    crate::building::lemma_costs(t);
    lemma_refunded(ledger, cost, storage, cash, r);
    lemma_refunded(ledger, cost, storage, cash, Resource::Storage);
    lemma_refunded(ledger, cost, storage, cash, Resource::CashStorage);
    lemma_refunded_sum(ledger, cost, storage, cash, r);
    crate::ledger::lemma_amount_in_bounds(cost, r);
}

/// What an edit leaves, and whether it changed the grid: the edit asks for
/// a building of kind `t` in the cell at `(x, y)`.
///
/// - Outside the parcel nothing happens.
/// - Where the cell holds kind `t` already, only its planned marker goes.
/// - `Ground` tears down what stands there: its cost is given back as far
///   as the capacity of each resource allows, and the parcel settles.
/// - Any other kind is placed if it is valid there and the ledger holds its
///   whole cost: the cost is taken, the planned marker goes, and the parcel
///   settles. Otherwise nothing changes and nothing is charged.
pub open spec fn applied(s: Estate, x: int, y: int, t: BuildingType) -> (Estate, bool) {
    if !in_grid(x, y) {
        (s, false)
    } else {
        let k = 8 * x + y;
        let current = s.cells[k];
        if t == current {
            (Estate { planned: s.planned.remove(cell_pos(k)), ..s }, false)
        } else if t == BuildingType::Ground {
            (
                settle(
                    Estate {
                        cells: s.cells.update(k, BuildingType::Ground),
                        planned: s.planned,
                        ledger: given_back(s.ledger, current.cost_spec()),
                    },
                ),
                true,
            )
        } else if !valid(s.cells, x, y, catalog(t)) || !affordable(s.ledger, t.cost_spec()) {
            (s, false)
        } else {
            (
                settle(
                    Estate {
                        cells: s.cells.update(k, t),
                        planned: s.planned.remove(cell_pos(k)),
                        ledger: debited(s.ledger, t.cost_spec()),
                    },
                ),
                true,
            )
        }
    }
}

/// What every edit keeps: an edit that changes the grid leaves every cell
/// valid; no edit lifts a resource above the capacity that the ledger gives
/// it, and the two capacities stay what they were; an edit that asks for
/// what the cell holds already changes neither the cells nor the ledger;
/// and no edit makes a quantity negative.
pub proof fn lemma_applied(s: Estate, x: int, y: int, t: BuildingType, r: Resource)
    requires
        s.cells.len() == 64,
        total(s.ledger),
        forall|q: Resource| s.ledger[q] >= i32::MIN,
    ensures
        applied(s, x, y, t).0.cells.len() == 64,
        applied(s, x, y, t).1 ==> settled(applied(s, x, y, t).0.cells),
        !applied(s, x, y, t).1 ==> applied(s, x, y, t).0.cells == s.cells && applied(
            s,
            x,
            y,
            t,
        ).0.ledger == s.ledger,
        applied(s, x, y, t).0.ledger[Resource::Storage] == s.ledger[Resource::Storage],
        applied(s, x, y, t).0.ledger[Resource::CashStorage] == s.ledger[Resource::CashStorage],
        applied(s, x, y, t).0.ledger[r] > s.ledger[r] ==> applied(s, x, y, t).0.ledger[r] <= room(
            s.ledger,
            r,
        ),
        in_grid(x, y) && t == s.cells[8 * x + y] ==> !applied(s, x, y, t).1,
        non_negative(s.ledger) ==> applied(s, x, y, t).0.ledger[r] >= 0,
        total(applied(s, x, y, t).0.ledger),
        applied(s, x, y, t).0.ledger[r] >= i32::MIN,
{
    if in_grid(x, y) {
        let k = 8 * x + y;
        let current = s.cells[k];
        if t == current {
        } else if t == BuildingType::Ground {
            let start = Estate {
                cells: s.cells.update(k, BuildingType::Ground),
                planned: s.planned,
                ledger: given_back(s.ledger, current.cost_spec()),
            };
            lemma_given_back(s.ledger, current, r);
            assert forall|q: Resource| start.ledger[q] >= i32::MIN by {
                lemma_given_back(s.ledger, current, q);
            }
            lemma_settle_bounds(start, r);
            lemma_settle_fixed_point(start);
        } else if !valid(s.cells, x, y, catalog(t)) || !affordable(s.ledger, t.cost_spec()) {
        } else {
            let start = Estate {
                cells: s.cells.update(k, t),
                planned: s.planned.remove(cell_pos(k)),
                ledger: debited(s.ledger, t.cost_spec()),
            };
            crate::building::lemma_costs(t);
            crate::ledger::lemma_amount_in_bounds(t.cost_spec(), r);
            crate::ledger::lemma_amount_in_bounds(t.cost_spec(), Resource::Storage);
            crate::ledger::lemma_amount_in_bounds(t.cost_spec(), Resource::CashStorage);
            if crate::building::mentions(t.cost_spec(), r) {
                let j = choose|j: int|
                    0 <= j < t.cost_spec().len() && (#[trigger] t.cost_spec()[j]).0 == r;
                crate::ledger::lemma_amount_in_plain(t.cost_spec(), j);
            }
            assert forall|q: Resource| start.ledger[q] >= i32::MIN by {
                if crate::building::mentions(t.cost_spec(), q) {
                    let j = choose|j: int|
                        0 <= j < t.cost_spec().len() && (#[trigger] t.cost_spec()[j]).0 == q;
                    crate::ledger::lemma_amount_in_plain(t.cost_spec(), j);
                } else {
                    crate::ledger::lemma_amount_in_bounds(t.cost_spec(), q);
                }
            }
            lemma_settle_bounds(start, r);
            lemma_settle_fixed_point(start);
        }
    }
}

/// An edit that asks for the kind that the cell holds already changes
/// neither the cells, and so no count, nor the ledger.
pub proof fn lemma_same_kind_changes_nothing(s: Estate, x: int, y: int)
    requires
        in_grid(x, y),
    ensures
        !applied(s, x, y, s.cells[8 * x + y]).1,
        applied(s, x, y, s.cells[8 * x + y]).0.cells == s.cells,
        applied(s, x, y, s.cells[8 * x + y]).0.ledger == s.ledger,
{
}

/// After an edit that changed the grid, a second sweep tears nothing down:
/// it leaves the cells, the planned markers and the ledger as they are.
pub proof fn lemma_second_sweep_changes_nothing(s: Estate, x: int, y: int, t: BuildingType)
    requires
        s.cells.len() == 64,
        applied(s, x, y, t).1,
    ensures
        settle(applied(s, x, y, t).0) == applied(s, x, y, t).0,
        first_invalid(applied(s, x, y, t).0.cells, 0) == 64,
{
    let k = 8 * x + y;
    let current = s.cells[k];
    if t == BuildingType::Ground {
        lemma_settle_fixed_point(
            Estate {
                cells: s.cells.update(k, BuildingType::Ground),
                planned: s.planned,
                ledger: given_back(s.ledger, current.cost_spec()),
            },
        );
    } else {
        lemma_settle_fixed_point(
            Estate {
                cells: s.cells.update(k, t),
                planned: s.planned.remove(cell_pos(k)),
                ledger: debited(s.ledger, t.cost_spec()),
            },
        );
    }
}

/// The planned markers of the first `n` cells, row by row: each with the
/// position of its cell.
pub open spec fn plans_upto(planned: Map<Pos, BuildingType>, n: nat) -> Seq<(Pos, BuildingType)>
    decreases n,
{
    if n == 0 {
        Seq::empty()
    } else {
        let before = plans_upto(planned, (n - 1) as nat);
        let here = cell_pos(n - 1);
        if planned.dom().contains(here) {
            before.push((here, planned[here]))
        } else {
            before
        }
    }
}

/// What a list of edits leaves, each made on what the one before it left,
/// and whether one of them changed the grid.
pub open spec fn applied_all(s: Estate, edits: Seq<(Pos, BuildingType)>) -> (Estate, bool)
    decreases edits.len(),
{
    if edits.len() == 0 {
        (s, false)
    } else {
        let before = applied_all(s, edits.drop_last());
        let (at, t) = edits.last();
        let after = applied(before.0, at.x as int, at.y as int, t);
        (after.0, before.1 || after.1)
    }
}

/// What every list of edits keeps: the two capacities stay what they were,
/// no resource is lifted above its capacity, and no quantity becomes
/// negative.
pub proof fn lemma_applied_all(s: Estate, edits: Seq<(Pos, BuildingType)>, r: Resource)
    requires
        s.cells.len() == 64,
        total(s.ledger),
        forall|q: Resource| s.ledger[q] >= i32::MIN,
    ensures
        applied_all(s, edits).0.cells.len() == 64,
        total(applied_all(s, edits).0.ledger),
        applied_all(s, edits).0.ledger[r] >= i32::MIN,
        applied_all(s, edits).0.ledger[Resource::Storage] == s.ledger[Resource::Storage],
        applied_all(s, edits).0.ledger[Resource::CashStorage] == s.ledger[Resource::CashStorage],
        applied_all(s, edits).0.ledger[r] > s.ledger[r] ==> applied_all(s, edits).0.ledger[r]
            <= room(s.ledger, r),
        !applied_all(s, edits).1 ==> applied_all(s, edits).0.cells == s.cells && applied_all(
            s,
            edits,
        ).0.ledger == s.ledger,
        non_negative(s.ledger) ==> applied_all(s, edits).0.ledger[r] >= 0,
    decreases edits.len(),
{
    if edits.len() > 0 {
        let before = applied_all(s, edits.drop_last());
        let (at, t) = edits.last();
        lemma_applied_all(s, edits.drop_last(), r);
        assert forall|q: Resource|
            before.0.ledger[q] >= i32::MIN && (non_negative(s.ledger) ==> before.0.ledger[q]
                >= 0) by {
            lemma_applied_all(s, edits.drop_last(), q);
        }
        lemma_applied(before.0, at.x as int, at.y as int, t, r);
    }
}

} // verus!
