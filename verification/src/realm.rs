//! The rules of the world, stated over its parcels as plain values: which
//! positions can be bought, what a parcel sees around it, and what a
//! production tick yields.

use vstd::prelude::*;

use crate::building::{BuildingType, Resource};
use crate::grid::{count, lemma_count_bounds};
use crate::ledger::{capped, limit};
use crate::pos::{adjoins, Pos};
use crate::production::{
    census, fill, kind_yields, lemma_capped_twice, lemma_census_fits, lemma_parcel_yields,
    lemma_yield_upto, parcel_yield, parcel_yields, produced, tallied, BASE_STORAGE,
};

verus! {

/// A parcel as the world's rules see it: where it lies and what its cells
/// hold.
pub struct Plot {
    pub pos: Pos,
    pub cells: Seq<BuildingType>,
}

/// Whether a parcel lies at `p`.
pub open spec fn owned(plots: Seq<Plot>, p: Pos) -> bool {
    exists|i: int| 0 <= i < plots.len() && (#[trigger] plots[i]).pos == p
}

/// Whether no two parcels lie at one position.
pub open spec fn distinct(plots: Seq<Plot>) -> bool {
    forall|i: int, j: int|
        0 <= i < j < plots.len() ==> (#[trigger] plots[i]).pos != (#[trigger] plots[j]).pos
}

/// Whether every parcel has its 64 cells.
pub open spec fn whole(plots: Seq<Plot>) -> bool {
    forall|i: int| 0 <= i < plots.len() ==> (#[trigger] plots[i]).cells.len() == 64
}

/// Whether `q` can be bought: no parcel lies there, and one lies next to it.
pub open spec fn on_frontier(plots: Seq<Plot>, q: Pos) -> bool {
    !owned(plots, q) && exists|i: int|
        0 <= i < plots.len() && adjoins((#[trigger] plots[i]).pos, q)
}

/// Whether `list` is the frontier: every position that can be bought, once.
pub open spec fn frontier_of(plots: Seq<Plot>, list: Seq<Pos>) -> bool {
    list.no_duplicates() && forall|q: Pos| list.contains(q) <==> on_frontier(plots, q)
}

/// How many cells of kind `t` the first `n` parcels hold at `(x, y)`: the
/// count of the parcel that lies there, or nothing.
pub open spec fn local_upto(plots: Seq<Plot>, x: int, y: int, t: BuildingType, n: nat) -> int
    decreases n,
{
    if n == 0 {
        0
    } else {
        local_upto(plots, x, y, t, (n - 1) as nat) + if plots[n - 1].pos.x == x && plots[n
            - 1].pos.y == y {
            count(plots[n - 1].cells, t)
        } else {
            0
        }
    }
}

/// How many cells of kind `t` the parcel at `(x, y)` holds; nothing where no
/// parcel lies.
pub open spec fn local(plots: Seq<Plot>, x: int, y: int, t: BuildingType) -> int {
    local_upto(plots, x, y, t, plots.len())
}

/// How many cells of kind `t` the parcel at `p` and its four orthogonal
/// neighbors hold together.
pub open spec fn around(plots: Seq<Plot>, p: Pos, t: BuildingType) -> int {
    let x = p.x as int;
    let y = p.y as int;
    local(plots, x - 1, y, t) + local(plots, x + 1, y, t) + local(plots, x, y - 1, t) + local(
        plots,
        x,
        y + 1,
        t,
    ) + local(plots, x, y, t)
}

/// Whether `p` is `c` or one of its four orthogonal neighbors.
pub open spec fn near(c: Pos, p: Pos) -> bool {
    p == c || adjoins(c, p)
}

/// Where none of the first `n` parcels lies at `(x, y)`, nothing is counted
/// there.
pub proof fn lemma_local_none(plots: Seq<Plot>, x: int, y: int, t: BuildingType, n: nat)
    requires
        n <= plots.len(),
        forall|i: int| 0 <= i < n ==> !((#[trigger] plots[i]).pos.x == x && plots[i].pos.y == y),
    ensures
        local_upto(plots, x, y, t, n) == 0,
    decreases n,
{
    if n > 0 {
        lemma_local_none(plots, x, y, t, (n - 1) as nat);
        assert(!(plots[n - 1].pos.x == x && plots[n - 1].pos.y == y));
    }
}

/// Where parcel `i` lies at `(x, y)` and no other does, what is counted
/// there is the count of parcel `i`.
pub proof fn lemma_local_one(plots: Seq<Plot>, i: int, t: BuildingType, n: nat)
    requires
        distinct(plots),
        0 <= i < plots.len(),
        n <= plots.len(),
    ensures
        local_upto(plots, plots[i].pos.x as int, plots[i].pos.y as int, t, n) == if i < n {
            count(plots[i].cells, t)
        } else {
            0
        },
    decreases n,
{
    if n > 0 {
        lemma_local_one(plots, i, t, (n - 1) as nat);
        if i != n - 1 {
            assert(plots[i].pos != plots[n - 1].pos);
        }
    }
}

/// What is counted at a place depends on the parcel there alone: where two
/// worlds agree on every parcel but those at `c`, they count the same
/// everywhere else.
pub proof fn lemma_local_elsewhere(
    a: Seq<Plot>,
    b: Seq<Plot>,
    c: Pos,
    x: int,
    y: int,
    t: BuildingType,
    n: nat,
)
    requires
        n <= a.len(),
        n <= b.len(),
        forall|i: int| 0 <= i < n ==> (#[trigger] a[i]).pos == (#[trigger] b[i]).pos,
        forall|i: int| 0 <= i < n && (#[trigger] a[i]).pos != c ==> a[i] == b[i],
        !(c.x == x && c.y == y),
    ensures
        local_upto(a, x, y, t, n) == local_upto(b, x, y, t, n),
    decreases n,
{
    if n > 0 {
        lemma_local_elsewhere(a, b, c, x, y, t, (n - 1) as nat);
        assert(a[n - 1].pos == b[n - 1].pos);
        if a[n - 1].pos != c {
            assert(a[n - 1] == b[n - 1]);
        }
    }
}

/// A change to the parcels at `c` alone is seen at `c` and next to it, and
/// nowhere else.
pub proof fn lemma_around_elsewhere(a: Seq<Plot>, b: Seq<Plot>, c: Pos, p: Pos, t: BuildingType)
    requires
        a.len() <= b.len(),
        forall|i: int| 0 <= i < a.len() ==> (#[trigger] a[i]).pos == (#[trigger] b[i]).pos,
        forall|i: int| 0 <= i < a.len() && (#[trigger] a[i]).pos != c ==> a[i] == b[i],
        forall|i: int| a.len() <= i < b.len() ==> (#[trigger] b[i]).pos == c,
        !near(c, p),
    ensures
        around(a, p, t) == around(b, p, t),
{
    lemma_local_more(a, b, c, p.x - 1, p.y as int, t, b.len());
    lemma_local_more(a, b, c, p.x + 1, p.y as int, t, b.len());
    lemma_local_more(a, b, c, p.x as int, p.y - 1, t, b.len());
    lemma_local_more(a, b, c, p.x as int, p.y + 1, t, b.len());
    lemma_local_more(a, b, c, p.x as int, p.y as int, t, b.len());
}

/// Parcels added at `c` are not counted anywhere else.
pub proof fn lemma_local_more(
    a: Seq<Plot>,
    b: Seq<Plot>,
    c: Pos,
    x: int,
    y: int,
    t: BuildingType,
    n: nat,
)
    requires
        a.len() <= n <= b.len(),
        forall|i: int| 0 <= i < a.len() ==> (#[trigger] a[i]).pos == (#[trigger] b[i]).pos,
        forall|i: int| 0 <= i < a.len() && (#[trigger] a[i]).pos != c ==> a[i] == b[i],
        forall|i: int| a.len() <= i < b.len() ==> (#[trigger] b[i]).pos == c,
        !(c.x == x && c.y == y),
    ensures
        local_upto(b, x, y, t, n) == local(a, x, y, t),
    decreases n,
{
    if n == a.len() {
        lemma_local_elsewhere(a, b, c, x, y, t, n);
    } else {
        lemma_local_more(a, b, c, x, y, t, (n - 1) as nat);
        assert(b[n - 1].pos == c);
    }
}

/// What is counted at a place is never negative and at most 64, where every
/// parcel has its 64 cells and no two lie at one position.
pub proof fn lemma_local_bounds(plots: Seq<Plot>, x: int, y: int, t: BuildingType)
    requires
        distinct(plots),
        whole(plots),
    ensures
        0 <= local(plots, x, y, t) <= 64,
{
    if exists|i: int|
        0 <= i < plots.len() && (#[trigger] plots[i]).pos.x == x && plots[i].pos.y == y {
        let i = choose|i: int|
            0 <= i < plots.len() && (#[trigger] plots[i]).pos.x == x && plots[i].pos.y == y;
        lemma_local_one(plots, i, t, plots.len());
        lemma_count_bounds(plots[i].cells, t);
    } else {
        lemma_local_none(plots, x, y, t, plots.len());
    }
}

/// What the first `n` parcels yield of `r` in one tick.
pub open spec fn world_yield_upto(plots: Seq<Plot>, r: Resource, n: nat) -> int
    decreases n,
{
    if n == 0 {
        0
    } else {
        world_yield_upto(plots, r, (n - 1) as nat) + parcel_yield(census(plots[n - 1].cells), r)
    }
}

/// Whether a building of one of the first `n` parcels lists `r` in its
/// output.
pub open spec fn world_yields_upto(plots: Seq<Plot>, r: Resource, n: nat) -> bool
    decreases n,
{
    n > 0 && (world_yields_upto(plots, r, (n - 1) as nat) || parcel_yields(
        census(plots[n - 1].cells),
        r,
    ))
}

/// What all parcels yield of `r` in one tick.
pub open spec fn world_yield(plots: Seq<Plot>, r: Resource) -> int {
    world_yield_upto(plots, r, plots.len())
}

/// Whether some building of the world lists `r` in its output.
pub open spec fn world_yields(plots: Seq<Plot>, r: Resource) -> bool {
    world_yields_upto(plots, r, plots.len())
}

/// The storage capacity of a tick: the base and what all buildings yield of
/// `Storage`.
pub open spec fn storage_capacity(plots: Seq<Plot>) -> int {
    fill(BASE_STORAGE + world_yield(plots, Resource::Storage))
}

/// The cash capacity of a tick: what all buildings yield of `CashStorage`.
pub open spec fn cash_capacity(plots: Seq<Plot>) -> int {
    fill(world_yield(plots, Resource::CashStorage))
}

/// The ledger after the first `n` parcels have produced, with the given
/// capacities.
pub open spec fn ticked_upto(
    ledger: Map<Resource, int>,
    plots: Seq<Plot>,
    storage: int,
    cash_storage: int,
    n: nat,
) -> Map<Resource, int> {
    Map::total(
        |r: Resource|
            if world_yields_upto(plots, r, n) {
                capped(ledger[r], world_yield_upto(plots, r, n), limit(r, storage, cash_storage))
            } else {
                ledger[r]
            },
    )
}

/// The ledger after a production tick. The two capacities are taken from
/// all parcels first. Then each resource that some building yields is
/// credited what all buildings yield of it, but fills no further than its
/// capacity; a resource that no building yields is left as it is.
pub open spec fn ticked(ledger: Map<Resource, int>, plots: Seq<Plot>) -> Map<Resource, int> {
    ticked_upto(ledger, plots, storage_capacity(plots), cash_capacity(plots), plots.len())
}

/// The tally of one tick: what all parcels yield of each resource.
pub open spec fn tally_upto(plots: Seq<Plot>, n: nat) -> Map<Resource, int> {
    Map::total(|r: Resource| fill(world_yield_upto(plots, r, n)))
}

/// What the first `n` parcels yield is never negative, and is nothing where
/// none of them yields the resource.
pub proof fn lemma_world_yield(plots: Seq<Plot>, r: Resource, n: nat)
    requires
        whole(plots),
        n <= plots.len(),
    ensures
        0 <= world_yield_upto(plots, r, n),
        !world_yields_upto(plots, r, n) ==> world_yield_upto(plots, r, n) == 0,
    decreases n,
{
    if n > 0 {
        lemma_world_yield(plots, r, (n - 1) as nat);
        lemma_census_fits(plots[n - 1].cells);
        lemma_yield_upto(census(plots[n - 1].cells), r, 37);
    }
}

/// One more parcel that produces carries the ledger and the tally one
/// parcel further.
pub proof fn lemma_tick_step(
    ledger: Map<Resource, int>,
    plots: Seq<Plot>,
    storage: int,
    cash_storage: int,
    n: nat,
)
    requires
        whole(plots),
        n < plots.len(),
        crate::ledger::total(ledger),
        forall|r: Resource| ledger[r] >= i32::MIN,
    ensures
        produced(
            ticked_upto(ledger, plots, storage, cash_storage, n),
            census(plots[n as int].cells),
            storage,
            cash_storage,
        ) == ticked_upto(ledger, plots, storage, cash_storage, (n + 1) as nat),
        tallied(tally_upto(plots, n), census(plots[n as int].cells)) == tally_upto(
            plots,
            (n + 1) as nat,
        ),
{
    let counts = census(plots[n as int].cells);
    let before = ticked_upto(ledger, plots, storage, cash_storage, n);
    let after = ticked_upto(ledger, plots, storage, cash_storage, (n + 1) as nat);
    lemma_census_fits(plots[n as int].cells);
    assert forall|r: Resource| #[trigger]
        produced(before, counts, storage, cash_storage)[r] == after[r] by {
        lemma_world_yield(plots, r, n);
        lemma_yield_upto(counts, r, 37);
        lemma_capped_twice(
            ledger[r],
            world_yield_upto(plots, r, n),
            parcel_yield(counts, r),
            limit(r, storage, cash_storage),
        );
    }
    assert forall|r: Resource| #[trigger]
        tallied(tally_upto(plots, n), counts)[r] == tally_upto(plots, (n + 1) as nat)[r] by {
        lemma_world_yield(plots, r, n);
        lemma_yield_upto(counts, r, 37);
    }
    assert(produced(before, counts, storage, cash_storage) =~= after);
    assert(tallied(tally_upto(plots, n), counts) =~= tally_upto(plots, (n + 1) as nat));
}

/// Whether a building stands in some parcel whose output lists `r`.
pub open spec fn somewhere_yielded(plots: Seq<Plot>, r: Resource) -> bool {
    exists|i: int, t: BuildingType|
        0 <= i < plots.len() && #[trigger] kind_yields(census(plots[i].cells), t, r)
}

/// A resource is yielded in the world if and only if a building stands in
/// some parcel whose output lists it.
pub proof fn lemma_world_yields(plots: Seq<Plot>, r: Resource, n: nat)
    requires
        n <= plots.len(),
    ensures
        world_yields_upto(plots, r, n) <==> exists|i: int, t: BuildingType|
            0 <= i < n && #[trigger] kind_yields(census(plots[i].cells), t, r),
    decreases n,
{
    if n > 0 {
        lemma_world_yields(plots, r, (n - 1) as nat);
        let last = n - 1;
        let counts = census(plots[last].cells);
        lemma_parcel_yields(counts, r);
        if world_yields_upto(plots, r, n) {
            if parcel_yields(counts, r) {
                let t = choose|t: BuildingType| kind_yields(counts, t, r);
                assert(kind_yields(census(plots[last].cells), t, r));
            } else {
                let (i, t) = choose|i: int, t: BuildingType|
                    0 <= i < n - 1 && #[trigger] kind_yields(census(plots[i].cells), t, r);
                assert(kind_yields(census(plots[i].cells), t, r));
            }
        }
        if exists|i: int, t: BuildingType|
            0 <= i < n && #[trigger] kind_yields(census(plots[i].cells), t, r) {
            let (i, t) = choose|i: int, t: BuildingType|
                0 <= i < n && #[trigger] kind_yields(census(plots[i].cells), t, r);
            if i < n - 1 {
                assert(kind_yields(census(plots[i].cells), t, r));
            }
        }
    }
}

/// A tick leaves no more `Storage` in the ledger than the storage capacity
/// that it computed, provided that the ledger held no more before or that
/// some building yields `Storage`. (Where neither holds, the tick does not
/// touch the quantity, and it stays above the capacity.)
pub proof fn lemma_tick_keeps_storage_capacity(ledger: Map<Resource, int>, plots: Seq<Plot>)
    requires
        whole(plots),
        ledger[Resource::Storage] >= i32::MIN,
        ledger[Resource::Storage] <= storage_capacity(plots) || somewhere_yielded(
            plots,
            Resource::Storage,
        ),
    ensures
        ticked(ledger, plots)[Resource::Storage] <= storage_capacity(plots),
{
    lemma_world_yield(plots, Resource::Storage, plots.len());
    lemma_world_yields(plots, Resource::Storage, plots.len());
}

/// A tick leaves no resource above its capacity that was not above it
/// before, and takes nothing away from a resource below its capacity.
pub proof fn lemma_tick_bounds(ledger: Map<Resource, int>, plots: Seq<Plot>, r: Resource)
    requires
        whole(plots),
        ledger[r] >= i32::MIN,
    ensures
        ticked(ledger, plots)[r] > ledger[r] ==> ticked(ledger, plots)[r] <= limit(
            r,
            storage_capacity(plots),
            cash_capacity(plots),
        ),
        ledger[r] <= limit(r, storage_capacity(plots), cash_capacity(plots)) ==> ticked(
            ledger,
            plots,
        )[r] >= ledger[r],
        ledger[r] >= 0 ==> ticked(ledger, plots)[r] >= 0,
{
    lemma_world_yield(plots, r, plots.len());
    lemma_world_yield(plots, Resource::Storage, plots.len());
    lemma_world_yield(plots, Resource::CashStorage, plots.len());
}

} // verus!
