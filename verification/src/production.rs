//! What a parcel yields in one production tick, and what a tick makes of a
//! ledger, stated over plain values.

use vstd::prelude::*;

use crate::building::{amount_in, lemma_outputs, mentions, Amounts, BuildingType, Resource};
use crate::grid::{count, lemma_count_bounds};
use crate::ledger::{capped, lemma_amount_in_bounds, limit};

verus! {

/// The capacity that is there with no building at all.
pub const BASE_STORAGE: i32 = 100;

/// For every kind, how many of `cells` hold it.
pub open spec fn census(cells: Seq<BuildingType>) -> Map<BuildingType, int> {
    Map::total(|t: BuildingType| count(cells, t))
}

/// What the buildings of kind `t` yield of `r` in one tick: the amount that
/// one of them yields, times how many there are.
pub open spec fn kind_yield(counts: Map<BuildingType, int>, t: BuildingType, r: Resource) -> int {
    if counts[t] > 0 {
        counts[t] * amount_in(t.output_spec(), r)
    } else {
        0
    }
}

/// Whether a building of kind `t` is there and its output lists `r`.
pub open spec fn kind_yields(counts: Map<BuildingType, int>, t: BuildingType, r: Resource) -> bool {
    counts[t] > 0 && mentions(t.output_spec(), r)
}

/// What the buildings of the first `n` kinds yield of `r` in one tick.
pub open spec fn yield_upto(counts: Map<BuildingType, int>, r: Resource, n: nat) -> int
    decreases n,
{
    if n == 0 {
        0
    } else {
        yield_upto(counts, r, (n - 1) as nat) + kind_yield(
            counts,
            BuildingType::all_spec()[n - 1],
            r,
        )
    }
}

/// Whether a building of one of the first `n` kinds is there whose output
/// lists `r`.
pub open spec fn yields_upto(counts: Map<BuildingType, int>, r: Resource, n: nat) -> bool
    decreases n,
{
    n > 0 && (yields_upto(counts, r, (n - 1) as nat) || kind_yields(
        counts,
        BuildingType::all_spec()[n - 1],
        r,
    ))
}

/// What all the buildings counted yield of `r` in one tick.
pub open spec fn parcel_yield(counts: Map<BuildingType, int>, r: Resource) -> int {
    yield_upto(counts, r, 37)
}

/// Whether some building counted lists `r` in its output.
pub open spec fn parcel_yields(counts: Map<BuildingType, int>, r: Resource) -> bool {
    yields_upto(counts, r, 37)
}

/// A quantity as an `i32` holds it: what lies above its range is cut off.
pub open spec fn fill(v: int) -> int {
    if v > i32::MAX {
        i32::MAX as int
    } else {
        v
    }
}

/// The ledger after the buildings of the first `n` kinds have produced:
/// each resource that one of them lists is credited what they yield of it,
/// stopping at its capacity; the others are untouched.
pub open spec fn produced_upto(
    ledger: Map<Resource, int>,
    counts: Map<BuildingType, int>,
    storage: int,
    cash_storage: int,
    n: nat,
) -> Map<Resource, int> {
    Map::total(
        |r: Resource|
            if yields_upto(counts, r, n) {
                capped(ledger[r], yield_upto(counts, r, n), limit(r, storage, cash_storage))
            } else {
                ledger[r]
            },
    )
}

/// The ledger after a parcel with these counts has produced for one tick.
pub open spec fn produced(
    ledger: Map<Resource, int>,
    counts: Map<BuildingType, int>,
    storage: int,
    cash_storage: int,
) -> Map<Resource, int> {
    produced_upto(ledger, counts, storage, cash_storage, 37)
}

/// The tally of what was produced, after the buildings of the first `n`
/// kinds are added to it.
pub open spec fn tallied_upto(
    tally: Map<Resource, int>,
    counts: Map<BuildingType, int>,
    n: nat,
) -> Map<Resource, int> {
    Map::total(|r: Resource| fill(tally[r] + yield_upto(counts, r, n)))
}

/// The tally of what was produced, after a parcel with these counts is added
/// to it.
pub open spec fn tallied(tally: Map<Resource, int>, counts: Map<BuildingType, int>) -> Map<
    Resource,
    int,
> {
    tallied_upto(tally, counts, 37)
}

/// Whether the counts are those of some 64 cells at most: none is negative,
/// none is above 64.
pub open spec fn counts_fit(counts: Map<BuildingType, int>) -> bool {
    forall|t: BuildingType| 0 <= #[trigger] counts[t] <= 64
}

/// The counts of a parcel's cells fit.
pub proof fn lemma_census_fits(cells: Seq<BuildingType>)
    requires
        cells.len() == 64,
    ensures
        counts_fit(census(cells)),
{
    assert forall|t: BuildingType| 0 <= #[trigger] census(cells)[t] <= 64 by {
        lemma_count_bounds(cells, t);
    }
}

/// What one kind yields is never negative, is at most 64 times the largest
/// output, and is nothing where the kind does not yield the resource.
pub proof fn lemma_kind_yield(counts: Map<BuildingType, int>, t: BuildingType, r: Resource)
    requires
        counts_fit(counts),
    ensures
        0 <= kind_yield(counts, t, r) <= 64000,
        !kind_yields(counts, t, r) ==> kind_yield(counts, t, r) == 0,
        0 <= amount_in(t.output_spec(), r) <= 1000,
{
    lemma_outputs(t);
    lemma_amount_in_bounds(t.output_spec(), r);
    let a = amount_in(t.output_spec(), r);
    let c = counts[t];
    assert(0 <= c <= 64);
    if mentions(t.output_spec(), r) {
        let j = choose|j: int|
            0 <= j < t.output_spec().len() && (#[trigger] t.output_spec()[j]).0 == r;
        crate::ledger::lemma_amount_in_plain(t.output_spec(), j);
    }
    assert(0 <= a <= 1000);
    assert(0 <= c * a <= 64000) by (nonlinear_arith)
        requires
            0 <= c <= 64,
            0 <= a <= 1000,
    ;
}

/// What the first `n` kinds yield is never negative, and is nothing where
/// none of them yields the resource.
pub proof fn lemma_yield_upto(counts: Map<BuildingType, int>, r: Resource, n: nat)
    requires
        counts_fit(counts),
        n <= 37,
    ensures
        0 <= yield_upto(counts, r, n) <= 64000 * n,
        !yields_upto(counts, r, n) ==> yield_upto(counts, r, n) == 0,
    decreases n,
{
    if n > 0 {
        lemma_yield_upto(counts, r, (n - 1) as nat);
        lemma_kind_yield(counts, BuildingType::all_spec()[n - 1], r);
    }
}

/// A resource is yielded if and only if a building is there whose output
/// lists it.
pub proof fn lemma_parcel_yields(counts: Map<BuildingType, int>, r: Resource)
    ensures
        parcel_yields(counts, r) <==> exists|t: BuildingType| kind_yields(counts, t, r),
{
    lemma_yields_upto_exists(counts, r, 37);
    if exists|t: BuildingType| kind_yields(counts, t, r) {
        let t = choose|t: BuildingType| kind_yields(counts, t, r);
        t.lemma_all();
    }
}

/// `yields_upto` holds if and only if one of the first `n` kinds yields.
pub proof fn lemma_yields_upto_exists(counts: Map<BuildingType, int>, r: Resource, n: nat)
    requires
        n <= 37,
    ensures
        yields_upto(counts, r, n) <==> exists|k: int|
            0 <= k < n && kind_yields(counts, #[trigger] BuildingType::all_spec()[k], r),
    decreases n,
{
    if n > 0 {
        lemma_yields_upto_exists(counts, r, (n - 1) as nat);
        if yields_upto(counts, r, n) {
            if kind_yields(counts, BuildingType::all_spec()[n - 1], r) {
            } else {
                let k = choose|k: int|
                    0 <= k < n - 1 && kind_yields(
                        counts,
                        #[trigger] BuildingType::all_spec()[k],
                        r,
                    );
                assert(kind_yields(counts, BuildingType::all_spec()[k], r));
            }
        }
    }
}

/// Two credits that stop at one capacity are one credit of their sum.
pub proof fn lemma_capped_twice(held: int, first: int, second: int, cap: int)
    requires
        held >= i32::MIN,
        first >= 0,
        second >= 0,
    ensures
        capped(capped(held, first, cap), second, cap) == capped(held, first + second, cap),
        capped(held, first, cap) >= i32::MIN,
        capped(held, first, cap) <= cap || capped(held, first, cap) == i32::MIN,
{
}

/// What one more entry adds to a list of amounts.
pub proof fn lemma_amounts_push(list: Amounts, entry: (Resource, i32), r: Resource)
    ensures
        amount_in(list.push(entry), r) == amount_in(list, r) + (if entry.0 == r {
            entry.1 as int
        } else {
            0int
        }),
        mentions(list.push(entry), r) <==> mentions(list, r) || entry.0 == r,
{
    let longer = list.push(entry);
    assert(longer.drop_last() =~= list);
    assert(longer.last() == entry);
    if mentions(list, r) {
        let i = choose|i: int| 0 <= i < list.len() && (#[trigger] list[i]).0 == r;
        assert(longer[i].0 == r);
    }
    if entry.0 == r {
        assert(longer[list.len() as int].0 == r);
    }
    if mentions(longer, r) && entry.0 != r {
        let i = choose|i: int| 0 <= i < longer.len() && (#[trigger] longer[i]).0 == r;
        assert(list[i].0 == r);
    }
}

/// The ledger while the buildings of one more kind produce: those of the
/// first `n` kinds have produced, and of the next kind, of which there are
/// `c`, the entries `part` of its output are dealt with.
pub open spec fn produced_partly(
    ledger: Map<Resource, int>,
    counts: Map<BuildingType, int>,
    storage: int,
    cash_storage: int,
    n: nat,
    part: Amounts,
    c: int,
) -> Map<Resource, int> {
    Map::total(
        |r: Resource|
            if yields_upto(counts, r, n) || mentions(part, r) {
                capped(
                    ledger[r],
                    yield_upto(counts, r, n) + c * amount_in(part, r),
                    limit(r, storage, cash_storage),
                )
            } else {
                ledger[r]
            },
    )
}

/// The tally while the buildings of one more kind are added to it.
pub open spec fn tallied_partly(
    tally: Map<Resource, int>,
    counts: Map<BuildingType, int>,
    n: nat,
    part: Amounts,
    c: int,
) -> Map<Resource, int> {
    Map::total(|r: Resource| fill(tally[r] + yield_upto(counts, r, n) + c * amount_in(part, r)))
}

/// One more entry of the output of a kind: crediting what its buildings
/// yield of it carries the ledger and the tally one entry further.
pub proof fn lemma_produce_entry(
    ledger: Map<Resource, int>,
    tally: Map<Resource, int>,
    counts: Map<BuildingType, int>,
    storage: int,
    cash_storage: int,
    n: nat,
    part: Amounts,
    c: int,
    entry: (Resource, i32),
)
    requires
        counts_fit(counts),
        n < 37,
        0 < c <= 64,
        0 <= entry.1 <= 1000,
        crate::building::no_negative(part),
        forall|r: Resource| ledger[r] >= i32::MIN,
    ensures
        produced_partly(ledger, counts, storage, cash_storage, n, part, c).insert(
            entry.0,
            capped(
                produced_partly(ledger, counts, storage, cash_storage, n, part, c)[entry.0],
                entry.1 * c,
                limit(entry.0, storage, cash_storage),
            ),
        ) == produced_partly(ledger, counts, storage, cash_storage, n, part.push(entry), c),
        tallied_partly(tally, counts, n, part, c).insert(
            entry.0,
            fill(tallied_partly(tally, counts, n, part, c)[entry.0] + entry.1 * c),
        ) == tallied_partly(tally, counts, n, part.push(entry), c),
        0 <= entry.1 * c <= 64000,
{
    let before = produced_partly(ledger, counts, storage, cash_storage, n, part, c);
    let after = produced_partly(ledger, counts, storage, cash_storage, n, part.push(entry), c);
    let gain = entry.1 * c;
    assert(0 <= gain <= 64000) by (nonlinear_arith)
        requires
            gain == entry.1 * c,
            0 < c <= 64,
            0 <= entry.1 <= 1000,
    ;
    assert forall|r: Resource|
        c * amount_in(part.push(entry), r) == c * amount_in(part, r) + (if entry.0 == r {
            gain
        } else {
            0int
        }) && c * amount_in(part, r) >= 0 && (!mentions(part, r) ==> amount_in(part, r) == 0)
        && yield_upto(counts, r, n) >= 0 && (!yields_upto(counts, r, n) ==> yield_upto(
            counts,
            r,
            n,
        ) == 0) && (mentions(part.push(entry), r) <==> mentions(part, r) || entry.0 == r) by {
        lemma_amounts_push(part, entry, r);
        lemma_amount_in_bounds(part, r);
        lemma_yield_upto(counts, r, n);
        let a = amount_in(part, r);
        let e = entry.1 as int;
        assert(c * (a + e) == c * a + e * c && c * (a + 0) == c * a && c * a >= 0)
            by (nonlinear_arith)
            requires
                c > 0,
                a >= 0,
        ;
    }
    let cap = limit(entry.0, storage, cash_storage);
    lemma_capped_twice(
        ledger[entry.0],
        yield_upto(counts, entry.0, n) + c * amount_in(part, entry.0),
        gain,
        cap,
    );
    assert(before.insert(entry.0, capped(before[entry.0], gain, cap)) =~= after);
    let was = tallied_partly(tally, counts, n, part, c);
    assert(was.insert(entry.0, fill(was[entry.0] + gain)) =~= tallied_partly(
        tally,
        counts,
        n,
        part.push(entry),
        c,
    ));
}

/// Where the buildings of the first `n` kinds have produced, those of the
/// next kind begin with no entry dealt with and end with all of them.
pub proof fn lemma_produce_kind(
    ledger: Map<Resource, int>,
    tally: Map<Resource, int>,
    counts: Map<BuildingType, int>,
    storage: int,
    cash_storage: int,
    n: nat,
)
    requires
        n < 37,
    ensures
        produced_partly(
            ledger,
            counts,
            storage,
            cash_storage,
            n,
            Seq::empty(),
            counts[BuildingType::all_spec()[n as int]],
        ) == produced_upto(ledger, counts, storage, cash_storage, n),
        tallied_partly(tally, counts, n, Seq::empty(), counts[BuildingType::all_spec()[n as int]])
            == tallied_upto(tally, counts, n),
        counts[BuildingType::all_spec()[n as int]] > 0 ==> produced_partly(
            ledger,
            counts,
            storage,
            cash_storage,
            n,
            BuildingType::all_spec()[n as int].output_spec(),
            counts[BuildingType::all_spec()[n as int]],
        ) == produced_upto(ledger, counts, storage, cash_storage, (n + 1) as nat)
            && tallied_partly(
            tally,
            counts,
            n,
            BuildingType::all_spec()[n as int].output_spec(),
            counts[BuildingType::all_spec()[n as int]],
        ) == tallied_upto(tally, counts, (n + 1) as nat),
        counts[BuildingType::all_spec()[n as int]] <= 0 ==> produced_upto(
            ledger,
            counts,
            storage,
            cash_storage,
            n,
        ) == produced_upto(ledger, counts, storage, cash_storage, (n + 1) as nat) && tallied_upto(
            tally,
            counts,
            n,
        ) == tallied_upto(tally, counts, (n + 1) as nat),
{
    let t = BuildingType::all_spec()[n as int];
    let c = counts[t];
    let none = Seq::<(Resource, i32)>::empty();
    assert forall|r: Resource| !mentions(none, r) && c * amount_in(none, r) == 0 by {
        assert(c * 0 == 0) by (nonlinear_arith);
    }
    assert(produced_partly(ledger, counts, storage, cash_storage, n, none, c) =~= produced_upto(
        ledger,
        counts,
        storage,
        cash_storage,
        n,
    ));
    assert(tallied_partly(tally, counts, n, none, c) =~= tallied_upto(tally, counts, n));
    if c > 0 {
        assert(produced_partly(ledger, counts, storage, cash_storage, n, t.output_spec(), c)
            =~= produced_upto(ledger, counts, storage, cash_storage, (n + 1) as nat));
        assert(tallied_partly(tally, counts, n, t.output_spec(), c) =~= tallied_upto(
            tally,
            counts,
            (n + 1) as nat,
        ));
    } else {
        assert(produced_upto(ledger, counts, storage, cash_storage, n) =~= produced_upto(
            ledger,
            counts,
            storage,
            cash_storage,
            (n + 1) as nat,
        ));
        assert(tallied_upto(tally, counts, n) =~= tallied_upto(tally, counts, (n + 1) as nat));
    }
}

} // verus!
