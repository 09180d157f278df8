//! The world: the parcels that are owned, the positions that can be bought
//! next, the ledger and the stages.

use vstd::prelude::*;

use crate::building::{Building, BuildingType, Resource};
use crate::census::Counts;
use crate::grid::{applied, applied_all, count, plans_upto, Estate};
use crate::ledger::{affordable, non_negative, room, Ledger};
use crate::pos::{adjoins, adjoins_at, price, Pos};
use crate::production::{fill, BASE_STORAGE};
use crate::realm::{
    around, cash_capacity, distinct, frontier_of, lemma_around_elsewhere, lemma_local_bounds,
    lemma_local_none, lemma_local_one, lemma_tick_bounds, lemma_tick_keeps_storage_capacity,
    lemma_tick_step,
    lemma_world_yield, local, near, on_frontier, owned, somewhere_yielded, storage_capacity,
    tally_upto, ticked, ticked_upto, whole, world_yield_upto, Plot,
};
use crate::stage::{stage_buildings, stage_description, stage_title, stage_unlock_at, Stage};
use crate::tile::{Tile, TileView};

verus! {

/// The parcels as the world's rules see them.
pub open spec fn plots_of(tiles: Seq<Tile>) -> Seq<Plot> {
    Seq::new(tiles.len(), |i: int| Plot { pos: tiles[i]@.pos, cells: tiles[i]@.cells })
}

/// Every parcel has its 64 cells.
pub proof fn lemma_plots_whole(tiles: Seq<Tile>)
    ensures
        whole(plots_of(tiles)),
{
    assert forall|i: int| 0 <= i < plots_of(tiles).len() implies (#[trigger] plots_of(
        tiles,
    )[i]).cells.len() == 64 by {
        tiles[i].lemma_whole();
    }
}

/// Whether every parcel keeps exact counts and no two parcels lie at one
/// position.
pub open spec fn sound(tiles: Seq<Tile>) -> bool {
    &&& forall|i: int| 0 <= i < tiles.len() ==> (#[trigger] tiles[i]).wf()
    &&& distinct(plots_of(tiles))
}

/// Whether parcel `i` has stored, for every kind, what it and its four
/// neighbors hold of it.
pub open spec fn sees_around(tiles: Seq<Tile>, i: int) -> bool {
    forall|t: BuildingType|
        tiles[i]@.neighbor_counts[t] == around(plots_of(tiles), tiles[i]@.pos, t)
}

/// Whether the parcels and the frontier kept with them are consistent: the
/// parcels are sound, the frontier is theirs, and every parcel has stored
/// what stands around it.
pub open spec fn consistent(tiles: Seq<Tile>, frontier: Seq<Pos>) -> bool {
    &&& sound(tiles)
    &&& frontier_of(plots_of(tiles), frontier)
    &&& forall|i: int| 0 <= i < tiles.len() ==> #[trigger] sees_around(tiles, i)
}

/// What a parcel has stored of its neighborhood stays exact where neither
/// the parcel nor the land of the world changes.
pub proof fn lemma_still_sees(before: Seq<Tile>, after: Seq<Tile>, i: int)
    requires
        0 <= i < before.len(),
        after.len() == before.len(),
        plots_of(after) == plots_of(before),
        after[i]@.pos == before[i]@.pos,
        after[i]@.neighbor_counts == before[i]@.neighbor_counts,
        sees_around(before, i),
    ensures
        sees_around(after, i),
{
    assert forall|t: BuildingType|
        after[i]@.neighbor_counts[t] == around(plots_of(after), after[i]@.pos, t) by {
        assert(before[i]@.neighbor_counts[t] == around(plots_of(before), before[i]@.pos, t));
    }
}

/// A change to the cells of one parcel leaves the frontier what it was, and
/// is seen by that parcel and its neighbors alone.
pub proof fn lemma_edited(before: Seq<Tile>, after: Seq<Tile>, frontier: Seq<Pos>, at: int)
    requires
        consistent(before, frontier),
        0 <= at < before.len(),
        after.len() == before.len(),
        forall|i: int| 0 <= i < before.len() && i != at ==> after[i] == before[i],
        after[at].wf(),
        after[at]@.pos == before[at]@.pos,
        after[at]@.neighbor_counts == before[at]@.neighbor_counts,
    ensures
        sound(after),
        frontier_of(plots_of(after), frontier),
        forall|i: int|
            0 <= i < after.len() && !near(before[at]@.pos, (#[trigger] after[i])@.pos)
                ==> sees_around(after, i),
{
    let old_plots = plots_of(before);
    let edited = plots_of(after);
    let c = before[at]@.pos;
    assert forall|i: int| 0 <= i < edited.len() implies (#[trigger] edited[i]).pos == (
    #[trigger] old_plots[i]).pos by {}
    assert forall|i: int| 0 <= i < edited.len() && (#[trigger] old_plots[i]).pos
        != c implies old_plots[i] == edited[i] by {
        assert(i != at);
    }
    assert forall|i: int, j: int| 0 <= i < j < edited.len() implies (#[trigger] edited[i]).pos != (
    #[trigger] edited[j]).pos by {
        assert(old_plots[i].pos != old_plots[j].pos);
    }
    assert forall|i: int| 0 <= i < after.len() implies (#[trigger] after[i]).wf() by {
        if i != at {
            assert(before[i].wf());
        }
    }
    assert forall|q: Pos| owned(edited, q) == owned(old_plots, q) by {
        if owned(edited, q) {
            let k = choose|k: int| 0 <= k < edited.len() && (#[trigger] edited[k]).pos == q;
            assert(old_plots[k].pos == q);
        }
        if owned(old_plots, q) {
            let k = choose|k: int| 0 <= k < edited.len() && (#[trigger] old_plots[k]).pos == q;
            assert(edited[k].pos == q);
        }
    }
    assert forall|q: Pos| on_frontier(edited, q) == on_frontier(old_plots, q) by {
        if on_frontier(edited, q) {
            let k = choose|k: int| 0 <= k < edited.len() && adjoins((#[trigger] edited[k]).pos, q);
            assert(adjoins(old_plots[k].pos, q));
        }
        if on_frontier(old_plots, q) {
            let k = choose|k: int|
                0 <= k < edited.len() && adjoins((#[trigger] old_plots[k]).pos, q);
            assert(adjoins(edited[k].pos, q));
        }
    }
    assert forall|i: int|
        0 <= i < after.len() && !near(c, (#[trigger] after[i])@.pos) implies sees_around(
        after,
        i,
    ) by {
        assert(i != at);
        assert(sees_around(before, i));
        assert forall|t: BuildingType|
            after[i]@.neighbor_counts[t] == around(edited, after[i]@.pos, t) by {
            lemma_around_elsewhere(old_plots, edited, c, after[i]@.pos, t);
        }
    }
}

/// All the state of one game.
pub struct Data {
    pub name: String,
    tiles: Vec<Tile>,
    new_pos: Vec<Pos>,
    pub resources: Ledger,
    pub stage: [Stage; 6],
}

/// What a game is, as plain mathematical values.
pub struct DataView {
    pub name: Seq<char>,
    pub parcels: Seq<Tile>,
    pub frontier: Seq<Pos>,
    pub resources: Map<Resource, int>,
    pub stage: Seq<Stage>,
}

impl View for Data {
    type V = DataView;

    closed spec fn view(&self) -> DataView {
        DataView {
            name: self.name@,
            parcels: self.tiles@,
            frontier: self.new_pos@,
            resources: self.resources@,
            stage: self.stage@,
        }
    }
}

/// Whether `q` occurs in `list`.
fn pos_in(list: &Vec<Pos>, q: Pos) -> (found: bool)
    ensures
        found == list@.contains(q),
{
    let mut i: usize = 0;
    while i < list.len()
        invariant
            i <= list.len(),
            forall|j: int| 0 <= j < i ==> list@[j] != q,
        decreases list.len() - i,
    {
        if list[i] == q {
            return true;
        }
        i = i + 1;
    }
    false
}

impl Data {
    /// The parcels that are owned, in the order in which they came.
    pub open spec fn parcels(&self) -> Seq<Tile> {
        self@.parcels
    }

    /// The positions that can be bought next.
    pub open spec fn frontier(&self) -> Seq<Pos> {
        self@.frontier
    }

    /// The parcels as the world's rules see them.
    pub open spec fn plots(&self) -> Seq<Plot> {
        plots_of(self.parcels())
    }

    /// Whether every parcel keeps exact counts and no two parcels lie at one
    /// position.
    pub open spec fn sound(&self) -> bool {
        sound(self.parcels())
    }

    /// Whether parcel `i` has stored, for every kind, what it and its four
    /// neighbors hold of it.
    pub open spec fn sees_around(&self, i: int) -> bool {
        sees_around(self.parcels(), i)
    }

    /// Whether the world is consistent: it is sound, the frontier that it
    /// keeps is the frontier of its parcels, and every parcel has stored
    /// what stands around it.
    pub open spec fn wf(&self) -> bool {
        consistent(self.parcels(), self.frontier())
    }

    /// The index of the parcel at `p`, if one lies there.
    fn find(&self, p: Pos) -> (found: Option<usize>)
        ensures
            match found {
                Some(i) => i < self.parcels().len() && self.parcels()[i as int]@.pos == p,
                None => !owned(self.plots(), p),
            },
    {
        let mut i: usize = 0;
        while i < self.tiles.len()
            invariant
                i <= self.tiles.len(),
                forall|j: int| 0 <= j < i ==> (#[trigger] self.plots()[j]).pos != p,
            decreases self.tiles.len() - i,
        {
            if self.tiles[i].pos() == p {
                return Some(i);
            }
            assert(self.plots()[i as int].pos != p);
            i = i + 1;
        }
        None
    }

    /// The parcels that are owned.
    pub fn tiles(&self) -> (list: &Vec<Tile>)
        ensures
            list@ == self.parcels(),
    {
        &self.tiles
    }

    /// The positions that can be bought next.
    pub fn new_pos(&self) -> (list: &Vec<Pos>)
        ensures
            list@ == self.frontier(),
    {
        &self.new_pos
    }

    /// The ledger of the world.
    pub fn ledger(&self) -> (ledger: &Ledger)
        ensures
            ledger@ == self@.resources,
    {
        &self.resources
    }

    /// Sets the quantity that the ledger of the world holds of `r`.
    pub fn set_resource(&mut self, r: Resource, amount: i32)
        ensures
            final(self)@ == (DataView {
                resources: old(self)@.resources.insert(r, amount as int),
                ..old(self)@
            }),
    {
        self.resources.insert(r, amount);
    }

    /// The stages of the world, the first stage first.
    pub fn stages(&self) -> (stages: &[Stage; 6])
        ensures
            stages@ == self@.stage,
    {
        &self.stage
    }

    /// Unlocks the stage at place `k` whatever the ledger holds, and says
    /// whether there is such a stage. The first stage stands at place 0.
    pub fn unlock_early(&mut self, k: i32) -> (done: bool)
        ensures
            done == (0 <= k < 6),
            final(self)@ == (DataView {
                stage: if done {
                    old(self)@.stage.update(
                        k as int,
                        Stage { enabled: true, ..old(self)@.stage[k as int] },
                    )
                } else {
                    old(self)@.stage
                },
                ..old(self)@
            }),
    {
        if 0 <= k && k < 6 {
            self.stage[k as usize].force_unlock();
            assert(self@.stage =~= old(self)@.stage.update(
                k as int,
                Stage { enabled: true, ..old(self)@.stage[k as int] },
            ));
            true
        } else {
            false
        }
    }

    /// The parcel at `p`, if one lies there.
    pub fn tile_at(&self, p: Pos) -> (tile: Option<&Tile>)
        ensures
            tile.is_some() == owned(self.plots(), p),
            tile.is_some() ==> tile.unwrap()@.pos == p && self.parcels().contains(*tile.unwrap()),
    {
        match self.find(p) {
            Some(i) => {
                assert(self.plots()[i as int].pos == p);
                assert(self.parcels()[i as int] == self.tiles[i as int]);
                Some(&self.tiles[i])
            },
            None => None,
        }
    }

    /// Puts `(x, y)` on `list` if it is a position that can be bought and is
    /// not on the list yet. `from` is a parcel next to it.
    fn offer(&self, list: &mut Vec<Pos>, from: usize, x: i64, y: i64)
        requires
            from < self.parcels().len(),
            adjoins_at(self.parcels()[from as int]@.pos, x as int, y as int),
            old(list)@.no_duplicates(),
            forall|q: Pos| old(list)@.contains(q) ==> on_frontier(self.plots(), q),
        ensures
            final(list)@.no_duplicates(),
            forall|q: Pos| final(list)@.contains(q) ==> on_frontier(self.plots(), q),
            forall|q: Pos| old(list)@.contains(q) ==> final(list)@.contains(q),
            forall|q: Pos|
                q.x == x && q.y == y && !owned(self.plots(), q) ==> final(list)@.contains(q),
    {
        if x < i32::MIN as i64 || x > i32::MAX as i64 || y < i32::MIN as i64 || y > i32::MAX as i64 {
            return ;
        }
        let q = Pos { x: x as i32, y: y as i32 };
        match self.find(q) {
            Some(at) => {
                assert(self.plots()[at as int].pos == q);
                return ;
            },
            None => {},
        }
        if pos_in(list, q) {
            return ;
        }
        list.push(q);
        proof {
            assert(adjoins(self.plots()[from as int].pos, q));
            assert(final(list)@[final(list)@.len() - 1] == q);
            assert forall|p: Pos| final(list)@.contains(p) implies on_frontier(self.plots(), p) by {
                let k = choose|k: int| 0 <= k < final(list)@.len() && final(list)@[k] == p;
                if k < old(list)@.len() {
                    assert(old(list)@[k] == p);
                }
            }
            assert forall|p: Pos| old(list)@.contains(p) implies final(list)@.contains(p) by {
                let k = choose|k: int| 0 <= k < old(list)@.len() && old(list)@[k] == p;
                assert(final(list)@[k] == p);
            }
        }
    }

    /// Works out anew which positions can be bought: those next to a parcel
    /// where no parcel lies.
    pub fn update_new_pos(&mut self)
        ensures
            frontier_of(final(self).plots(), final(self).frontier()),
            final(self)@ == (DataView { frontier: final(self)@.frontier, ..old(self)@ }),
    {
        let mut list: Vec<Pos> = Vec::new();
        let mut i: usize = 0;
        while i < self.tiles.len()
            invariant
                i <= self.tiles.len(),
                *self == *old(self),
                list@.no_duplicates(),
                forall|q: Pos| list@.contains(q) ==> on_frontier(self.plots(), q),
                forall|k: int, q: Pos|
                    0 <= k < i && adjoins((#[trigger] self.plots()[k]).pos, q) && !owned(
                        self.plots(),
                        q,
                    ) ==> #[trigger] list@.contains(q),
            decreases self.tiles.len() - i,
        {
            let p = self.tiles[i].pos();
            let x = p.x as i64;
            let y = p.y as i64;
            self.offer(&mut list, i, x - 1, y);
            self.offer(&mut list, i, x + 1, y);
            self.offer(&mut list, i, x, y - 1);
            self.offer(&mut list, i, x, y + 1);
            i = i + 1;
        }
        let ghost found = list@;
        let ghost plots = self.plots();
        self.new_pos = list;
        proof {
            assert(self.frontier() == found);
            assert(self.plots() == plots);
            assert forall|q: Pos| on_frontier(plots, q) implies found.contains(q) by {
                let k = choose|k: int|
                    0 <= k < plots.len() && adjoins((#[trigger] plots[k]).pos, q);
                assert(adjoins(plots[k].pos, q));
                assert(!owned(plots, q));
            }
        }
    }

    /// Adds to `into` what the parcel at `(x, y)` holds of every kind;
    /// nothing where no parcel lies.
    fn gather(&self, x: i64, y: i64, into: &mut Counts)
        requires
            self.sound(),
            forall|t: BuildingType| 0 <= #[trigger] old(into)@[t] <= 1000,
        ensures
            forall|t: BuildingType| #[trigger]
                final(into)@[t] == old(into)@[t] + local(self.plots(), x as int, y as int, t),
            forall|t: BuildingType| 0 <= #[trigger] local(self.plots(), x as int, y as int, t) <= 64,
    {
        proof {
            lemma_plots_whole(self.parcels());
            assert forall|t: BuildingType| 0 <= #[trigger] local(
                self.plots(),
                x as int,
                y as int,
                t,
            ) <= 64 by {
                lemma_local_bounds(self.plots(), x as int, y as int, t);
            }
        }
        if x < i32::MIN as i64 || x > i32::MAX as i64 || y < i32::MIN as i64 || y > i32::MAX as i64 {
            proof {
                assert forall|t: BuildingType| local(self.plots(), x as int, y as int, t) == 0 by {
                    lemma_local_none(self.plots(), x as int, y as int, t, self.plots().len());
                }
            }
            return ;
        }
        let p = Pos { x: x as i32, y: y as i32 };
        match self.find(p) {
            None => {
                proof {
                    assert forall|t: BuildingType|
                        local(self.plots(), x as int, y as int, t) == 0 by {
                        assert forall|i: int| 0 <= i < self.plots().len() implies !((
                        #[trigger] self.plots()[i]).pos.x == x && self.plots()[i].pos.y == y) by {
                            if self.plots()[i].pos.x == x && self.plots()[i].pos.y == y {
                                assert(self.plots()[i].pos == p);
                            }
                        }
                        lemma_local_none(self.plots(), x as int, y as int, t, self.plots().len());
                    }
                }
            },
            Some(i) => {
                let tile = &self.tiles[i];
                let kinds = BuildingType::all();
                let mut n: usize = 0;
                proof {
                    assert(self.parcels()[i as int].wf());
                    assert forall|t: BuildingType|
                        local(self.plots(), x as int, y as int, t) == count(tile@.cells, t) by {
                        assert(self.plots()[i as int].pos == p);
                        lemma_local_one(self.plots(), i as int, t, self.plots().len());
                    }
                }
                while n < 37
                    invariant
                        n <= 37,
                        tile.wf(),
                        kinds@ == BuildingType::all_spec(),
                        forall|t: BuildingType| 0 <= #[trigger] old(into)@[t] <= 1000,
                        forall|t: BuildingType| #[trigger]
                            into@[t] == old(into)@[t] + (if t.index_spec() < n {
                                count(tile@.cells, t)
                            } else {
                                0
                            }),
                    decreases 37 - n,
                {
                    let t = kinds[n];
                    let c = tile.count(t);
                    let was = into.get(t);
                    proof {
                        t.lemma_all();
                        assert forall|u: BuildingType| u.index_spec() == n implies u == t by {
                            u.lemma_all();
                        }
                    }
                    into.insert(t, was + c);
                    n = n + 1;
                }
                proof {
                    assert forall|t: BuildingType| #[trigger]
                        into@[t] == old(into)@[t] + local(self.plots(), x as int, y as int, t) by {
                        t.lemma_all();
                    }
                }
            },
        }
    }

    /// Stores in the parcel at `center` what it and its four neighbors hold
    /// of every kind. Where no parcel lies at `center`, nothing happens.
    fn store_around(&mut self, center: Pos)
        requires
            old(self).sound(),
        ensures
            final(self).sound(),
            final(self)@ == (DataView { parcels: final(self)@.parcels, ..old(self)@ }),
            final(self).plots() == old(self).plots(),
            final(self).parcels().len() == old(self).parcels().len(),
            forall|i: int|
                0 <= i < old(self).parcels().len() ==> if (#[trigger] old(self).parcels()[i])@.pos
                    == center {
                    final(self).parcels()[i]@ == (TileView {
                        neighbor_counts: final(self).parcels()[i]@.neighbor_counts,
                        ..old(self).parcels()[i]@
                    }) && final(self).sees_around(i)
                } else {
                    final(self).parcels()[i] == old(self).parcels()[i]
                },
    {
        match self.find(center) {
            None => {
                assert forall|i: int| 0 <= i < self.parcels().len() implies (
                #[trigger] self.parcels()[i])@.pos != center by {
                    assert(self.plots()[i].pos == self.parcels()[i]@.pos);
                }
            },
            Some(i) => {
                let mut counts = Counts::new();
                let x = center.x as i64;
                let y = center.y as i64;
                self.gather(x - 1, y, &mut counts);
                self.gather(x + 1, y, &mut counts);
                self.gather(x, y - 1, &mut counts);
                self.gather(x, y + 1, &mut counts);
                self.gather(x, y, &mut counts);
                self.tiles[i].set_neighbors_buildings(counts);
                proof {
                    assert(self.plots() =~= old(self).plots());
                    assert forall|j: int| 0 <= j < old(self).parcels().len() && j != i implies (
                    #[trigger] old(self).parcels()[j])@.pos != center by {
                        assert(old(self).plots()[j].pos != old(self).plots()[i as int].pos);
                    }
                }
            },
        }
    }

    /// Whether `after` is this world with nothing changed but what the
    /// parcels have stored of their neighborhoods.
    pub open spec fn same_but_stored(&self, after: &Data) -> bool {
        &&& after@ == (DataView { parcels: after@.parcels, ..self@ })
        &&& after.parcels().len() == self.parcels().len()
        &&& forall|i: int|
            0 <= i < self.parcels().len() ==> (#[trigger] after.parcels()[i])@ == (TileView {
                neighbor_counts: after.parcels()[i]@.neighbor_counts,
                ..self.parcels()[i]@
            })
    }

    /// Stores anew what the parcel at `(x, y)` sees around it.
    fn refresh_at(&mut self, x: i64, y: i64)
        requires
            old(self).sound(),
        ensures
            final(self).sound(),
            old(self).same_but_stored(final(self)),
            final(self).plots() == old(self).plots(),
            forall|i: int|
                0 <= i < old(self).parcels().len() && sees_around(old(self).parcels(), i)
                    ==> #[trigger] sees_around(final(self).parcels(), i),
            forall|i: int|
                0 <= i < old(self).parcels().len() && (#[trigger] old(self).parcels()[i])@.pos.x
                    == x && old(self).parcels()[i]@.pos.y == y ==> sees_around(
                    final(self).parcels(),
                    i,
                ),
    {
        if x < i32::MIN as i64 || x > i32::MAX as i64 || y < i32::MIN as i64 || y > i32::MAX as i64 {
            return ;
        }
        let p = Pos { x: x as i32, y: y as i32 };
        self.store_around(p);
        proof {
            assert(plots_of(self.parcels()) == plots_of(old(self).parcels()));
            assert forall|i: int|
                0 <= i < old(self).parcels().len() && sees_around(
                    old(self).parcels(),
                    i,
                ) implies #[trigger] sees_around(self.parcels(), i) by {
                if old(self).parcels()[i]@.pos == p {
                    assert(self.sees_around(i));
                } else {
                    assert(self.parcels()[i] == old(self).parcels()[i]);
                    lemma_still_sees(old(self).parcels(), self.parcels(), i);
                }
            }
            assert forall|i: int|
                0 <= i < old(self).parcels().len() && (#[trigger] old(self).parcels()[i])@.pos.x
                    == x && old(self).parcels()[i]@.pos.y == y implies sees_around(
                self.parcels(),
                i,
            ) by {
                assert(old(self).parcels()[i]@.pos == p);
                assert(self.sees_around(i));
            }
            assert forall|i: int| 0 <= i < old(self).parcels().len() implies (
            #[trigger] self.parcels()[i])@ == (TileView {
                neighbor_counts: self.parcels()[i]@.neighbor_counts,
                ..old(self).parcels()[i]@
            }) by {
                if old(self).parcels()[i]@.pos != p {
                    assert(self.parcels()[i] == old(self).parcels()[i]);
                }
            }
        }
    }

    /// Brings up to date what the parcel at `center` and its four neighbors
    /// have stored of their neighborhoods: each of the five, where a parcel
    /// lies there, stores what it and its own four neighbors hold of every
    /// kind. Nothing else changes, and a parcel that had stored what stands
    /// around it still has. So after a change to the cells of the parcel at
    /// `center`, or after a parcel was added there, the world is consistent
    /// again.
    pub fn add_buildings(&mut self, center: Pos)
        requires
            old(self).sound(),
        ensures
            final(self).sound(),
            old(self).same_but_stored(final(self)),
            final(self).plots() == old(self).plots(),
            forall|i: int|
                0 <= i < old(self).parcels().len() && near(
                    center,
                    (#[trigger] final(self).parcels()[i])@.pos,
                ) ==> sees_around(final(self).parcels(), i),
            forall|i: int|
                0 <= i < old(self).parcels().len() && sees_around(old(self).parcels(), i)
                    ==> #[trigger] sees_around(final(self).parcels(), i),
            frontier_of(old(self).plots(), old(self).frontier()) && (forall|i: int|
                0 <= i < old(self).parcels().len() && !near(
                    center,
                    (#[trigger] old(self).parcels()[i])@.pos,
                ) ==> sees_around(old(self).parcels(), i)) ==> final(self).wf(),
    {
        let x = center.x as i64;
        let y = center.y as i64;
        self.refresh_at(x - 1, y);
        let ghost first = self.parcels();
        self.refresh_at(x + 1, y);
        let ghost second = self.parcels();
        self.refresh_at(x, y - 1);
        let ghost third = self.parcels();
        self.refresh_at(x, y + 1);
        let ghost fourth = self.parcels();
        self.refresh_at(x, y);
        proof {
            assert forall|i: int| 0 <= i < old(self).parcels().len() implies (
            #[trigger] self.parcels()[i])@.pos == old(self).parcels()[i]@.pos && (sees_around(
                old(self).parcels(),
                i,
            ) ==> sees_around(self.parcels(), i)) && (near(center, self.parcels()[i]@.pos)
                ==> sees_around(self.parcels(), i)) by {
                let p = old(self).parcels()[i]@.pos;
                assert(first[i]@.pos == p && second[i]@.pos == p && third[i]@.pos == p
                    && fourth[i]@.pos == p && self.parcels()[i]@.pos == p);
                if sees_around(old(self).parcels(), i) {
                    assert(sees_around(first, i));
                }
                if sees_around(first, i) {
                    assert(sees_around(second, i));
                }
                if sees_around(second, i) {
                    assert(sees_around(third, i));
                }
                if sees_around(third, i) {
                    assert(sees_around(fourth, i));
                }
                if sees_around(fourth, i) {
                    assert(sees_around(self.parcels(), i));
                }
            }
            if frontier_of(old(self).plots(), old(self).frontier()) && (forall|i: int|
                0 <= i < old(self).parcels().len() && !near(
                    center,
                    (#[trigger] old(self).parcels()[i])@.pos,
                ) ==> sees_around(old(self).parcels(), i)) {
                assert forall|i: int| 0 <= i < self.parcels().len() implies #[trigger] sees_around(
                    self.parcels(),
                    i,
                ) by {
                    let p = old(self).parcels()[i]@.pos;
                    assert(self.parcels()[i]@.pos == p);
                    if near(center, p) {
                    } else {
                        assert(sees_around(old(self).parcels(), i));
                    }
                }
            }
        }
    }

    /// A new game: one empty parcel at the origin, just enough resources for
    /// a house and some crops, and the first stage unlocked.
    pub fn new(name: String) -> (d: Data)
        ensures
            d.wf(),
            d@.name == name@,
            d.parcels().len() == 1,
            d.parcels()[0]@.pos == (Pos { x: 0, y: 0 }),
            d.parcels()[0]@.cells == crate::tile::empty_cells(),
            d.parcels()[0]@.planned == Map::<Pos, BuildingType>::empty(),
            !d.parcels()[0]@.summary,
            forall|r: Resource|
                d@.resources[r] == (if r == Resource::Seed || r == Resource::Food || r
                    == Resource::Wood {
                    10int
                } else if r == Resource::Storage {
                    100int
                } else {
                    0int
                }),
            d@.stage.len() == 6,
            forall|k: int|
                0 <= k < 6 ==> {
                    &&& (#[trigger] d@.stage[k]).num == k + 1
                    &&& d@.stage[k].enabled == (k == 0)
                    &&& d@.stage[k].buildings@ == stage_buildings(k + 1)
                    &&& d@.stage[k].title@ == stage_title(k + 1)
                    &&& d@.stage[k].description@ == stage_description(k + 1)
                    &&& d@.stage[k].unlock_at@ == stage_unlock_at(k + 1)
                },
    {
        let mut resources = Ledger::new();
        resources.insert(Resource::Seed, 10);
        resources.insert(Resource::Food, 10);
        resources.insert(Resource::Wood, 10);
        resources.insert(Resource::Storage, 100);
        let mut tiles: Vec<Tile> = Vec::new();
        tiles.push(Tile::new(Pos { x: 0, y: 0 }));
        let mut d = Data {
            name,
            tiles,
            new_pos: Vec::new(),
            resources,
            stage: [
                Stage::new(1),
                Stage::new(2),
                Stage::new(3),
                Stage::new(4),
                Stage::new(5),
                Stage::new(6),
            ],
        };
        d.update_new_pos();
        d.add_buildings(Pos { x: 0, y: 0 });
        d
    }

    /// Whether the parcel at `pos` can be bought now: it lies on the
    /// frontier, and the ledger holds its price in `Tax`.
    pub open spec fn can_purchase(&self, pos: Pos) -> bool {
        on_frontier(self.plots(), pos) && price(pos.x as int, pos.y as int)
            <= self@.resources[Resource::Tax]
    }

    /// Buys the parcel at `pos`, and says whether it was bought. A position
    /// that is not on the frontier, or whose price the ledger does not hold
    /// in `Tax`, is not bought, and nothing changes. Otherwise the price is
    /// taken and a parcel of empty cells joins the world there.
    pub fn purchase(&mut self, pos: Pos) -> (bought: bool)
        requires
            old(self).wf(),
        ensures
            final(self).wf(),
            bought == old(self).can_purchase(pos),
            non_negative(old(self)@.resources) ==> non_negative(final(self)@.resources),
            !bought ==> final(self)@ == old(self)@,
            bought ==> {
                &&& final(self)@.name == old(self)@.name
                &&& final(self)@.stage == old(self)@.stage
                &&& final(self)@.resources == old(self)@.resources.insert(
                    Resource::Tax,
                    old(self)@.resources[Resource::Tax] - price(pos.x as int, pos.y as int),
                )
                &&& final(self).parcels().len() == old(self).parcels().len() + 1
                &&& final(self).plots() == old(self).plots().push(
                    Plot { pos, cells: crate::tile::empty_cells() },
                )
                &&& forall|i: int|
                    0 <= i < old(self).parcels().len() ==> (#[trigger] final(self).parcels()[i])@
                        == (TileView {
                        neighbor_counts: final(self).parcels()[i]@.neighbor_counts,
                        ..old(self).parcels()[i]@
                    })
                &&& final(self).parcels().last()@.planned == Map::<Pos, BuildingType>::empty()
                &&& !final(self).parcels().last()@.summary
            },
    {
        if !pos_in(&self.new_pos, pos) {
            return false;
        }
        let cost = match pos.cost() {
            Some(cost) => cost,
            None => {
                return false;
            },
        };
        let held = self.resources.get(Resource::Tax);
        if held < cost {
            return false;
        }
        proof {
            crate::pos::lemma_price_grows(0, 0, pos.x as int, pos.y as int);
        }
        self.resources.insert(Resource::Tax, held - cost);
        self.tiles.push(Tile::new(pos));
        let ghost grown = self.plots();
        proof {
            assert(grown =~= old(self).plots().push(
                Plot { pos, cells: crate::tile::empty_cells() },
            ));
            assert forall|i: int, j: int| 0 <= i < j < grown.len() implies (#[trigger] grown[i]).pos
                != (#[trigger] grown[j]).pos by {
                if j == grown.len() - 1 {
                    assert(old(self).plots()[i].pos == grown[i].pos);
                } else {
                    assert(old(self).plots()[i].pos != old(self).plots()[j].pos);
                }
            }
            assert forall|i: int| 0 <= i < self.parcels().len() implies (
            #[trigger] self.parcels()[i]).wf() by {
                if i < old(self).parcels().len() {
                    assert(old(self).parcels()[i].wf());
                }
            }
        }
        self.update_new_pos();
        proof {
            assert(self.plots() == grown);
            assert forall|i: int|
                0 <= i < self.parcels().len() && !near(
                    pos,
                    (#[trigger] self.parcels()[i])@.pos,
                ) implies self.sees_around(i) by {
                assert(i < old(self).parcels().len()) by {
                    if i == old(self).parcels().len() {
                        assert(self.parcels()[i]@.pos == pos);
                    }
                }
                assert(old(self).sees_around(i));
                assert forall|t: BuildingType|
                    self.parcels()[i]@.neighbor_counts[t] == around(
                        self.plots(),
                        self.parcels()[i]@.pos,
                        t,
                    ) by {
                    lemma_around_elsewhere(
                        old(self).plots(),
                        grown,
                        pos,
                        self.parcels()[i]@.pos,
                        t,
                    );
                }
            }
        }
        self.add_buildings(pos);
        true
    }

    /// Edits one cell of the parcel at `parcel`: asks for `building` in its
    /// cell `cell`, to be paid from the ledger of the world, and says whether
    /// the grid changed. Where no parcel lies at `parcel`, nothing happens.
    /// The edit follows the protocol of `Tile::apply`; after a change the
    /// parcel and its neighbors store anew what they see around them.
    pub fn apply(&mut self, parcel: Pos, cell: Pos, building: Building) -> (changed: bool)
        requires
            old(self).wf(),
        ensures
            final(self).wf(),
            final(self)@.name == old(self)@.name,
            final(self)@.stage == old(self)@.stage,
            final(self)@.frontier == old(self)@.frontier,
            final(self).parcels().len() == old(self).parcels().len(),
            !owned(old(self).plots(), parcel) ==> !changed && final(self)@ == old(self)@,
            non_negative(old(self)@.resources) ==> non_negative(final(self)@.resources),
            final(self)@.resources[Resource::Storage] == old(self)@.resources[Resource::Storage],
            final(self)@.resources[Resource::CashStorage]
                == old(self)@.resources[Resource::CashStorage],
            forall|r: Resource|
                final(self)@.resources[r] > old(self)@.resources[r] ==> final(self)@.resources[r]
                    <= room(old(self)@.resources, r),
            forall|i: int|
                0 <= i < old(self).parcels().len() ==> if (#[trigger] old(
                    self,
                ).parcels()[i])@.pos == parcel {
                    &&& (
                        Estate {
                            cells: final(self).parcels()[i]@.cells,
                            planned: final(self).parcels()[i]@.planned,
                            ledger: final(self)@.resources,
                        },
                        changed,
                    ) == applied(
                        Estate {
                            cells: old(self).parcels()[i]@.cells,
                            planned: old(self).parcels()[i]@.planned,
                            ledger: old(self)@.resources,
                        },
                        cell.x as int,
                        cell.y as int,
                        building@.building_type,
                    )
                    &&& final(self).parcels()[i]@.pos == parcel
                    &&& final(self).parcels()[i]@.summary == old(self).parcels()[i]@.summary
                } else {
                    final(self).parcels()[i]@ == (TileView {
                        neighbor_counts: final(self).parcels()[i]@.neighbor_counts,
                        ..old(self).parcels()[i]@
                    })
                },
    {
        let at = match self.find(parcel) {
            Some(at) => at,
            None => {
                assert forall|i: int| 0 <= i < self.parcels().len() implies (
                #[trigger] self.parcels()[i])@.pos != parcel by {
                    assert(self.plots()[i].pos == self.parcels()[i]@.pos);
                }
                return false;
            },
        };
        proof {
            assert(self.parcels()[at as int].wf());
            assert(self.plots()[at as int].pos == parcel);
            assert(owned(old(self).plots(), parcel));
            assert forall|j: int| 0 <= j < self.parcels().len() && j != at implies (
            #[trigger] self.parcels()[j])@.pos != parcel by {
                assert(self.plots()[j].pos != self.plots()[at as int].pos);
            }
        }
        let changed = self.tiles[at].apply(cell, building, &mut self.resources);
        if changed {
            proof {
                lemma_edited(old(self).parcels(), self.parcels(), self.frontier(), at as int);
            }
            self.add_buildings(parcel);
        } else {
            proof {
                self.lemma_same_land(old(self));
            }
        }
        changed
    }

    /// The two capacities of a tick, storage first: the base storage and
    /// what the buildings of all parcels yield of `Storage`, and what they
    /// yield of `CashStorage`.
    pub fn capacities(&self) -> (caps: (i32, i32))
        requires
            self.wf(),
        ensures
            caps.0 == storage_capacity(self.plots()),
            caps.1 == cash_capacity(self.plots()),
            caps.0 >= BASE_STORAGE,
            caps.1 >= 0,
    {
        let mut storage: i32 = BASE_STORAGE;
        let mut cash_storage: i32 = 0;
        let mut i: usize = 0;
        proof {
            lemma_plots_whole(self.parcels());
        }
        while i < self.tiles.len()
            invariant
                i <= self.tiles.len(),
                self.wf(),
                whole(self.plots()),
                storage == fill(
                    BASE_STORAGE + world_yield_upto(self.plots(), Resource::Storage, i as nat),
                ),
                cash_storage == fill(
                    world_yield_upto(self.plots(), Resource::CashStorage, i as nat),
                ),
                storage >= BASE_STORAGE,
                cash_storage >= 0,
            decreases self.tiles.len() - i,
        {
            proof {
                assert(self.parcels()[i as int].wf());
                lemma_world_yield(self.plots(), Resource::Storage, i as nat);
                lemma_world_yield(self.plots(), Resource::CashStorage, i as nat);
                lemma_world_yield(self.plots(), Resource::Storage, (i + 1) as nat);
                lemma_world_yield(self.plots(), Resource::CashStorage, (i + 1) as nat);
            }
            let caps = self.tiles[i].process_storage(storage, cash_storage);
            storage = caps.0;
            cash_storage = caps.1;
            i = i + 1;
        }
        (storage, cash_storage)
    }

    /// One production tick. The capacities are taken from all parcels
    /// first; then every parcel produces into the ledger, each resource
    /// filling no further than its capacity; then every locked stage whose
    /// thresholds the ledger now holds is unlocked. Gives the tally of what
    /// the parcels yield in this tick.
    pub fn production_tick(&mut self) -> (per_sec: Ledger)
        requires
            old(self).wf(),
        ensures
            final(self).wf(),
            final(self)@.name == old(self)@.name,
            final(self)@.parcels == old(self)@.parcels,
            final(self)@.frontier == old(self)@.frontier,
            final(self)@.resources == ticked(old(self)@.resources, old(self).plots()),
            per_sec@ == tally_upto(old(self).plots(), old(self).plots().len()),
            non_negative(old(self)@.resources) ==> non_negative(final(self)@.resources),
            final(self)@.stage.len() == 6,
            forall|k: int|
                0 <= k < 6 ==> (#[trigger] final(self)@.stage[k]) == (Stage {
                    enabled: old(self)@.stage[k].enabled || affordable(
                        final(self)@.resources,
                        old(self)@.stage[k].unlock_at@,
                    ),
                    ..old(self)@.stage[k]
                }),
            old(self)@.resources[Resource::Storage] <= storage_capacity(old(self).plots())
                || somewhere_yielded(old(self).plots(), Resource::Storage)
                ==> final(self)@.resources[Resource::Storage] <= storage_capacity(
                old(self).plots(),
            ),
    {
        let caps = self.capacities();
        let storage = caps.0;
        let cash_storage = caps.1;
        let mut per_sec = Ledger::new();
        let mut i: usize = 0;
        proof {
            lemma_plots_whole(self.parcels());
            assert(self@.resources =~= ticked_upto(
                old(self)@.resources,
                self.plots(),
                storage as int,
                cash_storage as int,
                0,
            ));
            assert(per_sec@ =~= tally_upto(self.plots(), 0));
            if old(self)@.resources[Resource::Storage] <= storage_capacity(old(self).plots())
                || somewhere_yielded(old(self).plots(), Resource::Storage) {
                lemma_tick_keeps_storage_capacity(old(self)@.resources, old(self).plots());
            }
            assert forall|r: Resource| non_negative(old(self)@.resources) implies #[trigger] ticked(
                old(self)@.resources,
                old(self).plots(),
            )[r] >= 0 by {
                lemma_tick_bounds(old(self)@.resources, old(self).plots(), r);
            }
        }
        while i < self.tiles.len()
            invariant
                i <= self.tiles.len(),
                self.wf(),
                whole(self.plots()),
                self@ == (DataView { resources: self@.resources, ..old(self)@ }),
                self@.resources == ticked_upto(
                    old(self)@.resources,
                    self.plots(),
                    storage as int,
                    cash_storage as int,
                    i as nat,
                ),
                per_sec@ == tally_upto(self.plots(), i as nat),
            decreases self.tiles.len() - i,
        {
            proof {
                assert(self.parcels()[i as int].wf());
                lemma_tick_step(
                    old(self)@.resources,
                    self.plots(),
                    storage as int,
                    cash_storage as int,
                    i as nat,
                );
            }
            self.tiles[i].processes_resources(
                &mut self.resources,
                storage,
                cash_storage,
                &mut per_sec,
            );
            i = i + 1;
        }
        let mut k: usize = 0;
        while k < 6
            invariant
                k <= 6,
                self.wf(),
                self@ == (DataView { stage: self@.stage, ..self@ }),
                self@.name == old(self)@.name,
                self@.parcels == old(self)@.parcels,
                self@.frontier == old(self)@.frontier,
                self@.resources == ticked(old(self)@.resources, old(self).plots()),
                self@.stage.len() == 6,
                forall|j: int|
                    0 <= j < k ==> (#[trigger] self@.stage[j]) == (Stage {
                        enabled: old(self)@.stage[j].enabled || affordable(
                            self@.resources,
                            old(self)@.stage[j].unlock_at@,
                        ),
                        ..old(self)@.stage[j]
                    }),
                forall|j: int| k <= j < 6 ==> (#[trigger] self@.stage[j]) == old(self)@.stage[j],
            decreases 6 - k,
        {
            self.stage[k].try_unlock(&self.resources);
            k = k + 1;
        }
        per_sec
    }

    /// Makes a list of edits on the parcel at `parcel`, one after the other,
    /// and says whether one of them changed the grid. Where no parcel lies at
    /// `parcel`, nothing happens.
    pub fn apply_all(&mut self, parcel: Pos, edits: &Vec<(Pos, BuildingType)>) -> (changed: bool)
        requires
            old(self).wf(),
        ensures
            final(self).wf(),
            final(self)@.name == old(self)@.name,
            final(self)@.stage == old(self)@.stage,
            final(self)@.frontier == old(self)@.frontier,
            final(self).parcels().len() == old(self).parcels().len(),
            !owned(old(self).plots(), parcel) ==> !changed && final(self)@ == old(self)@,
            non_negative(old(self)@.resources) ==> non_negative(final(self)@.resources),
            final(self)@.resources[Resource::Storage] == old(self)@.resources[Resource::Storage],
            final(self)@.resources[Resource::CashStorage]
                == old(self)@.resources[Resource::CashStorage],
            forall|r: Resource|
                final(self)@.resources[r] > old(self)@.resources[r] ==> final(self)@.resources[r]
                    <= room(old(self)@.resources, r),
            forall|i: int|
                0 <= i < old(self).parcels().len() ==> if (#[trigger] old(
                    self,
                ).parcels()[i])@.pos == parcel {
                    &&& (
                        Estate {
                            cells: final(self).parcels()[i]@.cells,
                            planned: final(self).parcels()[i]@.planned,
                            ledger: final(self)@.resources,
                        },
                        changed,
                    ) == applied_all(
                        Estate {
                            cells: old(self).parcels()[i]@.cells,
                            planned: old(self).parcels()[i]@.planned,
                            ledger: old(self)@.resources,
                        },
                        edits@,
                    )
                    &&& final(self).parcels()[i]@.pos == parcel
                    &&& final(self).parcels()[i]@.summary == old(self).parcels()[i]@.summary
                } else {
                    final(self).parcels()[i]@ == (TileView {
                        neighbor_counts: final(self).parcels()[i]@.neighbor_counts,
                        ..old(self).parcels()[i]@
                    })
                },
    {
        let at = match self.find(parcel) {
            Some(at) => at,
            None => {
                assert forall|i: int| 0 <= i < self.parcels().len() implies (
                #[trigger] self.parcels()[i])@.pos != parcel by {
                    assert(self.plots()[i].pos == self.parcels()[i]@.pos);
                }
                return false;
            },
        };
        proof {
            assert(self.parcels()[at as int].wf());
            assert(self.plots()[at as int].pos == parcel);
            assert(owned(old(self).plots(), parcel));
            assert forall|j: int| 0 <= j < self.parcels().len() && j != at implies (
            #[trigger] self.parcels()[j])@.pos != parcel by {
                assert(self.plots()[j].pos != self.plots()[at as int].pos);
            }
        }
        let changed = self.tiles[at].apply_all(edits, &mut self.resources);
        if changed {
            proof {
                lemma_edited(old(self).parcels(), self.parcels(), self.frontier(), at as int);
            }
            self.add_buildings(parcel);
        } else {
            proof {
                self.lemma_same_land(old(self));
            }
        }
        changed
    }

    /// Tries again what is planned in the parcel at `parcel`: asks, row by
    /// row, for each planned kind in its cell, and says whether the grid
    /// changed. The markers are those that stand when the call begins.
    pub fn retry_planned(&mut self, parcel: Pos) -> (changed: bool)
        requires
            old(self).wf(),
        ensures
            final(self).wf(),
            final(self)@.name == old(self)@.name,
            final(self)@.stage == old(self)@.stage,
            final(self)@.frontier == old(self)@.frontier,
            final(self).parcels().len() == old(self).parcels().len(),
            !owned(old(self).plots(), parcel) ==> !changed && final(self)@ == old(self)@,
            non_negative(old(self)@.resources) ==> non_negative(final(self)@.resources),
            final(self)@.resources[Resource::Storage] == old(self)@.resources[Resource::Storage],
            final(self)@.resources[Resource::CashStorage]
                == old(self)@.resources[Resource::CashStorage],
            forall|r: Resource|
                final(self)@.resources[r] > old(self)@.resources[r] ==> final(self)@.resources[r]
                    <= room(old(self)@.resources, r),
            forall|i: int|
                0 <= i < old(self).parcels().len() ==> if (#[trigger] old(
                    self,
                ).parcels()[i])@.pos == parcel {
                    &&& (
                        Estate {
                            cells: final(self).parcels()[i]@.cells,
                            planned: final(self).parcels()[i]@.planned,
                            ledger: final(self)@.resources,
                        },
                        changed,
                    ) == applied_all(
                        Estate {
                            cells: old(self).parcels()[i]@.cells,
                            planned: old(self).parcels()[i]@.planned,
                            ledger: old(self)@.resources,
                        },
                        plans_upto(old(self).parcels()[i]@.planned, 64),
                    )
                    &&& final(self).parcels()[i]@.pos == parcel
                    &&& final(self).parcels()[i]@.summary == old(self).parcels()[i]@.summary
                } else {
                    final(self).parcels()[i]@ == (TileView {
                        neighbor_counts: final(self).parcels()[i]@.neighbor_counts,
                        ..old(self).parcels()[i]@
                    })
                },
    {
        let edits = match self.find(parcel) {
            Some(at) => {
                proof {
                    assert forall|j: int| 0 <= j < self.parcels().len() && j != at implies (
                    #[trigger] self.parcels()[j])@.pos != parcel by {
                        assert(self.plots()[j].pos != self.plots()[at as int].pos);
                    }
                }
                self.tiles[at].planned_edits()
            },
            None => {
                assert forall|i: int| 0 <= i < self.parcels().len() implies (
                #[trigger] self.parcels()[i])@.pos != parcel by {
                    assert(self.plots()[i].pos == self.parcels()[i]@.pos);
                }
                Vec::new()
            },
        };
        self.apply_all(parcel, &edits)
    }

    /// Plans kind `t` for cell `cell` of the parcel at `parcel`, and says
    /// whether there is such a cell.
    pub fn plan(&mut self, parcel: Pos, cell: Pos, t: BuildingType) -> (done: bool)
        requires
            old(self).wf(),
        ensures
            final(self).wf(),
            done == (owned(old(self).plots(), parcel) && crate::grid::in_grid(
                cell.x as int,
                cell.y as int,
            )),
            final(self)@ == (DataView { parcels: final(self)@.parcels, ..old(self)@ }),
            final(self).parcels().len() == old(self).parcels().len(),
            forall|i: int|
                0 <= i < old(self).parcels().len() ==> (#[trigger] final(self).parcels()[i])@ == (
                if done && old(self).parcels()[i]@.pos == parcel {
                    TileView {
                        planned: old(self).parcels()[i]@.planned.insert(cell, t),
                        ..old(self).parcels()[i]@
                    }
                } else {
                    old(self).parcels()[i]@
                }),
    {
        let at = match self.find(parcel) {
            Some(at) => at,
            None => {
                return false;
            },
        };
        proof {
            assert(self.plots()[at as int].pos == parcel);
            assert forall|j: int| 0 <= j < self.parcels().len() && j != at implies (
            #[trigger] self.parcels()[j])@.pos != parcel by {
                assert(self.plots()[j].pos != self.plots()[at as int].pos);
            }
        }
        let done = self.tiles[at].plan(cell, t);
        proof {
            self.lemma_same_land(old(self));
        }
        done
    }

    /// Chooses whether the parcel at `parcel` is shown as a summary, and
    /// says whether a parcel lies there.
    pub fn set_summary(&mut self, parcel: Pos, on: bool) -> (done: bool)
        requires
            old(self).wf(),
        ensures
            final(self).wf(),
            done == owned(old(self).plots(), parcel),
            final(self)@ == (DataView { parcels: final(self)@.parcels, ..old(self)@ }),
            final(self).parcels().len() == old(self).parcels().len(),
            forall|i: int|
                0 <= i < old(self).parcels().len() ==> (#[trigger] final(self).parcels()[i])@ == (
                if old(self).parcels()[i]@.pos == parcel {
                    TileView { summary: on, ..old(self).parcels()[i]@ }
                } else {
                    old(self).parcels()[i]@
                }),
    {
        let at = match self.find(parcel) {
            Some(at) => at,
            None => {
                assert forall|i: int| 0 <= i < self.parcels().len() implies (
                #[trigger] self.parcels()[i])@.pos != parcel by {
                    assert(self.plots()[i].pos == self.parcels()[i]@.pos);
                }
                return false;
            },
        };
        proof {
            assert(self.plots()[at as int].pos == parcel);
            assert forall|j: int| 0 <= j < self.parcels().len() && j != at implies (
            #[trigger] self.parcels()[j])@.pos != parcel by {
                assert(self.plots()[j].pos != self.plots()[at as int].pos);
            }
        }
        self.tiles[at].set_summary(on);
        proof {
            self.lemma_same_land(old(self));
        }
        true
    }

    /// A world whose parcels lie where those of a consistent world lie, hold
    /// the same cells, keep exact counts and have stored the same of their
    /// neighborhoods is consistent with the same frontier.
    proof fn lemma_same_land(&self, before: &Data)
        requires
            before.wf(),
            self.frontier() == before.frontier(),
            self.parcels().len() == before.parcels().len(),
            forall|i: int|
                0 <= i < self.parcels().len() ==> (#[trigger] self.parcels()[i]).wf()
                    && self.parcels()[i]@.pos == before.parcels()[i]@.pos
                    && self.parcels()[i]@.cells == before.parcels()[i]@.cells
                    && self.parcels()[i]@.neighbor_counts
                    == before.parcels()[i]@.neighbor_counts,
        ensures
            self.wf(),
            self.plots() == before.plots(),
    {
        assert(self.plots() =~= before.plots());
        assert forall|i: int| 0 <= i < self.parcels().len() implies #[trigger] sees_around(
            self.parcels(),
            i,
        ) by {
            assert(sees_around(before.parcels(), i));
        }
    }

    /// The world of a game that was stored: the given parcels, ledger and
    /// stages. Gives `None` where two of the parcels lie at one position.
    /// The frontier, and what each parcel sees around it, are worked out
    /// anew.
    pub fn restore(name: String, tiles: Vec<Tile>, resources: Ledger, stage: [Stage; 6]) -> (d:
        Option<Data>)
        requires
            forall|i: int| 0 <= i < tiles@.len() ==> (#[trigger] tiles@[i]).wf(),
        ensures
            d.is_some() == distinct(plots_of(tiles@)),
            d.is_some() ==> {
                &&& d.unwrap().wf()
                &&& d.unwrap()@.name == name@
                &&& d.unwrap()@.resources == resources@
                &&& d.unwrap()@.stage == stage@
                &&& d.unwrap().plots() == plots_of(tiles@)
                &&& d.unwrap().parcels().len() == tiles@.len()
                &&& forall|i: int|
                    0 <= i < tiles@.len() ==> (#[trigger] d.unwrap().parcels()[i])@ == (TileView {
                        neighbor_counts: d.unwrap().parcels()[i]@.neighbor_counts,
                        ..tiles@[i]@
                    })
            },
    {
        let ghost given = plots_of(tiles@);
        let mut i: usize = 0;
        while i < tiles.len()
            invariant
                i <= tiles.len(),
                given == plots_of(tiles@),
                forall|a: int, b: int|
                    0 <= a < b < i ==> (#[trigger] given[a]).pos != (#[trigger] given[b]).pos,
            decreases tiles.len() - i,
        {
            let p = tiles[i].pos();
            let mut j: usize = 0;
            while j < i
                invariant
                    j <= i,
                    i < tiles.len(),
                    given == plots_of(tiles@),
                    p == given[i as int].pos,
                    forall|a: int| 0 <= a < j ==> (#[trigger] given[a]).pos != p,
                decreases i - j,
            {
                if tiles[j].pos() == p {
                    assert(given[j as int].pos == given[i as int].pos);
                    return None;
                }
                j = j + 1;
            }
            i = i + 1;
        }
        let ghost given_name = name@;
        let ghost given_tiles = tiles@;
        let ghost given_ledger = resources@;
        let ghost given_stage = stage@;
        let mut d = Data { name, tiles, new_pos: Vec::new(), resources, stage };
        d.update_new_pos();
        let ghost first = d;
        assert(first@.name == given_name && first@.parcels == given_tiles && first@.resources
            == given_ledger && first@.stage == given_stage);
        let mut k: usize = 0;
        while k < d.tiles.len()
            invariant
                k <= d.tiles.len(),
                d.sound(),
                frontier_of(d.plots(), d.frontier()),
                d.plots() == given,
                first.same_but_stored(&d),
                d@.frontier == d.new_pos@,
                forall|a: int| 0 <= a < k ==> #[trigger] sees_around(d.parcels(), a),
            decreases d.tiles.len() - k,
        {
            let p = d.tiles[k].pos();
            let ghost before = d;
            d.store_around(p);
            proof {
                assert forall|a: int| 0 <= a < k + 1 implies #[trigger] sees_around(
                    d.parcels(),
                    a,
                ) by {
                    if a < k {
                        assert(sees_around(before.parcels(), a));
                        if before.parcels()[a]@.pos != p {
                            assert(d.parcels()[a] == before.parcels()[a]);
                        }
                    }
                }
                assert forall|a: int| 0 <= a < first.parcels().len() implies (
                #[trigger] d.parcels()[a])@ == (TileView {
                    neighbor_counts: d.parcels()[a]@.neighbor_counts,
                    ..first.parcels()[a]@
                }) by {
                    assert(before.parcels()[a]@ == (TileView {
                        neighbor_counts: before.parcels()[a]@.neighbor_counts,
                        ..first.parcels()[a]@
                    }));
                }
            }
            k = k + 1;
        }
        Some(d)
    }
}

} // verus!
