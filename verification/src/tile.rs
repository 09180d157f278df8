//! A parcel: an 8x8 grid of buildings with its cached counts and its planned
//! markers, and the protocol by which it is edited.

use vstd::prelude::*;
use vstd::string::StringExecFns;

use crate::building::{
    amount_in, catalog, lemma_costs, lemma_outputs, list_has, Building, BuildingType, Resource,
};
use crate::census::Counts;
use crate::grid::{
    applied, applied_all, built, cell_pos, cell_valid, count, first_invalid, has_neighbor, holds,
    in_grid, lemma_applied, lemma_count_bounds, lemma_count_update, lemma_first_invalid,
    lemma_settle_fixed_point, plans_upto, razed, settle, settled, tolerated, valid, Estate,
};
use crate::ledger::{limit_of, non_negative, room, Ledger};
use crate::picture::{cell_text, lemma_picture, picture, text_upto};
use crate::pos::Pos;
use crate::production::{
    census, fill, lemma_census_fits, lemma_kind_yield, lemma_produce_entry, lemma_produce_kind,
    parcel_yield, produced, produced_partly, produced_upto, tallied, tallied_partly,
    tallied_upto, yield_upto,
};

verus! {

/// What a parcel is, as plain mathematical values. The cell in row `x`,
/// column `y` stands at index `8 * x + y` of `cells`.
pub struct TileView {
    pub pos: Pos,
    pub cells: Seq<BuildingType>,
    pub neighbor_counts: Map<BuildingType, int>,
    pub planned: Map<Pos, BuildingType>,
    pub summary: bool,
}

/// A parcel of land.
///
/// Beside its cells it keeps, for every kind, how many of its cells hold
/// that kind: a cache that every operation leaves exact (`wf`).
pub struct Tile {
    pos: Pos,
    land: [[Building; 8]; 8],
    buildings: Counts,
    neighbors_buildings: Counts,
    summary: bool,
    planned: [[Option<BuildingType>; 8]; 8],
}

impl View for Tile {
    type V = TileView;

    closed spec fn view(&self) -> TileView {
        TileView {
            pos: self.pos,
            cells: Seq::new(64, |k: int| self.land[k / 8][k % 8]@.building_type),
            neighbor_counts: self.neighbors_buildings@,
            planned: Map::new(
                |p: Pos|
                    in_grid(p.x as int, p.y as int) && self.planned[p.x as int][p.y as int].is_some(),
                |p: Pos| self.planned[p.x as int][p.y as int].unwrap(),
            ),
            summary: self.summary,
        }
    }
}

/// A row of empty cells.
fn ground_row() -> (row: [Building; 8])
    ensures
        forall|i: int| 0 <= i < 8 ==> (#[trigger] row[i])@ == catalog(BuildingType::Ground),
{
    [
        Building::new(&BuildingType::Ground),
        Building::new(&BuildingType::Ground),
        Building::new(&BuildingType::Ground),
        Building::new(&BuildingType::Ground),
        Building::new(&BuildingType::Ground),
        Building::new(&BuildingType::Ground),
        Building::new(&BuildingType::Ground),
        Building::new(&BuildingType::Ground),
    ]
}

/// The cells of an empty parcel.
pub open spec fn empty_cells() -> Seq<BuildingType> {
    Seq::new(64, |k: int| BuildingType::Ground)
}

/// On empty land a building may stand wherever it needs no other building
/// and admits empty land beside it: a kind that requires no neighbor and no
/// kind in its parcel, and whose lists name `Ground`, is valid in every cell
/// of an empty parcel.
pub proof fn lemma_valid_on_empty_land(x: int, y: int, t: BuildingType)
    requires
        catalog(t).required_adj.len() == 0,
        catalog(t).tile_adj.len() == 0,
        catalog(t).optional_adj.contains(BuildingType::Ground),
    ensures
        valid(empty_cells(), x, y, catalog(t)),
{
}

impl Tile {
    /// Whether the cached counts are exact: for every kind, the count kept
    /// is the number of cells that hold it.
    pub closed spec fn wf(&self) -> bool {
        forall|t: BuildingType| self.buildings@[t] == count(self@.cells, t)
    }

    /// Every parcel has 64 cells.
    pub proof fn lemma_whole(&self)
        ensures
            self@.cells.len() == 64,
    {
    }

    /// A parcel at `coord` whose cells are all empty.
    pub fn new(coord: Pos) -> (tile: Tile)
        ensures
            tile.wf(),
            tile@.pos == coord,
            tile@.cells == empty_cells(),
            tile@.planned == Map::<Pos, BuildingType>::empty(),
            forall|t: BuildingType| tile@.neighbor_counts[t] == 0,
            !tile@.summary,
    {
        let mut tile = Tile {
            planned: [[None; 8]; 8],
            summary: false,
            pos: coord,
            land: [
                ground_row(),
                ground_row(),
                ground_row(),
                ground_row(),
                ground_row(),
                ground_row(),
                ground_row(),
                ground_row(),
            ],
            buildings: Counts::new(),
            neighbors_buildings: Counts::new(),
        };
        assert(tile@.cells =~= empty_cells());
        assert(tile@.planned =~= Map::<Pos, BuildingType>::empty());
        tile.recount();
        tile
    }

    /// A parcel at `coord` with the given kinds in its cells and the given
    /// planned markers, row by row. The counts are taken from the cells; no
    /// sweep is run, so a cell may hold what is not valid there.
    pub fn restore(
        coord: Pos,
        kinds: &[[BuildingType; 8]; 8],
        planned: &[[Option<BuildingType>; 8]; 8],
        summary: bool,
    ) -> (tile: Tile)
        ensures
            tile.wf(),
            tile@.pos == coord,
            tile@.cells == Seq::new(64, |k: int| kinds[k / 8][k % 8]),
            tile@.planned == Map::new(
                |p: Pos| in_grid(p.x as int, p.y as int) && planned[p.x as int][p.y as int].is_some(),
                |p: Pos| planned[p.x as int][p.y as int].unwrap(),
            ),
            forall|t: BuildingType| tile@.neighbor_counts[t] == 0,
            tile@.summary == summary,
    {
        let mut tile = Tile::new(coord);
        let ghost stored = tile.neighbors_buildings;
        assert(tile@.neighbor_counts == stored@);
        let mut x: usize = 0;
        while x < 8
            invariant
                x <= 8,
                tile.pos == coord,
                tile.neighbors_buildings == stored,
                forall|i: int, j: int|
                    0 <= i < x && 0 <= j < 8 ==> (#[trigger] tile.land[i][j])@.building_type
                        == kinds[i][j],
            decreases 8 - x,
        {
            let mut y: usize = 0;
            while y < 8
                invariant
                    x < 8,
                    y <= 8,
                    tile.pos == coord,
                    tile.neighbors_buildings == stored,
                    forall|i: int, j: int|
                        0 <= i < x && 0 <= j < 8 ==> (#[trigger] tile.land[i][j])@.building_type
                            == kinds[i][j],
                    forall|j: int|
                        0 <= j < y ==> (#[trigger] tile.land[x as int][j])@.building_type
                            == kinds[x as int][j],
                decreases 8 - y,
            {
                tile.land[x][y] = Building::new(&kinds[x][y]);
                y = y + 1;
            }
            x = x + 1;
        }
        tile.planned = *planned;
        tile.summary = summary;
        proof {
            assert(tile@.cells =~= Seq::new(64, |k: int| kinds[k / 8][k % 8]));
            assert(tile@.neighbor_counts == stored@);
        }
        tile.recount();
        tile
    }

    /// The position of this parcel in the world.
    pub fn pos(&self) -> (p: Pos)
        ensures
            p == self@.pos,
    {
        self.pos
    }

    /// Whether this parcel is shown as a summary.
    pub fn summary(&self) -> (on: bool)
        ensures
            on == self@.summary,
    {
        self.summary
    }

    /// Chooses whether this parcel is shown as a summary.
    pub fn set_summary(&mut self, on: bool)
        ensures
            final(self)@ == (TileView { summary: on, ..old(self)@ }),
            old(self).wf() ==> final(self).wf(),
    {
        self.summary = on;
    }

    /// How many cells of this parcel hold kind `t`.
    pub fn count(&self, t: BuildingType) -> (n: i32)
        requires
            self.wf(),
        ensures
            n == count(self@.cells, t),
            0 <= n <= 64,
    {
        proof {
            lemma_count_bounds(self@.cells, t);
        }
        self.buildings.get(t)
    }

    /// The count of kind `t` that was last stored for the neighborhood of
    /// this parcel.
    pub fn neighbor_count(&self, t: BuildingType) -> (n: i32)
        ensures
            n == self@.neighbor_counts[t],
    {
        self.neighbors_buildings.get(t)
    }

    /// Stores the counts of the neighborhood of this parcel.
    pub fn set_neighbors_buildings(&mut self, counts: Counts)
        ensures
            final(self)@ == (TileView { neighbor_counts: counts@, ..old(self)@ }),
            old(self).wf() ==> final(self).wf(),
    {
        self.neighbors_buildings = counts;
    }

    /// The building in cell `i`, or `None` outside the parcel.
    pub fn building_at(&self, i: Pos) -> (b: Option<&Building>)
        ensures
            in_grid(i.x as int, i.y as int) ==> b.is_some() && b.unwrap()@ == catalog(
                self@.cells[8 * i.x + i.y],
            ),
            !in_grid(i.x as int, i.y as int) ==> b.is_none(),
    {
        if 0 <= i.x && i.x < 8 && 0 <= i.y && i.y < 8 {
            let x: usize = i.x as usize;
            let y: usize = i.y as usize;
            let here = self.kind(x, y);
            Some(&self.land[x][y])
        } else {
            None
        }
    }

    /// The kind that is planned for cell `i`, if any.
    pub fn planned_at(&self, i: Pos) -> (t: Option<BuildingType>)
        ensures
            t == if self@.planned.dom().contains(i) {
                Some(self@.planned[i])
            } else {
                None
            },
    {
        if 0 <= i.x && i.x < 8 && 0 <= i.y && i.y < 8 {
            self.planned[i.x as usize][i.y as usize]
        } else {
            None
        }
    }

    /// Plans kind `t` for cell `i`, and says whether `i` is a cell of the
    /// parcel: outside it nothing is planned.
    pub fn plan(&mut self, i: Pos, t: BuildingType) -> (done: bool)
        ensures
            done == in_grid(i.x as int, i.y as int),
            final(self)@ == (TileView {
                planned: if done {
                    old(self)@.planned.insert(i, t)
                } else {
                    old(self)@.planned
                },
                ..old(self)@
            }),
            old(self).wf() ==> final(self).wf(),
    {
        if 0 <= i.x && i.x < 8 && 0 <= i.y && i.y < 8 {
            self.planned[i.x as usize][i.y as usize] = Some(t);
            proof {
                assert(self@.cells =~= old(self)@.cells);
                assert(self@.planned =~= old(self)@.planned.insert(i, t));
            }
            true
        } else {
            false
        }
    }

    /// The kind that the cell in row `x`, column `y` holds.
    fn kind(&self, x: usize, y: usize) -> (t: BuildingType)
        requires
            x < 8,
            y < 8,
        ensures
            t == self@.cells[8 * x + y],
            self.land[x as int][y as int]@ == catalog(t),
    {
        self.land[x][y].building_type()
    }

    /// The kind that the cell at `(x, y)` holds, or `None` outside the
    /// parcel.
    fn kind_at(&self, x: i64, y: i64) -> (t: Option<BuildingType>)
        ensures
            t == if in_grid(x as int, y as int) {
                Some(self@.cells[8 * x + y])
            } else {
                None
            },
    {
        if 0 <= x && x < 8 && 0 <= y && y < 8 {
            Some(self.kind(x as usize, y as usize))
        } else {
            None
        }
    }

    /// Counts the cells of every kind anew.
    fn recount(&mut self)
        ensures
            final(self).wf(),
            final(self)@ == old(self)@,
    {
        let mut counts = Counts::new();
        let mut x: usize = 0;
        while x < 8
            invariant
                x <= 8,
                *self == *old(self),
                forall|t: BuildingType|
                    counts@[t] == count(self@.cells.take(8 * x as int), t),
            decreases 8 - x,
        {
            let mut y: usize = 0;
            while y < 8
                invariant
                    x < 8,
                    y <= 8,
                    *self == *old(self),
                    forall|t: BuildingType|
                        counts@[t] == count(self@.cells.take(8 * x + y), t),
                decreases 8 - y,
            {
                let here = self.kind(x, y);
                proof {
                    let k = 8 * x + y;
                    let next = self@.cells.take(k + 1);
                    assert(next.drop_last() =~= self@.cells.take(k));
                    assert(next.last() == here);
                    lemma_count_bounds(self@.cells.take(k), here);
                }
                let was = counts.get(here);
                counts.insert(here, was + 1);
                y = y + 1;
            }
            x = x + 1;
        }
        proof {
            assert(self@.cells.take(64) =~= self@.cells);
        }
        self.buildings = counts;
    }

    /// Whether an orthogonal neighbor of `i` inside the parcel holds kind
    /// `t`.
    fn neighbor_holds(&self, i: Pos, t: BuildingType) -> (found: bool)
        ensures
            found == has_neighbor(self@.cells, i.x as int, i.y as int, t),
    {
        let x = i.x as i64;
        let y = i.y as i64;
        let left = self.kind_at(x - 1, y);
        let right = self.kind_at(x + 1, y);
        let up = self.kind_at(x, y - 1);
        let down = self.kind_at(x, y + 1);
        is_kind(left, t) || is_kind(right, t) || is_kind(up, t) || is_kind(down, t)
    }

    /// Whether `b` tolerates what stands at `(x, y)`.
    fn tolerates(&self, x: i64, y: i64, b: &Building) -> (ok: bool)
        ensures
            ok == tolerated(self@.cells, x as int, y as int, b@),
    {
        match self.kind_at(x, y) {
            None => true,
            Some(t) => list_has(b.required_adj(), t) || list_has(b.optional_adj(), t),
        }
    }

    /// Whether `new_building` may stand in cell `i`.
    ///
    /// An empty cell (`Ground`) is always valid. Any other building needs
    /// every kind of its parcel-wide list somewhere in the parcel, every
    /// required kind among the orthogonal neighbors of `i` inside the parcel,
    /// and no such neighbor of a kind that it neither requires nor admits.
    /// An empty neighbor is of kind `Ground`, so a building may stand beside
    /// empty land only if its lists name `Ground`; a place beyond the edge of
    /// the parcel is no neighbor at all.
    pub fn is_valid(&self, i: Pos, new_building: &Building) -> (ok: bool)
        requires
            self.wf(),
        ensures
            ok == valid(self@.cells, i.x as int, i.y as int, new_building@),
            new_building@.building_type == BuildingType::Ground ==> ok,
            ok && new_building@.building_type != BuildingType::Ground ==> forall|j: int|
                0 <= j < new_building@.required_adj.len() ==> has_neighbor(
                    self@.cells,
                    i.x as int,
                    i.y as int,
                    #[trigger] new_building@.required_adj[j],
                ),
    {
        if new_building.building_type() == BuildingType::Ground {
            return true;
        }
        let somewhere = new_building.tile_adj();
        let mut a: usize = 0;
        while a < somewhere.len()
            invariant
                a <= somewhere.len(),
                self.wf(),
                new_building@.building_type != BuildingType::Ground,
                somewhere@ == new_building@.tile_adj,
                forall|j: int| 0 <= j < a ==> count(self@.cells, #[trigger] somewhere@[j]) > 0,
            decreases somewhere.len() - a,
        {
            if self.buildings.get(somewhere[a]) <= 0 {
                assert(count(self@.cells, new_building@.tile_adj[a as int]) <= 0);
                return false;
            }
            a = a + 1;
        }
        let required = new_building.required_adj();
        let mut b: usize = 0;
        while b < required.len()
            invariant
                b <= required.len(),
                new_building@.building_type != BuildingType::Ground,
                required@ == new_building@.required_adj,
                forall|j: int|
                    0 <= j < b ==> has_neighbor(
                        self@.cells,
                        i.x as int,
                        i.y as int,
                        #[trigger] required@[j],
                    ),
            decreases required.len() - b,
        {
            if !self.neighbor_holds(i, required[b]) {
                assert(!has_neighbor(
                    self@.cells,
                    i.x as int,
                    i.y as int,
                    new_building@.required_adj[b as int],
                ));
                return false;
            }
            b = b + 1;
        }
        let x = i.x as i64;
        let y = i.y as i64;
        self.tolerates(x - 1, y, new_building) && self.tolerates(x + 1, y, new_building)
            && self.tolerates(x, y - 1, new_building) && self.tolerates(x, y + 1, new_building)
    }

    /// The cells and planned markers of this parcel, with the ledger that
    /// pays and is paid for its buildings.
    pub open spec fn estate(&self, ledger: &Ledger) -> Estate {
        Estate { cells: self@.cells, planned: self@.planned, ledger: ledger@ }
    }

    /// The first cell, row by row, that holds what may not stand there, or 64
    /// where every cell is valid.
    fn first_invalid_cell(&self) -> (k: usize)
        requires
            self.wf(),
        ensures
            k == first_invalid(self@.cells, 0),
            k <= 64,
    {
        let mut k: usize = 0;
        while k < 64
            invariant
                k <= 64,
                self.wf(),
                first_invalid(self@.cells, 0) == first_invalid(self@.cells, k as int),
            decreases 64 - k,
        {
            let x: usize = k / 8;
            let y: usize = k % 8;
            let here = self.kind(x, y);
            let ok = self.is_valid(Pos { x: x as i32, y: y as i32 }, &self.land[x][y]);
            assert(ok == cell_valid(self@.cells, k as int));
            if !ok {
                return k;
            }
            k = k + 1;
        }
        k
    }

    /// Tears down the building in cell `k`: its cost is refunded as far as
    /// the capacity allows, its kind is planned at its position, and the
    /// cell is left empty.
    fn raze(&mut self, k: usize, resources: &mut Ledger)
        requires
            old(self).wf(),
            k < 64,
        ensures
            final(self).wf(),
            final(self).estate(final(resources)) == razed(old(self).estate(old(resources)), k as int),
            final(self)@.pos == old(self)@.pos,
            final(self)@.neighbor_counts == old(self)@.neighbor_counts,
            final(self)@.summary == old(self)@.summary,
    {
        let x: usize = k / 8;
        let y: usize = k % 8;
        let here = self.kind(x, y);
        resources.refund(self.land[x][y].cost());
        self.planned[x][y] = Some(here);
        self.land[x][y] = Building::new(&BuildingType::Ground);
        proof {
            assert(self@.cells =~= old(self)@.cells.update(k as int, BuildingType::Ground));
            assert(self@.planned =~= old(self)@.planned.insert(cell_pos(k as int), here));
            assert forall|t: BuildingType|
                self.buildings@[t] == count(self@.cells, t) + (if here == t {
                    1int
                } else {
                    0int
                }) - (if t == BuildingType::Ground {
                    1int
                } else {
                    0int
                }) by {
                lemma_count_update(old(self)@.cells, k as int, BuildingType::Ground, t);
            }
            lemma_count_bounds(self@.cells, here);
            lemma_count_bounds(self@.cells, BuildingType::Ground);
            lemma_count_bounds(old(self)@.cells, here);
            lemma_count_bounds(old(self)@.cells, BuildingType::Ground);
        }
        let left = self.buildings.get(here);
        self.buildings.insert(here, left - 1);
        let empty = self.buildings.get(BuildingType::Ground);
        self.buildings.insert(BuildingType::Ground, empty + 1);
    }

    /// Counts the cells anew, then runs the consistency sweep: as long as a
    /// cell holds what may not stand there, the first such cell is torn
    /// down, refunded and planned. Afterwards every cell is valid.
    pub fn update_count(&mut self, resources: &mut Ledger)
        ensures
            final(self).wf(),
            final(self).estate(final(resources)) == settle(old(self).estate(old(resources))),
            settled(final(self)@.cells),
            final(self)@.pos == old(self)@.pos,
            final(self)@.neighbor_counts == old(self)@.neighbor_counts,
            final(self)@.summary == old(self)@.summary,
            non_negative(old(resources)@) ==> non_negative(final(resources)@),
    {
        self.recount();
        let mut k = self.first_invalid_cell();
        while k < 64
            invariant
                self.wf(),
                k == first_invalid(self@.cells, 0),
                k <= 64,
                self@.cells.len() == 64,
                settle(self.estate(resources)) == settle(old(self).estate(old(resources))),
                self@.pos == old(self)@.pos,
                self@.neighbor_counts == old(self)@.neighbor_counts,
                self@.summary == old(self)@.summary,
            decreases built(self@.cells),
        {
            let ghost before = self.estate(resources);
            proof {
                lemma_first_invalid(before.cells, 0);
                lemma_count_update(
                    before.cells,
                    k as int,
                    BuildingType::Ground,
                    BuildingType::Ground,
                );
            }
            self.raze(k, resources);
            proof {
                assert(self@.cells == razed(before, k as int).cells);
                lemma_count_bounds(before.cells, BuildingType::Ground);
                lemma_count_bounds(self@.cells, BuildingType::Ground);
            }
            k = self.first_invalid_cell();
        }
        proof {
            lemma_settle_fixed_point(old(self).estate(old(resources)));
            assert forall|r: Resource| non_negative(old(resources)@) implies #[trigger] resources@[r]
                >= 0 by {
                crate::grid::lemma_settle_bounds(old(self).estate(old(resources)), r);
            }
        }
    }

    /// Edits one cell: asks for `new_building` in cell `i`, to be paid from
    /// `resources`, and says whether the grid changed.
    ///
    /// - Outside the parcel nothing happens.
    /// - Where the cell holds that kind already, only its planned marker
    ///   goes.
    /// - `Ground` tears down what stands there and refunds it; this never
    ///   fails.
    /// - Any other building is placed if it is valid there and its whole
    ///   cost can be paid; otherwise nothing changes and nothing is charged.
    ///
    /// After a change the counts are taken anew and the consistency sweep
    /// runs, so that every cell is valid again.
    pub fn apply(&mut self, i: Pos, new_building: Building, resources: &mut Ledger) -> (changed:
        bool)
        requires
            old(self).wf(),
        ensures
            final(self).wf(),
            (final(self).estate(final(resources)), changed) == applied(
                old(self).estate(old(resources)),
                i.x as int,
                i.y as int,
                new_building@.building_type,
            ),
            final(self)@.pos == old(self)@.pos,
            final(self)@.neighbor_counts == old(self)@.neighbor_counts,
            final(self)@.summary == old(self)@.summary,
            changed ==> settled(final(self)@.cells),
            !changed ==> final(self)@.cells == old(self)@.cells && final(resources)@ == old(
                resources,
            )@,
            holds(old(self)@.cells, i.x as int, i.y as int, new_building@.building_type) ==> !changed,
            final(resources)@[Resource::Storage] == old(resources)@[Resource::Storage],
            final(resources)@[Resource::CashStorage] == old(resources)@[Resource::CashStorage],
            forall|r: Resource|
                final(resources)@[r] > old(resources)@[r] ==> final(resources)@[r] <= room(
                    old(resources)@,
                    r,
                ),
            non_negative(old(resources)@) ==> non_negative(final(resources)@),
    {
        proof {
            let s = old(self).estate(old(resources));
            let t = new_building@.building_type;
            lemma_applied(s, i.x as int, i.y as int, t, Resource::Storage);
            let after = applied(s, i.x as int, i.y as int, t).0.ledger;
            assert forall|r: Resource| #[trigger] after[r] > s.ledger[r] implies after[r] <= room(
                s.ledger,
                r,
            ) by {
                lemma_applied(s, i.x as int, i.y as int, t, r);
            }
            assert forall|r: Resource| non_negative(s.ledger) implies #[trigger] after[r] >= 0 by {
                lemma_applied(s, i.x as int, i.y as int, t, r);
            }
        }
        if !(0 <= i.x && i.x < 8 && 0 <= i.y && i.y < 8) {
            return false;
        }
        let x: usize = i.x as usize;
        let y: usize = i.y as usize;
        let current = self.kind(x, y);
        let wanted = new_building.building_type();
        if wanted == current {
            self.planned[x][y] = None;
            proof {
                assert(self@.cells =~= old(self)@.cells);
                assert(self@.planned =~= old(self)@.planned.remove(cell_pos(8 * x + y)));
            }
            return false;
        }
        if wanted == BuildingType::Ground {
            resources.refund(self.land[x][y].cost());
            self.land[x][y] = new_building;
            proof {
                assert(self@.cells =~= old(self)@.cells.update(8 * x + y, BuildingType::Ground));
                assert(self@.planned =~= old(self)@.planned);
            }
            self.update_count(resources);
            return true;
        }
        if !self.is_valid(i, &new_building) {
            return false;
        }
        if !resources.can_afford(new_building.cost()) {
            return false;
        }
        self.planned[x][y] = None;
        proof {
            lemma_costs(wanted);
        }
        resources.debit(new_building.cost());
        self.land[x][y] = new_building;
        proof {
            assert(self@.cells =~= old(self)@.cells.update(8 * x + y, wanted));
            assert(self@.planned =~= old(self)@.planned.remove(cell_pos(8 * x + y)));
        }
        self.update_count(resources);
        true
    }

    /// Adds to the two capacities what the buildings of this parcel yield of
    /// them: `Storage` to the first, `CashStorage` to the second.
    pub fn process_storage(&self, storage: i32, cash_storage: i32) -> (caps: (i32, i32))
        requires
            self.wf(),
        ensures
            caps.0 == fill(storage + parcel_yield(census(self@.cells), Resource::Storage)),
            caps.1 == fill(cash_storage + parcel_yield(census(self@.cells), Resource::CashStorage)),
            caps.0 >= storage,
            caps.1 >= cash_storage,
    {
        let ghost counts = census(self@.cells);
        proof {
            lemma_census_fits(self@.cells);
            crate::production::lemma_yield_upto(counts, Resource::Storage, 37);
            crate::production::lemma_yield_upto(counts, Resource::CashStorage, 37);
        }
        let kinds = BuildingType::all();
        let mut storage = storage;
        let mut cash_storage = cash_storage;
        let ghost storage0 = storage;
        let ghost cash0 = cash_storage;
        let mut n: usize = 0;
        while n < 37
            invariant
                n <= 37,
                self.wf(),
                counts == census(self@.cells),
                crate::production::counts_fit(counts),
                kinds@ == BuildingType::all_spec(),
                storage == fill(storage0 + yield_upto(counts, Resource::Storage, n as nat)),
                cash_storage == fill(cash0 + yield_upto(counts, Resource::CashStorage, n as nat)),
            decreases 37 - n,
        {
            let t = kinds[n];
            let c = self.buildings.get(t);
            proof {
                lemma_kind_yield(counts, t, Resource::Storage);
                lemma_kind_yield(counts, t, Resource::CashStorage);
                lemma_outputs(t);
                crate::production::lemma_yield_upto(counts, Resource::Storage, n as nat);
                crate::production::lemma_yield_upto(counts, Resource::CashStorage, n as nat);
            }
            if c > 0 {
                let out = t.output();
                let ghost s1 = storage;
                let ghost c1 = cash_storage;
                let mut j: usize = 0;
                while j < out.len()
                    invariant
                        j <= out.len(),
                        0 < c <= 64,
                        out@ == t.output_spec(),
                        crate::building::plain(out@),
                        forall|i: int| 0 <= i < out@.len() ==> (#[trigger] out@[i]).1 <= 1000,
                        storage0 + yield_upto(counts, Resource::Storage, n as nat) >= i32::MIN,
                        cash0 + yield_upto(counts, Resource::CashStorage, n as nat) >= i32::MIN,
                        storage == fill(
                            storage0 + yield_upto(counts, Resource::Storage, n as nat) + c
                                * amount_in(out@.take(j as int), Resource::Storage),
                        ),
                        cash_storage == fill(
                            cash0 + yield_upto(counts, Resource::CashStorage, n as nat) + c
                                * amount_in(out@.take(j as int), Resource::CashStorage),
                        ),
                        c * amount_in(out@.take(j as int), Resource::Storage) >= 0,
                        c * amount_in(out@.take(j as int), Resource::CashStorage) >= 0,
                    decreases out.len() - j,
                {
                    let (r, a) = out[j];
                    proof {
                        assert(out@[j as int].1 >= 0);
                        assert(out@[j as int].1 <= 1000);
                        let part = out@.take(j as int);
                        assert(out@.take(j + 1) =~= part.push(out@[j as int]));
                        crate::production::lemma_amounts_push(
                            part,
                            out@[j as int],
                            Resource::Storage,
                        );
                        crate::production::lemma_amounts_push(
                            part,
                            out@[j as int],
                            Resource::CashStorage,
                        );
                        let x = amount_in(part, Resource::Storage);
                        let y = amount_in(part, Resource::CashStorage);
                        let e = a as int;
                        let m = c as int;
                        assert(m * (x + e) == m * x + e * m && m * (y + e) == m * y + e * m && 0
                            <= e * m <= 64000 && m * (x + 0) == m * x && m * (y + 0) == m * y)
                            by (nonlinear_arith)
                            requires
                                0 < m <= 64,
                                0 <= e <= 1000,
                        ;
                    }
                    let gain: i32 = a * c;
                    match r {
                        Resource::Storage => {
                            storage = add_fill(storage, gain);
                        },
                        Resource::CashStorage => {
                            cash_storage = add_fill(cash_storage, gain);
                        },
                        _ => {},
                    }
                    j = j + 1;
                }
                proof {
                    assert(out@.take(out.len() as int) =~= out@);
                }
            }
            n = n + 1;
        }
        (storage, cash_storage)
    }

    /// Lets the buildings of this parcel produce for one tick. Each resource
    /// that one of them yields is credited in `res` what they yield of it,
    /// but fills no further than its capacity: both capacities together for
    /// `Tax` and `CashStorage`, `storage` alone for every other resource. What
    /// exceeds the capacity is lost. `per_sec` tallies what was produced.
    pub fn processes_resources(
        &self,
        res: &mut Ledger,
        storage: i32,
        cash_storage: i32,
        per_sec: &mut Ledger,
    )
        requires
            self.wf(),
        ensures
            final(res)@ == produced(
                old(res)@,
                census(self@.cells),
                storage as int,
                cash_storage as int,
            ),
            final(per_sec)@ == tallied(old(per_sec)@, census(self@.cells)),
    {
        let ghost counts = census(self@.cells);
        proof {
            lemma_census_fits(self@.cells);
        }
        let kinds = BuildingType::all();
        let mut n: usize = 0;
        proof {
            assert(res@ =~= produced_upto(
                old(res)@,
                counts,
                storage as int,
                cash_storage as int,
                0,
            ));
            assert(per_sec@ =~= tallied_upto(old(per_sec)@, counts, 0));
        }
        while n < 37
            invariant
                n <= 37,
                self.wf(),
                counts == census(self@.cells),
                crate::production::counts_fit(counts),
                kinds@ == BuildingType::all_spec(),
                res@ == produced_upto(
                    old(res)@,
                    counts,
                    storage as int,
                    cash_storage as int,
                    n as nat,
                ),
                per_sec@ == tallied_upto(old(per_sec)@, counts, n as nat),
            decreases 37 - n,
        {
            let t = kinds[n];
            let c = self.buildings.get(t);
            proof {
                lemma_produce_kind(
                    old(res)@,
                    old(per_sec)@,
                    counts,
                    storage as int,
                    cash_storage as int,
                    n as nat,
                );
                lemma_outputs(t);
            }
            if c > 0 {
                let out = t.output();
                let mut j: usize = 0;
                proof {
                    assert(out@.take(0) =~= Seq::<(Resource, i32)>::empty());
                }
                while j < out.len()
                    invariant
                        j <= out.len(),
                        n < 37,
                        0 < c <= 64,
                        crate::production::counts_fit(counts),
                        out@ == t.output_spec(),
                        crate::building::plain(out@),
                        forall|i: int| 0 <= i < out@.len() ==> (#[trigger] out@[i]).1 <= 1000,
                        res@ == produced_partly(
                            old(res)@,
                            counts,
                            storage as int,
                            cash_storage as int,
                            n as nat,
                            out@.take(j as int),
                            c as int,
                        ),
                        per_sec@ == tallied_partly(
                            old(per_sec)@,
                            counts,
                            n as nat,
                            out@.take(j as int),
                            c as int,
                        ),
                    decreases out.len() - j,
                {
                    let (r, a) = out[j];
                    proof {
                        assert(out@[j as int].1 >= 0);
                        assert(out@[j as int].1 <= 1000);
                        let part = out@.take(j as int);
                        assert(out@.take(j + 1) =~= part.push(out@[j as int]));
                        assert(crate::building::no_negative(part)) by {
                            assert forall|i: int| 0 <= i < part.len() implies (#[trigger] part[i]).1
                                >= 0 by {
                                assert(out@[i].1 >= 0);
                            }
                        }
                        lemma_produce_entry(
                            old(res)@,
                            old(per_sec)@,
                            counts,
                            storage as int,
                            cash_storage as int,
                            n as nat,
                            part,
                            c as int,
                            out@[j as int],
                        );
                    }
                    let gain: i32 = a * c;
                    let cap = limit_of(r, storage, cash_storage);
                    let seen = per_sec.get(r);
                    per_sec.insert(r, add_fill(seen, gain));
                    res.credit(r, gain, cap);
                    j = j + 1;
                }
                proof {
                    assert(out@.take(out.len() as int) =~= out@);
                }
            }
            n = n + 1;
        }
    }

    /// The picture of this parcel as text: the glyphs of its cells, one row
    /// to a line, without the spaces and line breaks at the end.
    pub fn to_string(&self) -> (s: String)
        ensures
            s@ == picture(self@.cells),
    {
        let mut m: usize = 64;
        while m > 0 && self.kind((m - 1) / 8, (m - 1) % 8) == BuildingType::Ground
            invariant
                m <= 64,
                forall|k: int| m <= k < 64 ==> self@.cells[k] == BuildingType::Ground,
            decreases m,
        {
            m = m - 1;
        }
        let mut text = String::new();
        if m == 0 {
            proof {
                lemma_picture(self@.cells, 0);
            }
            return text;
        }
        proof {
            reveal_strlit("\n");
        }
        let mut k: usize = 0;
        while k < m - 1
            invariant
                k <= m - 1,
                0 < m <= 64,
                "\n"@ == seq!['\n'],
                text@ == text_upto(self@.cells, k as nat),
            decreases m - 1 - k,
        {
            let here = self.kind(k / 8, k % 8);
            text.append(self.land[k / 8][k % 8].symbol().as_str());
            if k % 8 == 7 {
                text.append("\n");
            }
            proof {
                assert(text@ =~= text_upto(self@.cells, k as nat) + cell_text(self@.cells, k as int));
            }
            k = k + 1;
        }
        let last = self.kind(k / 8, k % 8);
        text.append(self.land[k / 8][k % 8].symbol().as_str());
        proof {
            lemma_picture(self@.cells, m as nat);
        }
        text
    }

    /// The planned markers of this parcel, row by row, each with the
    /// position of its cell: the edits to try again.
    pub fn planned_edits(&self) -> (edits: Vec<(Pos, BuildingType)>)
        ensures
            edits@ == plans_upto(self@.planned, 64),
    {
        let mut edits: Vec<(Pos, BuildingType)> = Vec::new();
        let mut k: usize = 0;
        while k < 64
            invariant
                k <= 64,
                edits@ == plans_upto(self@.planned, k as nat),
            decreases 64 - k,
        {
            let x: usize = k / 8;
            let y: usize = k % 8;
            match self.planned[x][y] {
                Some(t) => {
                    edits.push((Pos { x: x as i32, y: y as i32 }, t));
                },
                None => {},
            }
            k = k + 1;
        }
        edits
    }

    /// Makes the edits one after the other, as `apply` makes each, and says
    /// whether one of them changed the grid.
    pub fn apply_all(&mut self, edits: &Vec<(Pos, BuildingType)>, resources: &mut Ledger) -> (changed:
        bool)
        requires
            old(self).wf(),
        ensures
            final(self).wf(),
            (final(self).estate(final(resources)), changed) == applied_all(
                old(self).estate(old(resources)),
                edits@,
            ),
            final(self)@.pos == old(self)@.pos,
            final(self)@.neighbor_counts == old(self)@.neighbor_counts,
            final(self)@.summary == old(self)@.summary,
            !changed ==> final(self)@.cells == old(self)@.cells && final(resources)@ == old(
                resources,
            )@,
            final(resources)@[Resource::Storage] == old(resources)@[Resource::Storage],
            final(resources)@[Resource::CashStorage] == old(resources)@[Resource::CashStorage],
            forall|r: Resource|
                final(resources)@[r] > old(resources)@[r] ==> final(resources)@[r] <= room(
                    old(resources)@,
                    r,
                ),
            non_negative(old(resources)@) ==> non_negative(final(resources)@),
    {
        let mut changed = false;
        let mut i: usize = 0;
        while i < edits.len()
            invariant
                i <= edits.len(),
                self.wf(),
                (self.estate(resources), changed) == applied_all(
                    old(self).estate(old(resources)),
                    edits@.take(i as int),
                ),
                self@.pos == old(self)@.pos,
                self@.neighbor_counts == old(self)@.neighbor_counts,
                self@.summary == old(self)@.summary,
            decreases edits.len() - i,
        {
            let (at, t) = edits[i];
            let now = self.apply(at, Building::new(&t), resources);
            proof {
                let next = edits@.take(i + 1);
                assert(next.drop_last() =~= edits@.take(i as int));
                assert(next.last() == edits@[i as int]);
            }
            changed = changed || now;
            i = i + 1;
        }
        proof {
            assert(edits@.take(edits.len() as int) =~= edits@);
            self.lemma_whole();
            assert forall|r: Resource| #[trigger] resources@[r] > old(resources)@[r] implies resources@[r]
                <= room(old(resources)@, r) by {
                crate::grid::lemma_applied_all(old(self).estate(old(resources)), edits@, r);
            }
            assert forall|r: Resource| non_negative(old(resources)@) implies #[trigger] resources@[r]
                >= 0 by {
                crate::grid::lemma_applied_all(old(self).estate(old(resources)), edits@, r);
            }
            crate::grid::lemma_applied_all(
                old(self).estate(old(resources)),
                edits@,
                Resource::Storage,
            );
        }
        changed
    }
}

/// Whether `found` is kind `t`.
fn is_kind(found: Option<BuildingType>, t: BuildingType) -> (same: bool)
    ensures
        same == (found == Some(t)),
{
    match found {
        Some(kind) => kind == t,
        None => false,
    }
}

/// The sum of a quantity and a gain, cut off where an `i32` ends.
fn add_fill(held: i32, gain: i32) -> (sum: i32)
    requires
        gain >= 0,
    ensures
        sum == fill(held + gain),
{
    let sum: i64 = held as i64 + gain as i64;
    if sum > i32::MAX as i64 {
        i32::MAX
    } else {
        sum as i32
    }
}

} // verus!
