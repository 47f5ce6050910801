//! The map: a grid of cells (terrain and occupant) and the colonies' scents.
use vstd::prelude::*;
use crate::insect::Id;
use crate::insect::ant::{ScentCell, ScentGrid};
use crate::pos::Pos;
use crate::pos::dirs::{self, is_dir};
use crate::random::gen_range_u32;

verus! {

pub type Faction = u8;

/// No faction: an empty cell, or one seen beyond the map's edge.
pub const FACTION_NONE: u8 = 0;

pub const FACTION_PILLBUG: u8 = 254;

pub const FACTION_SPIDER: u8 = 253;

pub const FACTION_CENTIPEDE: u8 = 252;

/// Width and height of the map, in cells.
pub const MAP_SIZE: i16 = 256;

/// One chance in this many, each tick, that a bunch of food falls.
pub const FOOD_DROP_ODDS: u32 = 10;

/// A dropped bunch covers at least this many steps of a random walk...
pub const FOOD_DROP_MIN: u32 = 20;

/// ... and fewer than this many.
pub const FOOD_DROP_MAX: u32 = 70;

/// What lies on a cell.
#[derive(Debug, Clone, Copy, PartialEq, Eq, Structural)]
pub enum CellType {
    Empty,
    Food,
    Nest(Faction),
    Rock,
    Wall,
}

impl Default for CellType {
    fn default() -> (r: CellType)
        ensures
            r == CellType::Empty,
    {
        CellType::Empty
    }
}

/// One cell of the map: its terrain and the insect standing on it, if any.
#[derive(Debug, Clone, Copy)]
pub struct Cell {
    m_type: CellType,
    occupied: Option<(Faction, Id)>,
}

impl Default for Cell {
    fn default() -> (r: Cell)
        ensures
            r.kind() == CellType::Empty,
            r.occupant().is_none(),
    {
        Cell { m_type: CellType::Empty, occupied: None }
    }
}

impl Cell {
    /// What [`Cell::try_occupy`] answers and who then holds the cell.
    pub open spec fn occupy_outcome(self, faction: Faction, id: Id) -> (
        Result<(), OccupyError>,
        Option<(Faction, Id)>,
    ) {
        if self.kind() == CellType::Rock {
            (Err(OccupyError::Solid), self.occupant())
        } else {
            match self.occupant() {
                None => (Ok(()), Some((faction, id))),
                Some((f, other)) => if f == faction {
                    (Ok(()), self.occupant())
                } else {
                    (Err(OccupyError::Fight(other)), self.occupant())
                },
            }
        }
    }

    /// Who holds the cell after [`Cell::free`].
    pub open spec fn freed(self, faction: Faction, id: Id) -> Option<(Faction, Id)> {
        if self.occupant() == Some((faction, id)) {
            None
        } else {
            self.occupant()
        }
    }

    /// The occupant's id, or zero.
    pub open spec fn occupied_id_spec(self) -> Id {
        match self.occupant() {
            Some((_, id)) => id,
            None => 0,
        }
    }

    /// The faction an onlooker sees on the cell.
    pub open spec fn faction_seen(self) -> Faction {
        match self.occupant() {
            Some((f, _)) => f,
            None => FACTION_NONE,
        }
    }

    /// The terrain of the cell.
    pub closed spec fn kind(self) -> CellType {
        self.m_type
    }

    /// The faction and id of the insect on the cell.
    pub closed spec fn occupant(self) -> Option<(Faction, Id)> {
        self.occupied
    }

    /// The terrain of the cell.
    pub fn cell_type(&self) -> (r: CellType)
        ensures
            r == self.kind(),
    {
        self.m_type
    }

    pub fn is_type(&self, flag: CellType) -> (r: bool)
        ensures
            r == (self.kind() == flag),
    {
        self.m_type == flag
    }

    /// Puts `flag` on the cell if it is empty; a cell that holds anything
    /// keeps it.
    pub fn set_type(&mut self, flag: CellType)
        ensures
            final(self).kind() == (if old(self).kind() == CellType::Empty {
                flag
            } else {
                old(self).kind()
            }),
            final(self).occupant() == old(self).occupant(),
    {
        if self.m_type == CellType::Empty {
            self.m_type = flag
        }
    }

    /// Takes `flag` off the cell, leaving it empty, if that is what it holds.
    pub fn take_type(&mut self, flag: CellType) -> (r: Option<()>)
        ensures
            r.is_some() == (old(self).kind() == flag),
            final(self).kind() == (if old(self).kind() == flag {
                CellType::Empty
            } else {
                old(self).kind()
            }),
            final(self).occupant() == old(self).occupant(),
    {
        if self.is_type(flag) {
            self.m_type = CellType::Empty;
            Some(())
        } else {
            None
        }
    }

    /// The occupant's faction, or `FACTION_NONE`.
    pub fn occupied_faction(&self) -> (r: Faction)
        ensures
            r == self.faction_seen(),
    {
        match self.occupied {
            Some((faction, _id)) => faction,
            None => FACTION_NONE,
        }
    }

    /// The occupant's id, or zero.
    pub fn occupied_id(&self) -> (r: Id)
        ensures
            r == self.occupied_id_spec(),
    {
        match self.occupied {
            Some((_faction, id)) => id,
            None => 0,
        }
    }

    /// Tries to stand on the cell. A rock is solid. A cell held by the same
    /// faction is shared (it keeps its first occupant); one held by another
    /// faction means a fight with its occupant.
    pub fn try_occupy(&mut self, faction: Faction, id: Id) -> (r: Result<(), OccupyError>)
        ensures
            final(self).kind() == old(self).kind(),
            (r, final(self).occupant()) == old(self).occupy_outcome(faction, id),
    {
        if self.m_type == CellType::Rock {
            return Err(OccupyError::Solid);
        }
        if let Some((my_faction, my_id)) = self.occupied {
            if my_faction == faction {
                return Ok(());
            } else {
                return Err(OccupyError::Fight(my_id));
            }
        }
        self.occupied = Some((faction, id));
        Ok(())
    }

    /// Leaves the cell, if this very insect holds it. Always succeeds.
    pub fn free(&mut self, faction: Faction, id: Id) -> (r: Result<(), OccupyError>)
        ensures
            r is Ok,
            final(self).kind() == old(self).kind(),
            final(self).occupant() == old(self).freed(faction, id),
    {
        if let Some((my_faction, my_id)) = self.occupied {
            if my_faction == faction && my_id == id {
                self.occupied = None;
            }
        }
        Ok(())
    }
}

/// What an insect sees of a cell: its terrain and the occupant's faction.
#[derive(Debug, Clone, Copy, PartialEq, Eq, Structural)]
pub struct Sight {
    pub cell_type: CellType,
    pub faction: Faction,
}

impl Sight {
    pub fn new(cell_type: CellType, faction: Faction) -> (r: Sight)
        ensures
            r == (Sight { cell_type, faction }),
    {
        Sight { cell_type, faction }
    }
}

/// Why a cell cannot be entered.
#[derive(Debug, Clone, Copy, PartialEq, Eq, Structural)]
pub enum OccupyError {
    /// A rock, or beyond the map's edge.
    Solid,
    /// Held by an insect of another faction, with this id.
    Fight(Id),
}

/// The largest width or height a map may have.
pub const MAX_MAP_DIM: i16 = 0x4000;

/// The world the insects live on.
pub struct WorldMap {
    /// The cells, row by row: `occupied[y][x]`.
    pub occupied: Vec<Vec<Cell>>,
    pub size: Pos,
    /// One scent grid per colony faction.
    pub scent_grids: Vec<ScentGrid>,
}

impl WorldMap {
    /// The cells as rows of cells.
    pub open spec fn grid(self) -> Seq<Seq<Cell>> {
        self.occupied@.map_values(|row: Vec<Cell>| row@)
    }

    pub open spec fn valid(self, p: Pos) -> bool {
        0 <= p.x < self.size.x && 0 <= p.y < self.size.y
    }

    pub open spec fn cell(self, p: Pos) -> Cell {
        self.grid()[p.y as int][p.x as int]
    }

    /// The grid has the map's size and there is one scent grid of the same
    /// size per colony faction.
    pub open spec fn wf(self) -> bool {
        &&& 0 <= self.size.x <= MAX_MAP_DIM
        &&& 0 <= self.size.y <= MAX_MAP_DIM
        &&& self.grid().len() == self.size.y
        &&& forall|y: int| 0 <= y < self.size.y ==> (#[trigger] self.grid()[y]).len() == self.size.x
        &&& self.scent_grids@.len() == 3
        &&& forall|i: int| 0 <= i < 3 ==> (#[trigger] self.scent_grids@[i]).dims() == self.size
            && self.scent_grids@[i].cells().len() == self.size.x * self.size.y
    }

    pub fn is_valid(&self, pos: Pos) -> (r: bool)
        ensures
            r == self.valid(pos),
    {
        pos.x >= 0 && pos.x < self.size.x && pos.y >= 0 && pos.y < self.size.y
    }

    pub fn get_cell(&self, pos: Pos) -> (r: Option<&Cell>)
        requires
            self.wf(),
        ensures
            self.valid(pos) ==> r == Some(&self.cell(pos)),
            !self.valid(pos) ==> r.is_none(),
    {
        if self.is_valid(pos) {
            Some(&self.occupied[pos.y as usize][pos.x as usize])
        } else {
            None
        }
    }

    pub fn get_cell_mut(&mut self, pos: Pos) -> (r: Option<&mut Cell>)
        requires
            old(self).wf(),
        ensures
            final(self).size == old(self).size,
            final(self).scent_grids == old(self).scent_grids,
            old(self).valid(pos) ==> {
                &&& r.is_some()
                &&& *r.unwrap() == old(self).cell(pos)
                &&& final(self).grid() == old(self).grid_with(pos, *final(r.unwrap()))
            },
            !old(self).valid(pos) ==> r.is_none() && final(self).grid() == old(self).grid(),
    {
        if self.is_valid(pos) {
            Some(&mut self.occupied[pos.y as usize][pos.x as usize])
        } else {
            None
        }
    }

    /// The grid with the cell at `p` replaced.
    pub open spec fn grid_with(self, p: Pos, c: Cell) -> Seq<Seq<Cell>> {
        grid_set(self.grid(), p, c)
    }

    /// A random position on the map.
    pub fn rand_pos(&self) -> (r: Pos)
        requires
            self.wf(),
        ensures
            self.size.x > 0 && self.size.y > 0 ==> self.valid(r),
            0 <= r.x <= self.size.x,
            0 <= r.y <= self.size.y,
    {
        Pos::rand(self.size)
    }

    /// What [`WorldMap::occupy`] does: the map becomes `m` and `r` is the
    /// answer. Beyond the map's edge everything is solid; on the map the cell
    /// answers as [`Cell::try_occupy`] does.
    pub open spec fn occupy_effect(self, p: Pos, occupant: (Faction, Id), m: WorldMap, r: Result<(), OccupyError>) -> bool {
        &&& m.size == self.size
        &&& m.scent_grids == self.scent_grids
        &&& !self.valid(p) ==> r == Err::<(), OccupyError>(OccupyError::Solid) && m.grid() == self.grid()
        &&& self.valid(p) ==> {
            let c = m.cell(p);
            &&& m.grid() == self.grid_with(p, c)
            &&& c.kind() == self.cell(p).kind()
            &&& (r, c.occupant()) == self.cell(p).occupy_outcome(occupant.0, occupant.1)
        }
    }

    /// What [`WorldMap::free`] does: the map becomes `m` and `r` is the
    /// answer. Beyond the map's edge it fails as solid; on the map the cell
    /// is left as [`Cell::free`] leaves it.
    pub open spec fn free_effect(self, p: Pos, occupant: (Faction, Id), m: WorldMap, r: Result<(), OccupyError>) -> bool {
        &&& m.size == self.size
        &&& m.scent_grids == self.scent_grids
        &&& !self.valid(p) ==> r == Err::<(), OccupyError>(OccupyError::Solid) && m.grid() == self.grid()
        &&& self.valid(p) ==> {
            let c = m.cell(p);
            &&& r is Ok
            &&& m.grid() == self.grid_with(p, c)
            &&& c.kind() == self.cell(p).kind()
            &&& c.occupant() == self.cell(p).freed(occupant.0, occupant.1)
        }
    }

    /// Puts the insect `(faction, id)` on the cell at `pos`, as
    /// [`Cell::try_occupy`] does; beyond the map's edge everything is solid.
    pub fn occupy(&mut self, next_pos: Pos, occupant: (Faction, Id)) -> (r: Result<(), OccupyError>)
        requires
            old(self).wf(),
        ensures
            final(self).wf(),
            old(self).occupy_effect(next_pos, occupant, *final(self), r),
    {
        let (faction, id) = occupant;
        match self.get_cell_mut(next_pos) {
            Some(cell) => cell.try_occupy(faction, id),
            None => Err(OccupyError::Solid),
        }
    }

    /// Takes the insect `(faction, id)` off the cell at `pos`, as
    /// [`Cell::free`] does; beyond the map's edge it fails as solid.
    pub fn free(&mut self, next_pos: Pos, occupant: (Faction, Id)) -> (r: Result<(), OccupyError>)
        requires
            old(self).wf(),
        ensures
            final(self).wf(),
            old(self).free_effect(next_pos, occupant, *final(self), r),
    {
        let (faction, id) = occupant;
        match self.get_cell_mut(next_pos) {
            Some(cell) => cell.free(faction, id),
            None => Err(OccupyError::Solid),
        }
    }

    /// What is seen at `pos`: the cell's terrain and occupant's faction, or a
    /// wall beyond the map's edge.
    pub fn sight(&self, pos: Pos) -> (r: Sight)
        requires
            self.wf(),
        ensures
            r == self.sight_at(pos),
    {
        match self.get_cell(pos) {
            Some(cell) => Sight::new(cell.m_type, cell.occupied_faction()),
            None => Sight::new(CellType::Wall, FACTION_NONE),
        }
    }

    pub open spec fn sight_at(self, pos: Pos) -> Sight {
        if self.valid(pos) {
            Sight { cell_type: self.cell(pos).kind(), faction: self.cell(pos).faction_seen() }
        } else {
            Sight { cell_type: CellType::Wall, faction: FACTION_NONE }
        }
    }

    /// The scent grid of a colony faction (there is one for each of the
    /// first three factions; any other faction has none).
    pub fn get_scent_grid(&self, faction: Faction) -> (r: &ScentGrid)
        requires
            (faction as int) < self.scent_grids@.len(),
        ensures
            *r == self.scent_grids@[faction as int],
    {
        &self.scent_grids[faction as usize]
    }

    pub fn get_scent_grid_mut(&mut self, faction: Faction) -> (r: &mut ScentGrid)
        requires
            (faction as int) < old(self).scent_grids@.len(),
        ensures
            *r == old(self).scent_grids@[faction as int],
            final(self).scent_grids@ == old(self).scent_grids@.update(faction as int, *final(r)),
            final(self).occupied == old(self).occupied,
            final(self).size == old(self).size,
    {
        &mut self.scent_grids[faction as usize]
    }

    /// A new world: `MAP_SIZE` square, nobody on it, only empty ground, rock
    /// and food, and no scent anywhere.
    pub open spec fn is_fresh(self) -> bool {
        &&& self.size == (Pos { x: MAP_SIZE, y: MAP_SIZE })
        &&& forall|p: Pos| #[trigger] self.valid(p) ==> {
            &&& self.cell(p).occupant().is_none()
            &&& self.cell(p).kind() == CellType::Empty || self.cell(p).kind() == CellType::Rock || self.cell(p).kind() == CellType::Food
        }
        &&& forall|g: int, i: int| 0 <= g < 3 && 0 <= i < self.scent_grids@[g].cells().len()
            ==> (#[trigger] self.scent_grids@[g].cells()[i]).levels() == seq![0u8, 0u8, 0u8]
    }

    /// A `MAP_SIZE` by `MAP_SIZE` map of empty, free cells.
    pub open spec fn is_blank(self) -> bool {
        &&& self.size == (Pos { x: MAP_SIZE, y: MAP_SIZE })
        &&& forall|p: Pos| #[trigger] self.valid(p) ==> {
            &&& self.cell(p).kind() == CellType::Empty
            &&& self.cell(p).occupant().is_none()
        }
    }

    /// How [`WorldMap::new`] made this map: on the blank map `ms[0]`, bunches
    /// of rock were dropped along the ten walks `rocks` (giving the maps
    /// `ms`), then bunches of food along the ten walks `foods` (giving `ns`),
    /// and this map is the last of them.
    pub open spec fn generated_from(
        self,
        ms: Seq<WorldMap>,
        rocks: Seq<Seq<Pos>>,
        ns: Seq<WorldMap>,
        foods: Seq<Seq<Pos>>,
    ) -> bool {
        &&& rocks.len() == 10
        &&& foods.len() == 10
        &&& ms[0].is_blank()
        &&& bunches_dropped(ms, rocks, CellType::Rock)
        &&& ns[0] == ms[10]
        &&& bunches_dropped(ns, foods, CellType::Food)
        &&& ns[10] == self
    }

    /// This map was made as [`WorldMap::new`] makes maps.
    pub open spec fn is_generated(self) -> bool {
        exists|ms: Seq<WorldMap>, rocks: Seq<Seq<Pos>>, ns: Seq<WorldMap>, foods: Seq<Seq<Pos>>|
            #[trigger] self.generated_from(ms, rocks, ns, foods)
    }

    /// A map of `MAP_SIZE` by `MAP_SIZE` empty cells, with no scents, on
    /// which ten bunches of rocks and then ten bunches of food are dropped.
    pub fn new() -> (r: WorldMap)
        ensures
            r.wf(),
            r.is_fresh(),
            r.is_generated(),
    {
        let size = Pos::new(MAP_SIZE, MAP_SIZE);
        let mut occupied: Vec<Vec<Cell>> = Vec::new();
        let mut y: i16 = 0;
        while y < MAP_SIZE
            invariant
                0 <= y <= MAP_SIZE,
                occupied@.len() == y,
                forall|j: int| 0 <= j < y ==> (#[trigger] occupied@[j])@.len() == MAP_SIZE,
                forall|j: int, i: int| 0 <= j < y && 0 <= i < MAP_SIZE ==> (#[trigger] occupied@[j]@[i]).kind()
                    == CellType::Empty && occupied@[j]@[i].occupant().is_none(),
            decreases MAP_SIZE - y,
        {
            let mut row: Vec<Cell> = Vec::new();
            let mut x: i16 = 0;
            while x < MAP_SIZE
                invariant
                    0 <= x <= MAP_SIZE,
                    row@.len() == x,
                    forall|i: int| 0 <= i < x ==> (#[trigger] row@[i]).kind() == CellType::Empty
                        && row@[i].occupant().is_none(),
                decreases MAP_SIZE - x,
            {
                row.push(Cell::default());
                x += 1;
            }
            occupied.push(row);
            y += 1;
        }
        let mut scent_grids: Vec<ScentGrid> = Vec::new();
        scent_grids.push(ScentGrid::new(size));
        scent_grids.push(ScentGrid::new(size));
        scent_grids.push(ScentGrid::new(size));
        let mut map = WorldMap { occupied, size, scent_grids };
        assert(forall|j: int| 0 <= j < MAP_SIZE ==> #[trigger] map.grid()[j] == map.occupied@[j]@);
        assert(map.is_blank());
        let ghost mut ms: Seq<WorldMap> = seq![map];
        let ghost mut rocks: Seq<Seq<Pos>> = Seq::empty();
        let mut k: u32 = 0;
        while k < 10
            invariant
                map.wf(),
                map.size == size,
                size == (Pos { x: MAP_SIZE, y: MAP_SIZE }),
                k <= 10,
                ms.len() == k + 1,
                rocks.len() == k,
                ms[0].is_blank(),
                ms.last() == map,
                bunches_dropped(ms, rocks, CellType::Rock),
                forall|p: Pos| #[trigger] map.valid(p) ==> {
                    &&& map.cell(p).occupant().is_none()
                    &&& map.cell(p).kind() == CellType::Empty || map.cell(p).kind() == CellType::Rock
                },
                forall|g: int, i: int| 0 <= g < 3 && 0 <= i < map.scent_grids@[g].cells().len()
                    ==> (#[trigger] map.scent_grids@[g].cells()[i]).levels() == seq![0u8, 0u8, 0u8],
            decreases 10 - k,
        {
            let ghost before = map;
            map.drop_rand_bunch(CellType::Rock);
            assert forall|p: Pos| #[trigger] map.valid(p) implies before.valid(p) by {}
            proof {
                assert(before.size.x > 0 && before.size.y > 0);
                let path = choose|path: Seq<Pos>| #[trigger] before.cells_dropped(path, CellType::Rock, map) && before.drop_walk(path);
                lemma_bunches_extend(ms, rocks, CellType::Rock, path, map);
                ms = ms.push(map);
                rocks = rocks.push(path);
            }
            k += 1;
        }
        assert(k == 10);
        assert(ms.len() == 11 && ms[10] == map);
        let ghost ms_done = ms;
        let ghost rocks_done = rocks;
        let ghost mut ns: Seq<WorldMap> = seq![map];
        let ghost mut foods: Seq<Seq<Pos>> = Seq::empty();
        let mut k: u32 = 0;
        while k < 10
            invariant
                map.wf(),
                map.size == size,
                size == (Pos { x: MAP_SIZE, y: MAP_SIZE }),
                k <= 10,
                ns.len() == k + 1,
                foods.len() == k,
                ns[0] == ms_done[10],
                ns.last() == map,
                bunches_dropped(ns, foods, CellType::Food),
                ms_done[0].is_blank(),
                ms_done.len() == 11,
                rocks_done.len() == 10,
                bunches_dropped(ms_done, rocks_done, CellType::Rock),
                forall|p: Pos| #[trigger] map.valid(p) ==> {
                    &&& map.cell(p).occupant().is_none()
                    &&& map.cell(p).kind() == CellType::Empty || map.cell(p).kind() == CellType::Rock || map.cell(p).kind() == CellType::Food
                },
                forall|g: int, i: int| 0 <= g < 3 && 0 <= i < map.scent_grids@[g].cells().len()
                    ==> (#[trigger] map.scent_grids@[g].cells()[i]).levels() == seq![0u8, 0u8, 0u8],
            decreases 10 - k,
        {
            let ghost before = map;
            map.drop_rand_bunch(CellType::Food);
            assert forall|p: Pos| #[trigger] map.valid(p) implies before.valid(p) by {}
            proof {
                assert(before.size.x > 0 && before.size.y > 0);
                let path = choose|path: Seq<Pos>| #[trigger] before.cells_dropped(path, CellType::Food, map) && before.drop_walk(path);
                lemma_bunches_extend(ns, foods, CellType::Food, path, map);
                ns = ns.push(map);
                foods = foods.push(path);
            }
            k += 1;
        }
        assert(map.generated_from(ms_done, rocks_done, ns, foods));
        map
    }

    /// The walk `path` goes on from its `i`-th cell to the next by one step
    /// in one of the eight directions, or stays where a step leaves the map.
    pub open spec fn walk_step(self, path: Seq<Pos>, i: int) -> bool {
        ||| is_dir(path[i + 1].minus(path[i]))
        ||| (path[i + 1] == path[i] && exists|d: Pos| #[trigger] is_dir(d) && !self.valid(path[i].plus(d)))
    }

    /// `path` is the walk from its first cell by the directions `steps`
    /// ([`WorldMap::walk_of`]).
    pub open spec fn walk_along(self, path: Seq<Pos>, steps: Seq<Pos>) -> bool {
        &&& steps.len() == path.len()
        &&& forall|k: int| 0 <= k < steps.len() ==> is_dir(#[trigger] steps[k])
        &&& path == self.walk_of(path[0], steps)
    }

    /// `path` is a walk on the map fit for a bunch: `FOOD_DROP_MIN` to
    /// `FOOD_DROP_MAX - 1` cells from a cell of the map, each the one before
    /// moved by a direction, or the one before where that direction would
    /// leave the map.
    pub open spec fn drop_walk(self, path: Seq<Pos>) -> bool {
        &&& FOOD_DROP_MIN <= path.len() < FOOD_DROP_MAX
        &&& self.valid(path[0])
        &&& exists|steps: Seq<Pos>| #[trigger] self.walk_along(path, steps)
    }

    /// The cells of `m2` are those of `self` with `t` dropped along `path`:
    /// an empty cell on the path holds `t`; every occupant stays, and every
    /// other cell is unchanged.
    pub open spec fn cells_dropped(self, path: Seq<Pos>, t: CellType, m2: WorldMap) -> bool {
        forall|p: Pos| #[trigger] self.valid(p) ==> {
            &&& m2.cell(p).occupant() == self.cell(p).occupant()
            &&& m2.cell(p).kind() == if path.contains(p) && self.cell(p).kind() == CellType::Empty {
                t
            } else {
                self.cell(p).kind()
            }
        }
    }

    /// Where the walk from `start` by `steps` stands after `n` of them: each
    /// step moves it by the offset, unless that leaves the map, where it
    /// stays.
    pub open spec fn walk_pos(self, start: Pos, steps: Seq<Pos>, n: nat) -> Pos
        decreases n,
    {
        if n == 0 {
            start
        } else {
            let p = self.walk_pos(start, steps, (n - 1) as nat);
            let q = p.plus(steps[n - 1]);
            if self.valid(q) {
                q
            } else {
                p
            }
        }
    }

    /// The cells the walk from `start` by `steps` drops on, one per step:
    /// the `i`-th is where it stands after `i` steps.
    pub open spec fn walk_of(self, start: Pos, steps: Seq<Pos>) -> Seq<Pos> {
        Seq::new(steps.len(), |i: int| self.walk_pos(start, steps, i as nat))
    }

    /// Drops a bunch of `t` along the walk from `start` by the directions
    /// `steps` ([`WorldMap::walk_of`]): at each step it puts `t` on the walk's
    /// cell if that is empty, then moves by the step unless that leaves the
    /// map.
    pub fn drop_bunch_along(&mut self, t: CellType, start: Pos, steps: &Vec<Pos>)
        requires
            old(self).wf(),
            old(self).valid(start),
            forall|i: int| 0 <= i < steps@.len() ==> is_dir(#[trigger] steps@[i]),
        ensures
            final(self).wf(),
            final(self).size == old(self).size,
            final(self).scent_grids == old(self).scent_grids,
            forall|p: Pos| #[trigger] old(self).valid(p) ==> dropped_onto(old(self).cell(p), final(self).cell(p), t),
            old(self).cells_dropped(old(self).walk_of(start, steps@), t, *final(self)),
            FOOD_DROP_MIN <= steps@.len() < FOOD_DROP_MAX ==> old(self).drop_walk(old(self).walk_of(start, steps@)),
    {
        let ghost m0 = *self;
        let ghost st = steps@;
        let mut pos = start;
        let ghost mut path: Seq<Pos> = Seq::empty();
        let n = steps.len();
        let mut i: usize = 0;
        while i < n
            invariant
                self.wf(),
                self.size == m0.size,
                self.scent_grids == m0.scent_grids,
                m0.wf(),
                n == st.len(),
                st == steps@,
                forall|k: int| 0 <= k < st.len() ==> is_dir(#[trigger] st[k]),
                i <= n,
                path.len() == i,
                pos == m0.walk_pos(start, st, i as nat),
                m0.valid(pos),
                forall|j: int| 0 <= j < i ==> #[trigger] path[j] == m0.walk_pos(start, st, j as nat),
                m0.cells_dropped(path, t, *self),
                forall|p: Pos| #[trigger] m0.valid(p) ==> dropped_onto(m0.cell(p), self.cell(p), t),
            decreases n - i,
        {
            let ghost before = *self;
            let ghost prev = path;
            match self.get_cell_mut(pos) {
                Some(cell) => {
                    cell.set_type(t);
                },
                None => {},
            }
            proof {
                path = path.push(pos);
                assert forall|p: Pos| #[trigger] m0.valid(p) implies {
                    &&& self.cell(p).occupant() == m0.cell(p).occupant()
                    &&& self.cell(p).kind() == if path.contains(p) && m0.cell(p).kind() == CellType::Empty {
                        t
                    } else {
                        m0.cell(p).kind()
                    }
                } by {
                    assert(before.valid(p));
                    if p.x != pos.x || p.y != pos.y {
                        assert(self.cell(p) == before.cell(p));
                        assert(p != pos);
                        assert(path.contains(p) == prev.contains(p)) by {
                            if path.contains(p) {
                                let j = choose|j: int| 0 <= j < path.len() && path[j] == p;
                                assert(path[prev.len() as int] == pos);
                                assert(j < prev.len());
                                assert(prev[j] == p);
                            }
                            if prev.contains(p) {
                                let j = choose|j: int| 0 <= j < prev.len() && prev[j] == p;
                                assert(path[j] == p);
                            }
                        }
                    } else {
                        assert(p == pos);
                        assert(path[path.len() - 1] == p);
                        if prev.contains(p) {
                            assert(before.cell(p).kind() == (if m0.cell(p).kind() == CellType::Empty { t } else { m0.cell(p).kind() }));
                        }
                    }
                }
                assert forall|p: Pos| #[trigger] m0.valid(p) implies dropped_onto(m0.cell(p), self.cell(p), t) by {
                    assert(before.valid(p));
                    if p.x != pos.x || p.y != pos.y {
                        assert(self.cell(p) == before.cell(p));
                    }
                }
            }
            let step = steps[i];
            proof {
                assert(is_dir(st[i as int]));
            }
            let new_pos = pos.add(step);
            if self.is_valid(new_pos) {
                pos = new_pos;
            }
            i += 1;
            proof {
                assert(pos == m0.walk_pos(start, st, i as nat));
            }
        }
        proof {
            assert(path =~= m0.walk_of(start, st));
            if FOOD_DROP_MIN <= st.len() < FOOD_DROP_MAX {
                lemma_walk_is_drop_walk(m0, start, st);
            }
        }
    }

    /// Drops a bunch of `t` along a random walk from a random cell: at each
    /// of 20 to 69 steps it puts `t` on the walk's cell if that is empty,
    /// then moves in a random direction unless that leaves the map. The
    /// start, the length and the directions are drawn here; see
    /// [`WorldMap::drop_bunch_along`].
    pub fn drop_rand_bunch(&mut self, t: CellType)
        requires
            old(self).wf(),
        ensures
            final(self).wf(),
            final(self).size == old(self).size,
            final(self).scent_grids == old(self).scent_grids,
            forall|p: Pos| #[trigger] old(self).valid(p) ==> dropped_onto(old(self).cell(p), final(self).cell(p), t),
            old(self).size.x > 0 && old(self).size.y > 0 ==> exists|path: Seq<Pos>|
                #[trigger] old(self).cells_dropped(path, t, *final(self)) && old(self).drop_walk(path),
            !(old(self).size.x > 0 && old(self).size.y > 0) ==> final(self).grid() == old(self).grid(),
    {
        let start = self.rand_pos();
        let count = gen_range_u32(FOOD_DROP_MIN, FOOD_DROP_MAX);
        if self.size.x <= 0 || self.size.y <= 0 {
            return;
        }
        let mut steps: Vec<Pos> = Vec::new();
        let mut i: u32 = 0;
        while i < count
            invariant
                i <= count,
                steps@.len() == i,
                forall|k: int| 0 <= k < steps@.len() ==> is_dir(#[trigger] steps@[k]),
            decreases count - i,
        {
            steps.push(dirs::rand());
            i += 1;
        }
        let ghost m0 = *self;
        self.drop_bunch_along(t, start, &steps);
        proof {
            lemma_walk_is_drop_walk(m0, start, steps@);
            let path = m0.walk_of(start, steps@);
            assert(m0.cells_dropped(path, t, *self) && m0.drop_walk(path));
        }
    }

    /// What [`WorldMap::update`] does, `self` becoming `m2`: the cells stay
    /// as they were, or a bunch of food falls along a walk (see
    /// [`WorldMap::drop_rand_bunch`]); and every scent on every grid fades.
    pub open spec fn ticked(self, m2: WorldMap) -> bool {
        &&& m2.size == self.size
        &&& (m2.grid() == self.grid() || exists|path: Seq<Pos>|
            #[trigger] self.cells_dropped(path, CellType::Food, m2) && self.drop_walk(path))
        &&& forall|p: Pos| #[trigger] self.valid(p) ==> dropped_onto(self.cell(p), m2.cell(p), CellType::Food)
        &&& m2.scent_grids@.len() == self.scent_grids@.len()
        &&& forall|g: int| 0 <= g < self.scent_grids@.len() ==> {
            &&& (#[trigger] m2.scent_grids@[g]).dims() == self.scent_grids@[g].dims()
            &&& m2.scent_grids@[g].cells().len() == self.scent_grids@[g].cells().len()
            &&& forall|i: int| 0 <= i < self.scent_grids@[g].cells().len()
                ==> (#[trigger] m2.scent_grids@[g].cells()[i]).levels() == self.scent_grids@[g].cells()[i].faded()
        }
    }

    /// One tick of the world: one chance in `FOOD_DROP_ODDS` that a bunch of
    /// food falls, and every scent on every grid fades. The chance is drawn
    /// here and returned; see [`WorldMap::update_with`].
    pub fn update(&mut self) -> (draw: u32)
        requires
            old(self).wf(),
        ensures
            final(self).wf(),
            old(self).ticked(*final(self)),
            draw < FOOD_DROP_ODDS,
            old(self).updated_with(draw, *final(self)),
    {
        let draw = gen_range_u32(0, FOOD_DROP_ODDS);
        self.update_with(draw);
        draw
    }

    /// What [`WorldMap::update_with`] does for the draw `draw`, `self`
    /// becoming `m2`: a world tick ([`WorldMap::ticked`]) in which a zero
    /// draw drops a bunch of food along a walk and any other draw leaves
    /// every cell as it was.
    pub open spec fn updated_with(self, draw: u32, m2: WorldMap) -> bool {
        &&& self.ticked(m2)
        &&& draw == 0 && self.size.x > 0 && self.size.y > 0 ==> exists|path: Seq<Pos>|
            #[trigger] self.cells_dropped(path, CellType::Food, m2) && self.drop_walk(path)
        &&& draw != 0 ==> m2.grid() == self.grid()
    }

    /// One tick of the world for the draw `draw` from `[0, FOOD_DROP_ODDS)`:
    /// a draw of zero drops a bunch of food along a random walk, any other
    /// leaves the cells as they are; every scent on every grid fades.
    pub fn update_with(&mut self, draw: u32)
        requires
            old(self).wf(),
        ensures
            final(self).wf(),
            old(self).ticked(*final(self)),
            draw == 0 && old(self).size.x > 0 && old(self).size.y > 0 ==> exists|path: Seq<Pos>|
                #[trigger] old(self).cells_dropped(path, CellType::Food, *final(self)) && old(self).drop_walk(path),
            draw != 0 ==> final(self).grid() == old(self).grid(),
            old(self).updated_with(draw, *final(self)),
    {
        if draw == 0 {
            self.drop_rand_bunch(CellType::Food);
            proof {
                if old(self).size.x > 0 && old(self).size.y > 0 {
                    let path = choose|path: Seq<Pos>| #[trigger] old(self).cells_dropped(path, CellType::Food, *self) && old(self).drop_walk(path);
                    assert(old(self).cells_dropped(path, CellType::Food, *self));
                }
            }
        } else {
            assert forall|p: Pos| #[trigger] old(self).valid(p) implies dropped_onto(old(self).cell(p), self.cell(p), CellType::Food) by {}
        }
        let ghost mid = *self;
        let n = self.scent_grids.len();
        let mut g: usize = 0;
        while g < n
            invariant
                g <= n == self.scent_grids@.len() == mid.scent_grids@.len(),
                self.occupied == mid.occupied,
                self.size == mid.size,
                mid.wf(),
                forall|j: int| 0 <= j < g ==> {
                    &&& (#[trigger] self.scent_grids@[j]).dims() == mid.scent_grids@[j].dims()
                    &&& self.scent_grids@[j].cells().len() == mid.scent_grids@[j].cells().len()
                    &&& forall|i: int| 0 <= i < mid.scent_grids@[j].cells().len()
                        ==> (#[trigger] self.scent_grids@[j].cells()[i]).levels() == mid.scent_grids@[j].cells()[i].faded()
                },
                forall|j: int| g <= j < n ==> #[trigger] self.scent_grids@[j] == mid.scent_grids@[j],
            decreases n - g,
        {
            self.scent_grids[g].update_cells();
            g += 1;
        }
        proof {
            if mid.grid() != old(self).grid() {
                let path = choose|path: Seq<Pos>| #[trigger] old(self).cells_dropped(path, CellType::Food, mid) && old(self).drop_walk(path);
                assert(old(self).cells_dropped(path, CellType::Food, *self));
            }
        }
    }
}

/// Each map of `ms` is the one before it with a bunch of `t` dropped along
/// the matching walk of `walks`.
pub open spec fn bunches_dropped(ms: Seq<WorldMap>, walks: Seq<Seq<Pos>>, t: CellType) -> bool {
    &&& ms.len() == walks.len() + 1
    &&& forall|i: int| 0 <= i < walks.len() ==> {
        &&& #[trigger] ms[i].drop_walk(walks[i])
        &&& ms[i].cells_dropped(walks[i], t, ms[i + 1])
    }
}

/// One more bunch extends the chain.
proof fn lemma_bunches_extend(ms: Seq<WorldMap>, walks: Seq<Seq<Pos>>, t: CellType, path: Seq<Pos>, m2: WorldMap)
    requires
        bunches_dropped(ms, walks, t),
        ms.last().drop_walk(path),
        ms.last().cells_dropped(path, t, m2),
    ensures
        bunches_dropped(ms.push(m2), walks.push(path), t),
{
    let ms2 = ms.push(m2);
    let ws2 = walks.push(path);
    assert forall|i: int| 0 <= i < ws2.len() implies {
        &&& #[trigger] ms2[i].drop_walk(ws2[i])
        &&& ms2[i].cells_dropped(ws2[i], t, ms2[i + 1])
    } by {
        if i < walks.len() {
            assert(ms2[i] == ms[i] && ws2[i] == walks[i] && ms2[i + 1] == ms[i + 1]);
        } else {
            assert(ms2[i] == ms.last() && ws2[i] == path && ms2[i + 1] == m2);
        }
    }
}

/// Every cell of a walk on a map is on the map.
proof fn lemma_walk_pos_valid(m: WorldMap, start: Pos, steps: Seq<Pos>, n: nat)
    requires
        m.valid(start),
        n <= steps.len(),
    ensures
        m.valid(m.walk_pos(start, steps, n)),
    decreases n,
{
    if n > 0 {
        lemma_walk_pos_valid(m, start, steps, (n - 1) as nat);
    }
}

/// A walk by `FOOD_DROP_MIN` to `FOOD_DROP_MAX - 1` directions from a cell
/// of the map is a walk fit for a bunch.
pub proof fn lemma_walk_is_drop_walk(m: WorldMap, start: Pos, steps: Seq<Pos>)
    requires
        m.valid(start),
        FOOD_DROP_MIN <= steps.len() < FOOD_DROP_MAX,
        forall|k: int| 0 <= k < steps.len() ==> is_dir(#[trigger] steps[k]),
    ensures
        m.drop_walk(m.walk_of(start, steps)),
{
    let path = m.walk_of(start, steps);
    assert(path[0] == start);
    assert(m.walk_along(path, steps));
}

/// A walk fit for a bunch stays on the map and moves at every step by one of
/// the eight directions, except where the drawn direction would leave the
/// map.
pub proof fn lemma_drop_walk_moves(m: WorldMap, path: Seq<Pos>)
    requires
        m.drop_walk(path),
    ensures
        forall|i: int| 0 <= i < path.len() ==> m.valid(#[trigger] path[i]),
        forall|i: int| 0 <= i < path.len() - 1 ==> #[trigger] m.walk_step(path, i),
{
    let steps = choose|steps: Seq<Pos>| #[trigger] m.walk_along(path, steps);
    let start = path[0];
    assert forall|i: int| 0 <= i < path.len() implies m.valid(#[trigger] path[i]) by {
        lemma_walk_pos_valid(m, start, steps, i as nat);
    }
    assert forall|i: int| 0 <= i < path.len() - 1 implies #[trigger] m.walk_step(path, i) by {
        lemma_walk_pos_valid(m, start, steps, i as nat);
        let p = m.walk_pos(start, steps, i as nat);
        let q = p.plus(steps[i]);
        assert(path[i] == p);
        assert(path[i + 1] == m.walk_pos(start, steps, (i + 1) as nat));
        assert(is_dir(steps[i]));
        if m.valid(q) {
            assert(q.minus(p) == steps[i]);
        } else {
            assert(is_dir(steps[i]) && !m.valid(path[i].plus(steps[i])));
        }
    }
}

/// A zero draw makes food fall: on a map of empty cells, a world tick with a
/// draw of zero leaves food on some cell (at least the first cell of the
/// walk), so the cells change.
pub proof fn law_zero_draw_drops_food(m: WorldMap, m2: WorldMap)
    requires
        m.updated_with(0, m2),
        m.size.x > 0,
        m.size.y > 0,
        forall|p: Pos| #[trigger] m.valid(p) ==> m.cell(p).kind() == CellType::Empty,
    ensures
        exists|p: Pos| #[trigger] m.valid(p) && m2.cell(p).kind() == CellType::Food,
        m2.grid() != m.grid(),
{
    let path = choose|path: Seq<Pos>| #[trigger] m.cells_dropped(path, CellType::Food, m2) && m.drop_walk(path);
    let p = path[0];
    assert(path.contains(p));
    assert(m.valid(p));
    assert(m2.cell(p).kind() == CellType::Food);
    assert(m2.cell(p) != m.cell(p));
}

/// Only a zero draw drops food: with any other draw every cell stays as it
/// was, and whatever the draw no cell loses its terrain except to food.
pub proof fn law_other_draws_drop_nothing(m: WorldMap, draw: u32, m2: WorldMap)
    requires
        m.updated_with(draw, m2),
    ensures
        draw != 0 ==> forall|p: Pos| #[trigger] m.valid(p) ==> m2.cell(p) == m.cell(p),
        forall|p: Pos| #[trigger] m.valid(p) && m2.cell(p).kind() != m.cell(p).kind() ==> {
            &&& m.cell(p).kind() == CellType::Empty
            &&& m2.cell(p).kind() == CellType::Food
        },
{
}

/// A grid of cells with the cell at `p` replaced.
pub open spec fn grid_set(g: Seq<Seq<Cell>>, p: Pos, c: Cell) -> Seq<Seq<Cell>> {
    g.update(p.y as int, g[p.y as int].update(p.x as int, c))
}

/// A cell is known by its terrain and its occupant.
pub proof fn lemma_cell_ext(a: Cell, b: Cell)
    requires
        a.kind() == b.kind(),
        a.occupant() == b.occupant(),
    ensures
        a == b,
{
}

/// Putting back the cell that is there leaves the grid as it was.
pub proof fn lemma_grid_set_same(g: Seq<Seq<Cell>>, p: Pos)
    requires
        0 <= p.y < g.len(),
        0 <= p.x < g[p.y as int].len(),
    ensures
        grid_set(g, p, g[p.y as int][p.x as int]) == g,
{
    assert(g[p.y as int].update(p.x as int, g[p.y as int][p.x as int]) =~= g[p.y as int]);
    assert(grid_set(g, p, g[p.y as int][p.x as int]) =~= g);
}

/// How a cell may change when a bunch of `t` is dropped on the map: its
/// occupant stays, and its terrain stays unless it was empty and became `t`.
pub open spec fn dropped_onto(before: Cell, after: Cell, t: CellType) -> bool {
    &&& after.occupant() == before.occupant()
    &&& (after.kind() == before.kind() || (before.kind() == CellType::Empty && after.kind() == t))
}

/// An insect that steps onto a free cell and then leaves it leaves the cell
/// as it found it; on ground (not rock) the step succeeds and the insect
/// holds the cell meanwhile.
pub proof fn law_occupy_then_free(
    c1: Cell,
    c2: Cell,
    c3: Cell,
    faction: Faction,
    id: Id,
    r: Result<(), OccupyError>,
)
    requires
        c1.occupant().is_none(),
        c2.kind() == c1.kind(),
        (r, c2.occupant()) == c1.occupy_outcome(faction, id),
        c3.kind() == c2.kind(),
        c3.occupant() == c2.freed(faction, id),
    ensures
        c3 == c1,
        c1.kind() != CellType::Rock ==> r is Ok && c2.occupant() == Some((faction, id)),
{
    lemma_cell_ext(c3, c1);
}

/// Only the insect holding a cell can free it: anyone else leaves the
/// holder in place.
pub proof fn law_free_by_other(c: Cell, faction: Faction, id: Id)
    requires
        c.occupant().is_some(),
        c.occupant() != Some((faction, id)),
    ensures
        c.freed(faction, id) == c.occupant(),
{
}

} // verus!
