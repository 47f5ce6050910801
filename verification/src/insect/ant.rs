//! Ants: pheromone scents, the queen and the workers.
use vstd::prelude::*;
use crate::insect::{ate_at, lemma_perceived_steps, lemma_random_targets_are_steps, BaseInsect, Behaviour, Event, Hunger, Id, Insect, InsectInfo, Interact, Perception};
use crate::map::{CellType, Faction, Sight, WorldMap, FACTION_SPIDER, MAX_MAP_DIM};
use crate::random::rand_u32;
use crate::pos::dirs::{invert, inverted, is_dir};
use crate::pos::Pos;

verus! {

/// The queen of a colony: she turns the food her workers bring into ants.
pub struct AntQueen {}

/// A worker ant.
pub struct Ant {
    /// Food carried back to the nest.
    pub food: Option<()>,
    nest_scent: u8,
    pub food_scent: u8,
    pub attack_scent: u8,
    /// Ticks left before the ant heads home anyway.
    pub timeout: u8,
    /// The queen of the ant's colony.
    pub queen: Id,
}

/// What a worker ant keeps, as contracts see it.
pub struct AntState {
    /// Carrying food back to the nest.
    pub carrying: bool,
    /// The nest scent it lays (full at the nest, fading away from it).
    pub nest_scent: u8,
    pub food_scent: u8,
    pub attack_scent: u8,
    pub timeout: u8,
    pub queen: Id,
}

impl View for Ant {
    type V = AntState;

    closed spec fn view(&self) -> AntState {
        AntState {
            carrying: self.food.is_some(),
            nest_scent: self.nest_scent,
            food_scent: self.food_scent,
            attack_scent: self.attack_scent,
            timeout: self.timeout,
            queen: self.queen,
        }
    }
}

/// The kinds of scent an ant colony lays. `Len` counts them and is no scent.
#[derive(Debug, Clone, Copy, PartialEq, Eq, Structural)]
pub enum Scents {
    Food,
    Nest,
    Attack,
    Len,
}

pub open spec fn scent_index(s: Scents) -> int {
    match s {
        Scents::Food => 0,
        Scents::Nest => 1,
        Scents::Attack => 2,
        Scents::Len => 3,
    }
}

fn scent_slot(s: Scents) -> (r: usize)
    ensures
        r == scent_index(s),
{
    match s {
        Scents::Food => 0,
        Scents::Nest => 1,
        Scents::Attack => 2,
        Scents::Len => 3,
    }
}

/// One less, but not below zero.
pub open spec fn sat_dec(v: u8) -> u8 {
    if v > 0 {
        (v - 1) as u8
    } else {
        0
    }
}

pub open spec fn max_u8(a: u8, b: u8) -> u8 {
    if a > b {
        a
    } else {
        b
    }
}

/// The strength of each scent on one cell.
#[derive(Debug, Clone, Copy)]
pub struct ScentCell {
    scents: [u8; 3],
}

impl ScentCell {
    /// The strengths, indexed by [`scent_index`].
    pub closed spec fn levels(self) -> Seq<u8> {
        self.scents@
    }

    /// There are three levels, one for each scent.
    pub proof fn lemma_levels_len(self)
        ensures
            self.levels().len() == 3,
    {
    }

    /// The level of one scent (`Len` is no scent and has none).
    pub open spec fn level(self, s: Scents) -> u8 {
        self.levels()[scent_index(s)]
    }

    pub fn new() -> (r: ScentCell)
        ensures
            r.levels() == seq![0u8, 0u8, 0u8],
    {
        ScentCell { scents: [0u8, 0u8, 0u8] }
    }


    pub fn get_scent(&self, scent: Scents) -> (r: u8)
        requires
            scent != Scents::Len,
        ensures
            r == self.level(scent),
    {
        self.scents[scent_slot(scent)]
    }

    /// Raises the scent to at least `val`; returns the new level less one
    /// (saturating at zero), the strength to carry on to the next cell.
    pub fn drop_scent(&mut self, scent: Scents, val: u8) -> (r: u8)
        requires
            scent != Scents::Len,
        ensures
            final(self).levels() == old(self).levels().update(
                scent_index(scent),
                max_u8(old(self).level(scent), val),
            ),
            final(self).levels().len() == 3,
            final(self).level(scent) == max_u8(old(self).level(scent), val),
            forall|s: Scents| s != scent && s != Scents::Len ==> #[trigger] final(self).level(s) == old(self).level(s),
            r == sat_dec(max_u8(old(self).level(scent), val)),
    {
        let i = scent_slot(scent);
        let cur = self.scents[i];
        let v = if cur > val { cur } else { val };
        self.scents[i] = v;
        if v > 0 { v - 1 } else { 0 }
    }

    /// The levels after one tick of evaporation.
    pub open spec fn faded(self) -> Seq<u8> {
        seq![
            sat_dec(self.levels()[0]),
            self.levels()[1],
            sat_dec(self.levels()[2]),
        ]
    }

    /// One tick of evaporation: food and attack scents fade by one (not below
    /// zero); the nest scent stays.
    pub fn update(&mut self)
        ensures
            final(self).levels() == old(self).faded(),
            final(self).levels().len() == 3,
    {
        let f = self.scents[0];
        self.scents[0] = if f > 0 { f - 1 } else { 0 };
        let a = self.scents[2];
        self.scents[2] = if a > 0 { a - 1 } else { 0 };
    }
}

proof fn lemma_slot_bound(x: int, y: int, w: int)
    requires
        0 <= x < w <= 0x8000,
        0 <= y <= 0x8000,
    ensures
        0 <= y * w <= 0x4000_0000,
        x + y * w < 0x8000_0000,
{
    assert(0 <= y * w <= 0x4000_0000) by (nonlinear_arith)
        requires
            0 <= w <= 0x8000,
            0 <= y <= 0x8000,
    ;
}

/// The scents of one colony over the whole map, row by row.
pub struct ScentGrid {
    size: Pos,
    grid: Vec<ScentCell>,
}

impl ScentGrid {
    pub closed spec fn dims(self) -> Pos {
        self.size
    }

    /// The cells, row by row.
    pub closed spec fn cells(self) -> Seq<ScentCell> {
        self.grid@
    }

    /// The slot of a position: `x + y * width`, for a position with
    /// non-negative coordinates and `x` below the width.
    pub open spec fn slot(self, pos: Pos) -> Option<int> {
        if pos.x < 0 || pos.y < 0 || pos.x >= self.dims().x {
            None
        } else {
            Some(pos.x + pos.y * self.dims().x)
        }
    }

    pub fn new(size: Pos) -> (r: ScentGrid)
        requires
            size.x >= 0,
            size.y >= 0,
        ensures
            r.dims() == size,
            r.cells().len() == size.x * size.y,
            forall|i: int| 0 <= i < r.cells().len() ==> (#[trigger] r.cells()[i]).levels() == seq![0u8, 0u8, 0u8],
    {
        proof {
            lemma_slot_bound(0, size.y as int, size.x as int + 1);
            assert(size.x * size.y <= (size.x + 1) * size.y) by (nonlinear_arith)
                requires
                    size.y >= 0,
            ;
        }
        let n: usize = size.x as usize * size.y as usize;
        let mut grid: Vec<ScentCell> = Vec::new();
        while grid.len() < n
            invariant
                grid@.len() <= n,
                forall|i: int| 0 <= i < grid@.len() ==> (#[trigger] grid@[i]).levels() == seq![0u8, 0u8, 0u8],
            decreases n - grid@.len(),
        {
            grid.push(ScentCell::new());
        }
        ScentGrid { size, grid }
    }

    /// The number of cells.
    pub fn len(&self) -> (r: usize)
        ensures
            r == self.cells().len(),
    {
        self.grid.len()
    }

    /// The `i`-th cell, row by row.
    pub fn cell_at(&self, i: usize) -> (r: &ScentCell)
        requires
            i < self.cells().len(),
        ensures
            *r == self.cells()[i as int],
    {
        &self.grid[i]
    }

    pub fn get(&self, pos: Pos) -> (r: Option<&ScentCell>)
        ensures
            match self.slot(pos) {
                Some(i) => if i < self.cells().len() { r == Some(&self.cells()[i]) } else { r.is_none() },
                None => r.is_none(),
            },
    {
        if pos.x < 0 || pos.y < 0 || pos.x >= self.size.x {
            None
        } else {
            proof {
                lemma_slot_bound(pos.x as int, pos.y as int, self.size.x as int);
            }
            let i: usize = pos.x as usize + pos.y as usize * self.size.x as usize;
            if i < self.grid.len() {
                Some(&self.grid[i])
            } else {
                None
            }
        }
    }

    pub fn get_mut(&mut self, pos: Pos) -> (r: Option<&mut ScentCell>)
        ensures
            final(self).dims() == old(self).dims(),
            final(self).cells().len() == old(self).cells().len(),
            match old(self).slot(pos) {
                Some(i) => if i < old(self).cells().len() {
                    &&& r.is_some()
                    &&& *r.unwrap() == old(self).cells()[i]
                    &&& final(self).cells() == old(self).cells().update(i, *final(r.unwrap()))
                } else {
                    r.is_none() && final(self).cells() == old(self).cells()
                },
                None => r.is_none() && final(self).cells() == old(self).cells(),
            },
    {
        if pos.x < 0 || pos.y < 0 || pos.x >= self.size.x {
            None
        } else {
            proof {
                lemma_slot_bound(pos.x as int, pos.y as int, self.size.x as int);
            }
            let i: usize = pos.x as usize + pos.y as usize * self.size.x as usize;
            if i < self.grid.len() {
                Some(&mut self.grid[i])
            } else {
                None
            }
        }
    }

    /// One tick of evaporation on every cell.
    pub fn update_cells(&mut self)
        ensures
            final(self).dims() == old(self).dims(),
            final(self).cells().len() == old(self).cells().len(),
            forall|i: int| 0 <= i < old(self).cells().len() ==> (#[trigger] final(self).cells()[i]).levels() == old(self).cells()[i].faded(),
    {
        let n = self.grid.len();
        let mut i: usize = 0;
        while i < n
            invariant
                i <= n == self.grid@.len() == old(self).grid@.len(),
                self.size == old(self).size,
                forall|j: int| 0 <= j < i ==> (#[trigger] self.grid@[j]).levels() == old(self).grid@[j].faded(),
                forall|j: int| i <= j < n ==> #[trigger] self.grid@[j] == old(self).grid@[j],
            decreases n - i,
        {
            self.grid[i].update();
            i += 1;
        }
    }
}

/// Food stored by a queen is worth this much hunger; a worker eats this much.
pub const ANT_FOOD_HUNGER: Hunger = 255;

/// A worker's patience before heading home regardless.
pub const ACTIVITY_TIMEOUT: u8 = 255;

pub open spec fn ant_queen_traits() -> InsectInfo {
    InsectInfo { max_health: 10, max_speed: 3, damage: 1 }
}

pub fn ant_queen_info() -> (r: InsectInfo)
    ensures
        r == ant_queen_traits(),
{
    InsectInfo { max_health: 10, max_speed: 3, damage: 1 }
}

pub open spec fn ant_traits() -> InsectInfo {
    InsectInfo { max_health: 2, max_speed: 0, damage: 2 }
}

pub fn ant_info() -> (r: InsectInfo)
    ensures
        r == ant_traits(),
{
    InsectInfo { max_health: 2, max_speed: 0, damage: 2 }
}

/// A worker as [`Ant::new`] makes it: empty-handed, smelling of the nest.
pub open spec fn is_new_ant(i: Insect, pos: Pos, faction: Faction, queen: Id) -> bool {
    &&& i.base.fresh(pos, faction, ant_traits())
    &&& i.spec matches Behaviour::Ant(a) && a@ == AntState {
        carrying: false,
        nest_scent: u8::MAX,
        food_scent: 0,
        attack_scent: 0,
        timeout: ACTIVITY_TIMEOUT,
        queen,
    }
}

/// What [`AntQueen::update`] does: the base `b` becomes `b2` and `r` is
/// the event.
pub open spec fn queen_update_effect(b: BaseInsect, b2: BaseInsect, r: Option<Event>) -> bool {
    &&& b.hunger > ANT_FOOD_HUNGER * 2 ==> {
        &&& b2 == BaseInsect { hunger: (b.hunger - ANT_FOOD_HUNGER) as u16, ..b }
        &&& r matches Some(Event::Birth(young)) && is_new_ant(*young, b.pos, b.faction, b.id)
    }
    &&& b.hunger <= ANT_FOOD_HUNGER * 2 ==> b2 == b && r.is_none()
}

impl AntQueen {
    pub fn new(pos: Pos, faction: Faction) -> (r: Insect)
        ensures
            r.base.fresh(pos, faction, ant_queen_traits()),
            r.spec is AntQueen,
    {
        Insect { base: BaseInsect::new(pos, faction, ant_queen_info()), spec: Behaviour::AntQueen(AntQueen {}) }
    }

    /// A queen's tick: with more than two rations of food stored she spends
    /// one on a new worker at her side.
    pub fn update(&mut self, base: &mut BaseInsect) -> (r: Option<Event>)
        ensures
            queen_update_effect(*old(base), *final(base), r),
    {
        if base.hunger > ANT_FOOD_HUNGER * 2 {
            base.hunger = base.hunger - ANT_FOOD_HUNGER;
            return Some(Event::Birth(Box::new(Ant::new(base.pos, base.faction, base.id))));
        }
        None
    }
}

/// `a + b`, saturating at `u8::MAX`.
pub open spec fn sat_add(a: u8, b: u8) -> u8 {
    if a + b > u8::MAX {
        u8::MAX
    } else {
        (a + b) as u8
    }
}

/// The food scent a worker carrying food lays, from its nest scent: its
/// estimated distance from the nest `d = 255 - nest_scent`, counted
/// `d + d + d / 5 + 48` (saturating).
pub open spec fn food_trail(nest_scent: u8) -> u8 {
    let d = (u8::MAX - nest_scent) as u8;
    sat_add(sat_add(sat_add(d, d), (d / 5) as u8), 48)
}

impl Ant {
    pub fn new(pos: Pos, faction: Faction, queen: Id) -> (r: Insect)
        ensures
            is_new_ant(r, pos, faction, queen),
    {
        Insect {
            base: BaseInsect::new(pos, faction, ant_info()),
            spec: Behaviour::Ant(
                Ant {
                    food: None,
                    food_scent: 0,
                    nest_scent: u8::MAX,
                    attack_scent: 0,
                    timeout: ACTIVITY_TIMEOUT,
                    queen,
                },
            ),
        }
    }

    /// The strength of a scent at `pos` (none off the grid).
    pub fn smell(scents: &ScentGrid, pos: Pos, scent: Scents) -> (r: u8)
        requires
            scent != Scents::Len,
        ensures
            r == smell_level(*scents, pos, scent),
    {
        match scents.get(pos) {
            Some(cell) => cell.get_scent(scent),
            None => 0,
        }
    }
}

/// The strength of a scent at `pos`: the level on its cell of the grid, or
/// zero where the grid has no cell.
pub open spec fn smell_level(scents: ScentGrid, pos: Pos, scent: Scents) -> u8 {
    match scents.slot(pos) {
        Some(i) => if i < scents.cells().len() {
            scents.cells()[i].level(scent)
        } else {
            0
        },
        None => 0,
    }
}

/// On a valid position of a well-formed map, every scent grid has a cell.
pub proof fn lemma_scent_slot(map: WorldMap, pos: Pos, g: int)
    requires
        map.wf(),
        map.valid(pos),
        0 <= g < 3,
    ensures
        map.scent_grids@[g].slot(pos) == Some(pos.x + pos.y * map.size.x),
        0 <= pos.x + pos.y * map.size.x < map.scent_grids@[g].cells().len(),
{
    let w = map.size.x as int;
    let h = map.size.y as int;
    let x = pos.x as int;
    let y = pos.y as int;
    assert(0 <= x + y * w < w * h) by (nonlinear_arith)
        requires
            0 <= x < w,
            0 <= y < h,
    ;
}

/// The scent grid `g` of `m` is that of `map` with the cell at slot `i`
/// holding the levels `levels`; all else on the map is as it was.
pub open spec fn scent_set(map: WorldMap, g: int, i: int, levels: Seq<u8>, m: WorldMap) -> bool {
    &&& m.occupied == map.occupied
    &&& m.size == map.size
    &&& m.scent_grids@.len() == map.scent_grids@.len()
    &&& forall|j: int| 0 <= j < map.scent_grids@.len() && j != g ==> #[trigger] m.scent_grids@[j] == map.scent_grids@[j]
    &&& m.scent_grids@[g].dims() == map.scent_grids@[g].dims()
    &&& m.scent_grids@[g].cells().len() == map.scent_grids@[g].cells().len()
    &&& forall|k: int| 0 <= k < map.scent_grids@[g].cells().len() && k != i ==> #[trigger] m.scent_grids@[g].cells()[k]
        == map.scent_grids@[g].cells()[k]
    &&& m.scent_grids@[g].cells()[i].levels() == levels
}

impl Ant {
    /// Lays the worker's scents on its cell of its colony's grid: each scent
    /// is raised to at least what the worker carries (the attack scent only
    /// while it carries one). The worker then carries the nest and attack
    /// scents it found, less one.
    pub fn update_scents(&mut self, base: &BaseInsect, map: &mut WorldMap)
        requires
            old(map).wf(),
            old(map).valid(base.pos),
            base.faction < 3,
        ensures
            final(map).wf(),
            scents_effect(old(self)@, *base, *old(map), final(self)@, *final(map)),
    {
        proof {
            lemma_scent_slot(*map, base.pos, base.faction as int);
        }
        let ghost g = base.faction as int;
        let ghost i = base.pos.x + base.pos.y * map.size.x;
        let ghost m0 = *map;
        let scents = map.get_scent_grid_mut(base.faction);
        let scent_cell = scents.get_mut(base.pos).unwrap();
        if self.food.is_some() {
            let dist_approx = u8::MAX - self.nest_scent;
            self.food_scent = dist_approx.saturating_add(dist_approx).saturating_add(dist_approx / 5).saturating_add(48);
        } else {
            self.food_scent = 0;
        }
        let _ = scent_cell.drop_scent(Scents::Food, self.food_scent);
        self.nest_scent = scent_cell.drop_scent(Scents::Nest, self.nest_scent);
        if self.attack_scent > 0 {
            self.attack_scent = scent_cell.drop_scent(Scents::Attack, self.attack_scent);
        }
        proof {
            assert forall|j: int| 0 <= j < 3 implies (#[trigger] map.scent_grids@[j]).dims() == map.size
                && map.scent_grids@[j].cells().len() == map.size.x * map.size.y by {
                if j != g {
                    assert(map.scent_grids@[j] == m0.scent_grids@[j]);
                }
            }
            let c = m0.scent_grids@[g].cells()[i];
            assert(self@.food_scent == food_to_lay(old(self)@));
            assert(map.scent_grids@[g].cells()[i].levels()[0] == max_u8(c.level(Scents::Food), self@.food_scent));
            assert(map.scent_grids@[g].cells()[i].levels()[1] == max_u8(c.level(Scents::Nest), old(self)@.nest_scent));
            assert(map.scent_grids@[g].cells()[i].levels() =~= seq![max_u8(c.level(Scents::Food), self@.food_scent), max_u8(c.level(Scents::Nest), old(self)@.nest_scent), map.scent_grids@[g].cells()[i].levels()[2]]);
        }
    }

    /// What the worker does on its cell. At its queen's cell it rests its
    /// patience and, if carrying food, hands it over (as a feeding of 127),
    /// turns around and smells of the nest again. Elsewhere, empty-handed, it
    /// takes the food on its cell: it eats it when hungry, otherwise turns
    /// around to carry it home. Carrying food while hungry, it eats it.
    pub fn update_behaviour(&mut self, base: &mut BaseInsect, map: &mut WorldMap) -> (r: Option<Event>)
        requires
            old(map).wf(),
            old(map).valid(old(base).pos),
            is_dir(old(base).dir),
        ensures
            final(base).pos == old(base).pos,
            is_dir(final(base).dir),
            behaviour_effect(old(self)@, *old(base), *old(map), final(self)@, *final(base), *final(map), r),
    {
        let at_queen = map.get_cell(base.pos).unwrap().occupied_id() == self.queen;
        if at_queen {
            self.timeout = ACTIVITY_TIMEOUT;
            if self.food.is_some() {
                self.food = None;
                self.nest_scent = u8::MAX - 1;
                self.food_scent = 0;
                base.dir = invert(base.dir);
                return Some(Event::Interact(Interact::feed(base.id, self.queen, 127)));
            }
        } else if self.food.is_none() {
            if base.try_eat(map) {
                if base.hunger < ANT_FOOD_HUNGER {
                    base.hunger = base.hunger + ANT_FOOD_HUNGER;
                } else {
                    self.food = Some(());
                    base.dir = invert(base.dir);
                }
            }
        } else if base.hunger < ANT_FOOD_HUNGER {
            base.hunger = base.hunger + ANT_FOOD_HUNGER;
            self.food = None;
        }
        None
    }

    /// Where the worker goes next. Its patience wears down by one; it heads
    /// home (seeks its nest, by the nest scent) when carrying food or out of
    /// patience, and otherwise seeks food (by the food scent). It goes to the
    /// first cell in view that holds what it seeks, or a spider; failing
    /// that, one time in four it wanders at random; otherwise it smells the
    /// cells in view (writing each strength in place of the faction seen) and
    /// goes to the last strongest one, or at random when it smells nothing.
    /// The one-in-four draw is made here; see [`Ant::update_movement_with`].
    pub fn update_movement(&mut self, base: &BaseInsect, perception: &mut Perception, scents: &ScentGrid) -> (r: Option<Pos>)
        requires
            is_dir(base.dir),
            -MAX_MAP_DIM <= base.pos.x <= MAX_MAP_DIM,
            -MAX_MAP_DIM <= base.pos.y <= MAX_MAP_DIM,
        ensures
            movement_effect(old(self)@, *base, old(perception)@, *scents, final(self)@, final(perception)@, r),
    {
        let val = rand_u32();
        self.update_movement_with(base, perception, scents, val)
    }

    /// [`Ant::update_movement`] for the draw `val`: with nothing notable in
    /// view, a draw below a quarter of the `u32` range wanders at random, and
    /// any other follows the scent ([`smelled_choice`]).
    pub fn update_movement_with(
        &mut self,
        base: &BaseInsect,
        perception: &mut Perception,
        scents: &ScentGrid,
        val: u32,
    ) -> (r: Option<Pos>)
        requires
            is_dir(base.dir),
            -MAX_MAP_DIM <= base.pos.x <= MAX_MAP_DIM,
            -MAX_MAP_DIM <= base.pos.y <= MAX_MAP_DIM,
        ensures
            movement_effect(old(self)@, *base, old(perception)@, *scents, final(self)@, final(perception)@, r),
            !has_notable(old(perception)@, ant_goal(final(self)@, base.faction)) ==> {
                &&& val < u32::MAX / 4 ==> final(perception)@ == old(perception)@ && exists|w: u32|
                    r == Some(base.random_target(w))
                &&& val >= u32::MAX / 4 ==> smelled_choice(
                    old(perception)@,
                    *scents,
                    ant_scent(final(self)@),
                    *base,
                    final(perception)@,
                    r,
                )
            },
    {
        self.timeout = self.timeout.saturating_sub(1);
        let home = self.food.is_some() || self.timeout == 0;
        let goal = if home { CellType::Nest(base.faction) } else { CellType::Food };
        let scent = if home { Scents::Nest } else { Scents::Food };
        let ghost a = old(self)@;
        let ghost p = perception@;
        let mut found: Option<usize> = None;
        let mut i: usize = 0;
        while i < 5
            invariant_except_break
                i <= 5,
                perception@ == p,
                found.is_none(),
                forall|j: int| 0 <= j < i ==> !#[trigger] notable(p[j], goal),
            ensures
                perception@ == p,
                match found {
                    Some(k) => k < 5 && notable(p[k as int], goal) && forall|j: int| 0 <= j < k ==> !#[trigger] notable(p[j], goal),
                    None => forall|j: int| 0 <= j < 5 ==> !#[trigger] notable(p[j], goal),
                },
            decreases 5 - i,
        {
            let percep = perception[i];
            if percep.1.cell_type == goal || percep.1.faction == FACTION_SPIDER {
                found = Some(i);
                break;
            }
            i += 1;
        }
        proof {
            assert(p == old(perception)@);
            assert(goal == (if a.carrying || a.timeout.saturating_sub(1) == 0 { CellType::Nest(base.faction) } else { CellType::Food }));
            assert(scent == (if a.carrying || a.timeout.saturating_sub(1) == 0 { Scents::Nest } else { Scents::Food }));
        }
        if let Some(k) = found {
            let res = Some(perception[k].0);
            proof {
                assert(notable(p[k as int], goal));
                assert(perception@ == p);
                assert(exists|i: int| 0 <= i < 5 && #[trigger] notable(p[i], goal));
                assert(exists|i: int| 0 <= i < 5 && #[trigger] notable(p[i], goal) && res == Some(p[i].0)
                        && forall|j: int| 0 <= j < i ==> !#[trigger] notable(p[j], goal));
                let t = a.timeout.saturating_sub(1);
                let home = a.carrying || t == 0;
                let goal2 = if home { CellType::Nest(base.faction) } else { CellType::Food };
                assert(goal2 == goal);
            }
            return res;
        }
        proof {
            assert(!exists|j: int| 0 <= j < 5 && #[trigger] notable(p[j], goal));
        }
        if val < u32::MAX / 4 {
            let res = Some(base.move_random());
            proof {
                assert(perception@ == old(perception)@);
                assert(exists|w: u32| res == Some(base.random_target(w)));
            }
            return res;
        }
        let mut total: u16 = 0;
        let mut i: usize = 0;
        while i < 5
            invariant
                i <= 5,
                perception@.len() == 5,
                forall|j: int| 0 <= j < i ==> #[trigger] perception@[j] == (p[j].0, Sight { cell_type: p[j].1.cell_type, faction: smell_level(*scents, p[j].0, scent) }),
                forall|j: int| i <= j < 5 ==> #[trigger] perception@[j] == p[j],
                total == partial_sum(Seq::new(5, |j: int| smell_level(*scents, p[j].0, scent)), i as int),
                total <= 255 * i,
                scent != Scents::Len,
            decreases 5 - i,
        {
            let smelled = Ant::smell(scents, perception[i].0, scent);
            let old_entry = perception[i];
            perception[i] = (old_entry.0, Sight { cell_type: old_entry.1.cell_type, faction: smelled });
            total = total + smelled as u16;
            i += 1;
        }
        let ghost levels = Seq::new(5, |j: int| smell_level(*scents, p[j].0, scent));
        proof {
            assert(perception@ =~= Seq::new(5, |j: int| (p[j].0, Sight { cell_type: p[j].1.cell_type, faction: levels[j] })));
        }
        proof {
            reveal_with_fuel(partial_sum, 6);
            assert(levels == smelled_levels(p, *scents, scent));
            assert(scent == ant_scent(self@));
            assert(total == levels[0] + levels[1] + levels[2] + levels[3] + levels[4]);
        }
        if total == 0 {
            let res = Some(base.move_random());
            proof {
                assert(smelled_choice(p, *scents, scent, *base, perception@, res));
            }
            return res;
        }
        let mut pos: Pos = base.pos;
        let mut max: u8 = 0;
        let mut k: usize = 0;
        let ghost mut best: int = -1;
        while k < 5
            invariant
                k <= 5,
                perception@ == Seq::new(5, |j: int| (p[j].0, Sight { cell_type: p[j].1.cell_type, faction: levels[j] })),
                k == 0 ==> best == -1 && max == 0,
                k > 0 ==> 0 <= best < k && pos == p[best].0 && max == levels[best]
                    && (forall|j: int| 0 <= j < k ==> levels[j] <= max)
                    && (forall|j: int| best < j < k ==> levels[j] < max),
            decreases 5 - k,
        {
            let entry = perception[k];
            if max <= entry.1.faction {
                pos = entry.0;
                max = entry.1.faction;
                proof {
                    best = k as int;
                }
            }
            k += 1;
        }
        proof {
            assert(is_last_max(levels, best));
            assert(smelled_choice(p, *scents, scent, *base, perception@, Some(pos)));
        }
        Some(pos)
    }
}

/// What [`Ant::update_behaviour`] does: the worker `a` on base `b` becomes
/// `a2` on `b2`, the map becomes `m2`, and `r` is the event.
pub open spec fn behaviour_effect(a: AntState, b: BaseInsect, map: WorldMap, a2: AntState, b2: BaseInsect, m2: WorldMap, r: Option<Event>) -> bool {
            let c = map.cell(b.pos);
            if c.occupied_id_spec() == a.queen {
                &&& m2 == map
                &&& if a.carrying {
                    &&& a2 == AntState { carrying: false, nest_scent: (u8::MAX - 1) as u8, food_scent: 0, timeout: ACTIVITY_TIMEOUT, ..a }
                    &&& b2 == BaseInsect { dir: inverted(b.dir), ..b }
                    &&& r == Some(Event::Interact(Interact { src: b.id, dst: a.queen, amt: 127 }))
                } else {
                    &&& a2 == AntState { timeout: ACTIVITY_TIMEOUT, ..a }
                    &&& b2 == b
                    &&& r.is_none()
                }
            } else if !a.carrying {
                &&& r.is_none()
                &&& if c.kind() == CellType::Food {
                    &&& ate_at(map, b.pos, m2)
                    &&& if b.hunger < ANT_FOOD_HUNGER {
                        b2 == BaseInsect { hunger: (b.hunger + ANT_FOOD_HUNGER) as u16, ..b } && a2 == a
                    } else {
                        b2 == BaseInsect { dir: inverted(b.dir), ..b } && a2 == AntState { carrying: true, ..a }
                    }
                } else {
                    m2 == map && b2 == b && a2 == a
                }
            } else {
                &&& r.is_none()
                &&& m2 == map
                &&& if b.hunger < ANT_FOOD_HUNGER {
                    b2 == BaseInsect { hunger: (b.hunger + ANT_FOOD_HUNGER) as u16, ..b }
                        && a2 == AntState { carrying: false, ..a }
                } else {
                    b2 == b && a2 == a
                }
            }
}

/// What [`Ant::update_scents`] does: the worker `a` on base `b` becomes
/// `a2` and the map becomes `m2`. On the worker's cell of its colony's grid
/// each scent is raised to at least what the worker lays (the attack scent
/// only while it carries one); the worker then carries the nest and attack
/// scents it found, less one.
pub open spec fn scents_effect(a: AntState, b: BaseInsect, map: WorldMap, a2: AntState, m2: WorldMap) -> bool {
    let g = b.faction as int;
    let i = b.pos.x + b.pos.y * map.size.x;
    let c = map.scent_grids@[g].cells()[i];
    let fs = food_to_lay(a);
    let nest = max_u8(c.level(Scents::Nest), a.nest_scent);
    let att = if a.attack_scent > 0 {
        max_u8(c.level(Scents::Attack), a.attack_scent)
    } else {
        c.level(Scents::Attack)
    };
    &&& scent_set(map, g, i, seq![max_u8(c.level(Scents::Food), fs), nest, att], m2)
    &&& a2 == AntState {
        food_scent: fs,
        nest_scent: sat_dec(nest),
        attack_scent: if a.attack_scent > 0 { sat_dec(att) } else { a.attack_scent },
        ..a
    }
}

/// The food scent a worker lays: a trail when it carries food, none otherwise.
pub open spec fn food_to_lay(a: AntState) -> u8 {
    if a.carrying {
        food_trail(a.nest_scent)
    } else {
        0
    }
}

/// What [`Ant::update_movement`] does for the worker `a` on base `b` with the
/// view `p` and its colony's scents: the worker becomes `a2`, the view `q`,
/// and `r` is where it goes. Its patience wears down by one; it seeks what
/// [`ant_goal`] names: the first notable cell in view, else (one time in four,
/// or when nothing is smelled) a random move, else the last cell with the
/// strongest scent.
pub open spec fn movement_effect(a: AntState, b: BaseInsect, p: Seq<(Pos, Sight)>, scents: ScentGrid, a2: AntState, q: Seq<(Pos, Sight)>, r: Option<Pos>) -> bool {
    &&& a2 == AntState { timeout: a.timeout.saturating_sub(1), ..a }
    &&& has_notable(p, ant_goal(a2, b.faction)) ==> {
        &&& q == p
        &&& first_notable(p, ant_goal(a2, b.faction), r)
    }
    &&& !has_notable(p, ant_goal(a2, b.faction)) ==> {
        ||| (q == p && exists|w: u32| r == Some(b.random_target(w)))
        ||| smelled_choice(p, scents, ant_scent(a2), b, q, r)
    }
}

/// Heading home: carrying food, or out of patience.
pub open spec fn heading_home(a: AntState) -> bool {
    a.carrying || a.timeout == 0
}

/// What a worker of faction `faction` seeks: its nest when heading home,
/// food otherwise.
pub open spec fn ant_goal(a: AntState, faction: Faction) -> CellType {
    if heading_home(a) {
        CellType::Nest(faction)
    } else {
        CellType::Food
    }
}

/// The scent a worker follows: the nest's when heading home, food's otherwise.
pub open spec fn ant_scent(a: AntState) -> Scents {
    if heading_home(a) {
        Scents::Nest
    } else {
        Scents::Food
    }
}

pub open spec fn has_notable(p: Seq<(Pos, Sight)>, goal: CellType) -> bool {
    exists|i: int| 0 <= i < p.len() && #[trigger] notable(p[i], goal)
}

/// `r` is the first notable cell in view.
pub open spec fn first_notable(p: Seq<(Pos, Sight)>, goal: CellType, r: Option<Pos>) -> bool {
    exists|i: int|
        0 <= i < p.len() && #[trigger] notable(p[i], goal) && r == Some(p[i].0) && forall|j: int|
            0 <= j < i ==> !#[trigger] notable(p[j], goal)
}

/// The strengths of `scent` on the cells in view.
pub open spec fn smelled_levels(p: Seq<(Pos, Sight)>, scents: ScentGrid, scent: Scents) -> Seq<u8> {
    Seq::new(p.len(), |i: int| smell_level(scents, p[i].0, scent))
}

/// The choice by scent: the view `q` holds the strengths in place of the
/// factions, and `r` is the last strongest cell, or a random move when
/// nothing is smelled.
pub open spec fn smelled_choice(p: Seq<(Pos, Sight)>, scents: ScentGrid, scent: Scents, base: BaseInsect, q: Seq<(Pos, Sight)>, r: Option<Pos>) -> bool {
    let levels = smelled_levels(p, scents, scent);
    &&& q == Seq::new(p.len(), |i: int| (p[i].0, Sight { cell_type: p[i].1.cell_type, faction: levels[i] }))
    &&& if levels[0] + levels[1] + levels[2] + levels[3] + levels[4] == 0 {
        exists|w: u32| r == Some(base.random_target(w))
    } else {
        exists|k: int| 0 <= k < 5 && r == Some(p[k].0) && is_last_max(levels, k)
    }
}

/// What a worker heads for: the cell holds what it seeks, or a spider.
pub open spec fn notable(p: (Pos, Sight), goal: CellType) -> bool {
    p.1.cell_type == goal || p.1.faction == FACTION_SPIDER
}

/// `k` is the last index of a greatest value.
pub open spec fn is_last_max(levels: Seq<u8>, k: int) -> bool {
    &&& forall|j: int| 0 <= j < levels.len() ==> levels[j] <= levels[k]
    &&& forall|j: int| k < j < levels.len() ==> levels[j] < levels[k]
}

/// The sum of the first `n` values.
pub open spec fn partial_sum(levels: Seq<u8>, n: int) -> int
    decreases n,
{
    if n <= 0 {
        0
    } else {
        partial_sum(levels, n - 1) + levels[n - 1]
    }
}

/// What [`Ant::update`] does: the worker `s` on base `b` becomes `s2` on
/// `b2`, the map `m` becomes `m2`, and `r` is the event.
pub open spec fn ant_update_effect(s: Ant, b: BaseInsect, m: WorldMap, s2: Ant, b2: BaseInsect, m2: WorldMap, r: Option<Event>) -> bool {
    &&& exists|a1: AntState, b1: BaseInsect, m1: WorldMap, r1: Option<Event>|
        #![trigger behaviour_effect(s@, b, m, a1, b1, m1, r1)]
        {
        &&& behaviour_effect(s@, b, m, a1, b1, m1, r1)
        &&& if r1.is_some() {
            s2@ == a1 && b2 == b1 && m2 == m1 && r == r1
        } else {
            exists|a2: AntState, ms: WorldMap, a3: AntState, q: Seq<(Pos, Sight)>, next: Pos|
                #![trigger scents_effect(a1, b1, m1, a2, ms), movement_effect(a2, b1, b1.perceived(ms), ms.scent_grids@[b1.faction as int], a3, q, Some(next))]
                {
                &&& scents_effect(a1, b1, m1, a2, ms)
                &&& movement_effect(a2, b1, b1.perceived(ms), ms.scent_grids@[b1.faction as int], a3, q, Some(next))
                &&& s2@ == a3
                &&& b1.step_effect(ms, next, b2, m2, r)
            }
        }
    }
}

impl Ant {
    /// A worker's tick: it acts on its cell ([`Ant::update_behaviour`]); if
    /// that asks nothing of the game, it lays its scents, looks ahead, picks
    /// where to go ([`Ant::update_movement`]) and steps there.
    pub fn update(&mut self, base: &mut BaseInsect, map: &mut WorldMap) -> (r: Option<Event>)
        requires
            old(base).wf(*old(map)),
            old(base).faction < 3,
            old(base).info == ant_traits(),
        ensures
            final(base).wf(*final(map)),
            final(base).info == old(base).info,
            final(base).faction == old(base).faction,
            final(base).id == old(base).id,
            ant_update_effect(*old(self), *old(base), *old(map), *final(self), *final(base), *final(map), r),
    {
        let ghost a0 = self@;
        let ghost b0 = *base;
        let ghost m0 = *map;
        let r1 = self.update_behaviour(base, map);
        let ghost a1 = self@;
        let ghost b1 = *base;
        let ghost m1 = *map;
        if r1.is_some() {
            proof {
                assert(behaviour_effect(a0, b0, m0, a1, b1, m1, r1));
            }
            return r1;
        }
        self.update_scents(base, map);
        let ghost a2 = self@;
        let ghost m2 = *map;
        let mut perception = base.perception(map);
        let ghost p = perception@;
        let scents = map.get_scent_grid(base.faction);
        let next_pos = self.update_movement(base, &mut perception, scents);
        proof {
            lemma_perceived_steps(*base, m2);
            lemma_movement_is_step(a2, *base, p, m2, self@, perception@, next_pos);
        }
        match next_pos {
            Some(pos) => {
                let r = base.try_move(pos, map);
                proof {
                    assert(behaviour_effect(a0, b0, m0, a1, b1, m1, r1));
                    assert(scents_effect(a1, b1, m1, a2, m2));
                }
                r
            },
            None => None,
        }
    }
}

/// Where a worker decides to go is one step away.
proof fn lemma_movement_is_step(a: AntState, b: BaseInsect, p: Seq<(Pos, Sight)>, m: WorldMap, a2: AntState, q: Seq<(Pos, Sight)>, r: Option<Pos>)
    requires
        b.wf(m),
        p == b.perceived(m),
        movement_effect(a, b, p, m.scent_grids@[b.faction as int], a2, q, r),
    ensures
        r matches Some(next) && b.is_step(next),
{
    lemma_perceived_steps(b, m);
    lemma_random_targets_are_steps(b);
}

/// Evaporation never strengthens a scent, and the nest scent never fades.
pub proof fn law_scent_fades(c: ScentCell)
    ensures
        c.faded().len() == 3,
        forall|i: int| 0 <= i < 3 ==> #[trigger] c.faded()[i] <= c.levels()[i],
        c.faded()[1] == c.levels()[1],
{
}

/// Dropping a scent never weakens it: it is then at least as strong as
/// before and as what was dropped.
pub proof fn law_drop_strengthens(c: ScentCell, s: Scents, val: u8)
    ensures
        max_u8(c.level(s), val) >= c.level(s),
        max_u8(c.level(s), val) >= val,
{
}

/// A worker that brings food to its queen feeds her: on her cell, a worker
/// carrying food hands it over as a gift of 127 food (a positive amount,
/// never an attack) from itself to its queen, and carries nothing after.
pub proof fn law_worker_feeds_its_queen(
    a: AntState,
    b: BaseInsect,
    map: WorldMap,
    a2: AntState,
    b2: BaseInsect,
    m2: WorldMap,
    r: Option<Event>,
)
    requires
        behaviour_effect(a, b, map, a2, b2, m2, r),
        a.carrying,
        map.cell(b.pos).occupied_id_spec() == a.queen,
    ensures
        r matches Some(Event::Interact(x)) && x.src == b.id && x.dst == a.queen && x.amt == 127 && x.amt > 0,
        !a2.carrying,
        m2 == map,
{
}

/// A worker carrying food lays a food trail: the food scent on its cell is
/// then at least 48, and what it lays is its estimated distance from the
/// nest `d = 255 - nest_scent` counted `d + d + d / 5 + 48`, capped at 255.
/// A worker carrying nothing lays no food scent.
pub proof fn law_carriers_lay_food_trails(a: AntState, b: BaseInsect, map: WorldMap, a2: AntState, m2: WorldMap)
    requires
        scents_effect(a, b, map, a2, m2),
    ensures
        ({
            let d = 255 - a.nest_scent;
            let cell = m2.scent_grids@[b.faction as int].cells()[b.pos.x + b.pos.y * map.size.x];
            let before = map.scent_grids@[b.faction as int].cells()[b.pos.x + b.pos.y * map.size.x];
            &&& a.carrying ==> {
                &&& a2.food_scent == if d + d + d / 5 + 48 > 255 { 255 } else { d + d + d / 5 + 48 }
                &&& a2.food_scent >= 48
                &&& cell.levels()[0] >= a2.food_scent
                &&& cell.levels()[0] >= 48
            }
            &&& !a.carrying ==> a2.food_scent == 0 && cell.levels()[0] == before.levels()[0]
        }),
{
    let d = (u8::MAX - a.nest_scent) as u8;
    assert(d as int == 255 - a.nest_scent);
    assert((d / 5) as u8 as int == d as int / 5);
}

} // verus!
