//! The ant world as a game: the insects by id, the player's insect, the
//! population counts and the simulation tick that runs them all.
pub mod tick;

use std::collections::HashMap;
use vstd::prelude::*;
use vstd::std_specs::iter::IteratorSpec;
use crate::insect::{lemma_fits_after_eating, Action, Behaviour, BaseInsect, Event, Id, Insect, Interact};
use crate::insect::ant::{ant_queen_traits, is_new_ant, Ant, AntQueen};
use crate::insect::centipede::{is_new_centipede, Centipede};
use crate::insect::pillbug::{is_new_pillbug, Pillbug};
use crate::insect::spider::{is_new_spider, Spider};
use crate::insect::player::InsectPlayer;
use crate::map::{lemma_cell_ext, lemma_grid_set_same, CellType, Faction, WorldMap, FACTION_CENTIPEDE, MAP_SIZE};
use crate::pos::{dirs, Pos};

verus! {

broadcast use vstd::std_specs::hash::group_hash_axioms;

/// Ants a new colony starts with.
pub const STARTING_ANTS: usize = 128;

/// Pillbugs, spiders and centipedes a new world starts with.
pub const STARTING_PILLBUGS: usize = 250;

pub const STARTING_SPIDERS: usize = 50;

pub const STARTING_CENTIPEDES: usize = 10;

/// All the critters of a new world.
pub const CRITTERS: u32 = 310;

pub const FACTION_BLUE_ANTS: Faction = 1;

pub const FACTION_RED_ANTS: Faction = 2;

/// The blue ants' nest.
pub const NEST_X: i16 = MAP_SIZE - 20;

pub const NEST_Y: i16 = MAP_SIZE - 10;

/// The red ants' nest.
pub const NEST_2_X: i16 = 20;

pub const NEST_2_Y: i16 = 10;

/// How fast the simulation runs.
#[derive(Debug, Clone, Copy, PartialEq, Eq, Structural)]
pub enum Speed {
    SLOW,
    FAST,
}

impl Speed {
    pub open spec fn invert_spec(self) -> Speed {
        if self == Speed::SLOW {
            Speed::FAST
        } else {
            Speed::SLOW
        }
    }

    /// The other speed.
    pub fn invert(&self) -> (r: Speed)
        ensures
            r == self.invert_spec(),
    {
        match self {
            Speed::SLOW => Speed::FAST,
            Speed::FAST => Speed::SLOW,
        }
    }
}

/// The keys the player holds, or pressed this frame.
#[derive(Debug, Clone, Copy, PartialEq, Eq, Structural)]
pub struct PlayerInput {
    /// Right or `D` held.
    pub right: bool,
    /// Left or `A` held.
    pub left: bool,
    /// Up or `W` held.
    pub up: bool,
    /// Down or `S` held.
    pub down: bool,
    /// `1` pressed: show or hide the blue ants' scents.
    pub scents_1: bool,
    /// `2` pressed: show or hide the red ants' scents.
    pub scents_2: bool,
    /// Space pressed: pause or resume.
    pub pause: bool,
    /// `F` pressed: switch the speed.
    pub speed: bool,
}

/// The direction the held keys point to: right wins over left, up over down.
pub open spec fn input_dir(input: PlayerInput) -> Pos {
    Pos {
        x: if input.right { 1i16 } else if input.left { -1i16 } else { 0i16 },
        y: if input.up { -1i16 } else if input.down { 1i16 } else { 0i16 },
    }
}

/// The shown scents `v` after the key for `k` was `pressed`: it shows `k`,
/// or nothing if `k` was shown.
pub open spec fn toggled(v: Faction, k: Faction, pressed: bool) -> Faction {
    if !pressed {
        v
    } else if v == k {
        0
    } else {
        k
    }
}

/// The game: the world, every insect by id, the player's insect and what
/// the player asks, and the population of each faction.
pub struct Game {
    pub map: WorldMap,
    pub speed: Speed,
    pub game_over: bool,
    pub game_won: bool,
    pub player_id: Id,
    pub player_last_pos: Pos,
    pub player_dir: Pos,
    pub player_faction: Faction,
    pub show_scents: Faction,
    pub paused: bool,
    pub insects: HashMap<Id, Insect>,
    pub insects_id: Id,
    pub pops: HashMap<Faction, usize>,
    pub queens: HashMap<Faction, Id>,
}

/// `insect` stored under the id `id`.
pub open spec fn with_id(insect: Insect, id: Id) -> Insect {
    Insect { base: BaseInsect { id, ..insect.base }, spec: insect.spec }
}

/// `insect` handed to the player.
pub open spec fn as_player(insect: Insect) -> Insect {
    Insect { base: insect.base, spec: Behaviour::Player(InsectPlayer { sub_insect: Box::new(insect.spec) }) }
}

/// Every stored insect fits its kind on the map `m`, carries its own id, and
/// has an id below `next_id`.
pub open spec fn insects_fit(ins: Map<Id, Insect>, m: WorldMap, next_id: Id) -> bool {
    forall|id: Id| #[trigger] ins.contains_key(id) ==> {
        &&& ins[id].wf(m)
        &&& ins[id].base.id == id
        &&& id < next_id
    }
}

/// A new map of the same size keeps every insect on it.
pub proof fn lemma_insects_fit_map(ins: Map<Id, Insect>, m: WorldMap, m1: WorldMap, next_id: Id)
    requires
        insects_fit(ins, m, next_id),
        m1.wf(),
        m1.size == m.size,
    ensures
        insects_fit(ins, m1, next_id),
{
    assert forall|id: Id| #[trigger] ins.contains_key(id) implies ins[id].wf(m1) by {
        lemma_fits_after_eating(ins[id].spec, ins[id].base, m, ins[id].base, m1);
    }
}

/// Putting back, under its id, an insect that fits keeps every insect fitting.
pub proof fn lemma_reinsert_fits(ins: Map<Id, Insect>, id: Id, i: Insect, m: WorldMap, next_id: Id)
    requires
        insects_fit(ins.remove(id), m, next_id),
        ins.contains_key(id),
        ins[id].base.id == id,
        id < next_id,
        i.wf(m),
        i.base.id == id,
    ensures
        insects_fit(ins.remove(id).insert(id, i), m, next_id),
        ins.remove(id).insert(id, i) == ins.insert(id, i),
{
    assert(ins.remove(id).insert(id, i) =~= ins.insert(id, i));
}

impl Game {
    /// The map is sound and every insect fits it under its own id.
    pub open spec fn wf(self) -> bool {
        &&& self.map.wf()
        &&& insects_fit(self.insects@, self.map, self.insects_id)
    }

    /// The player's settings and the counts are those of `other`.
    pub open spec fn same_settings(self, other: Game) -> bool {
        &&& self.speed == other.speed
        &&& self.game_over == other.game_over
        &&& self.game_won == other.game_won
        &&& self.player_last_pos == other.player_last_pos
        &&& self.player_dir == other.player_dir
        &&& self.player_faction == other.player_faction
        &&& self.show_scents == other.show_scents
        &&& self.paused == other.paused
        &&& self.pops@ == other.pops@
        &&& self.queens@ == other.queens@
    }

    /// The game `g2` is this one.
    pub open spec fn same_game(self, g2: Game) -> bool {
        &&& g2.map == self.map
        &&& g2.insects@ == self.insects@
        &&& g2.insects_id == self.insects_id
        &&& g2.player_id == self.player_id
        &&& g2.same_settings(self)
    }

    /// The game `g2` is this one but for the population counts.
    pub open spec fn same_but_pops(self, g2: Game) -> bool {
        &&& g2.map == self.map
        &&& g2.insects@ == self.insects@
        &&& g2.insects_id == self.insects_id
        &&& g2.player_id == self.player_id
        &&& g2.speed == self.speed
        &&& g2.game_over == self.game_over
        &&& g2.game_won == self.game_won
        &&& g2.player_last_pos == self.player_last_pos
        &&& g2.player_dir == self.player_dir
        &&& g2.player_faction == self.player_faction
        &&& g2.show_scents == self.show_scents
        &&& g2.paused == self.paused
        &&& g2.queens@ == self.queens@
    }

    /// Some insect of the player's faction.
    pub open spec fn has_player_kind(self) -> bool {
        exists|k: Id| #[trigger] self.insects@.contains_key(k) && self.insects@[k].base.faction == self.player_faction
    }

    /// A game on a new world, with no insects yet; the player will play a
    /// centipede, and the game starts slow and unpaused.
    pub fn new() -> (r: Game)
        ensures
            r.wf(),
            r.map.is_fresh(),
            r.map.is_generated(),
            r.insects@ == Map::<Id, Insect>::empty(),
            r.insects_id == 1,
            r.player_id == 0,
            r.player_dir == (Pos { x: 0, y: 0 }),
            r.player_last_pos == (Pos { x: 0, y: 0 }),
            r.player_faction == FACTION_CENTIPEDE,
            r.speed == Speed::SLOW,
            !r.game_over,
            r.game_won,
            r.show_scents == 0,
            !r.paused,
            r.pops@ == Map::<Faction, usize>::empty(),
            r.queens@ == Map::<Faction, Id>::empty(),
    {
        let map = WorldMap::new();
        Game {
            insects: HashMap::new(),
            insects_id: 1,
            player_dir: dirs::none(),
            player_id: 0,
            player_last_pos: dirs::none(),
            player_faction: FACTION_CENTIPEDE,
            map,
            speed: Speed::SLOW,
            game_over: false,
            game_won: true,
            show_scents: 0,
            paused: false,
            pops: HashMap::new(),
            queens: HashMap::new(),
        }
    }

    /// What [`Game::spawn_insect`] does, `self` becoming `g2`: `insect` is
    /// stored under the next id, which is then used up, and takes its cell
    /// on the map if it can.
    pub open spec fn spawned(self, insect: Insect, g2: Game) -> bool {
        let id = self.insects_id;
        &&& g2.insects_id == id + 1
        &&& g2.insects@ == self.insects@.insert(id, with_id(insect, id))
        &&& !self.insects@.contains_key(id)
        &&& exists|res| self.map.occupy_effect(insect.base.pos, (insect.base.faction, id), g2.map, res)
        &&& g2.same_settings(self)
    }

    /// Puts `insect` into the game under the next free id, which it returns;
    /// the insect takes its cell if it can.
    pub fn spawn_insect(&mut self, insect: Insect) -> (id: Id)
        requires
            old(self).wf(),
            insect.wf(old(self).map),
            old(self).insects_id < u32::MAX,
        ensures
            final(self).wf(),
            id == old(self).insects_id,
            old(self).spawned(insect, *final(self)),
            final(self).player_id == old(self).player_id,
    {
        let mut insect = insect;
        let ghost b0 = insect.base;
        let id = self.insects_id;
        self.insects_id = id + 1;
        insect.base.id = id;
        let ghost m0 = self.map;
        let res = self.map.occupy(insect.base.pos, (insect.base.faction, id));
        assert(m0.occupy_effect(b0.pos, (b0.faction, id), self.map, res));
        proof {
            lemma_insects_fit_map(self.insects@, m0, self.map, self.insects_id);
            lemma_fits_after_eating(insect.spec, b0, m0, insect.base, self.map);
        }
        self.insects.insert(id, insect);
        id
    }

    /// What [`Game::spawn_ant_colony`] does, `self` becoming `g2`: a queen
    /// at `pos` under the next id, then `STARTING_ANTS` workers of hers under
    /// the ids that follow; the queen takes her cell if she can (the workers
    /// then find it held).
    pub open spec fn colony_spawned(self, pos: Pos, faction: Faction, g2: Game) -> bool {
        let q = self.insects_id;
        &&& g2.insects_id == q + 1 + STARTING_ANTS
        &&& g2.queens@ == self.queens@.insert(faction, q)
        &&& g2.insects@.dom() == self.insects@.dom().union(Set::new(|id: Id| q <= id <= q + STARTING_ANTS))
        &&& forall|id: Id| #[trigger] self.insects@.contains_key(id) ==> g2.insects@[id] == self.insects@[id]
        &&& g2.insects@[q].base.id == q
        &&& with_id(g2.insects@[q], 0).base.fresh(pos, faction, ant_queen_traits())
        &&& g2.insects@[q].spec is AntQueen
        &&& forall|id: Id| q < id <= q + STARTING_ANTS ==> is_new_ant(
            with_id(#[trigger] g2.insects@[id], 0),
            pos,
            faction,
            q,
        ) && g2.insects@[id].base.id == id
        &&& exists|m1: WorldMap, r|
            #![trigger self.map.occupy_effect(pos, (faction, q), m1, r)]
            {
            &&& self.map.occupy_effect(pos, (faction, q), m1, r)
            &&& g2.map.grid() == m1.grid()
            &&& g2.map.size == m1.size
            &&& g2.map.scent_grids == m1.scent_grids
        }
        &&& g2.player_id == self.player_id
        &&& g2.speed == self.speed
        &&& g2.game_over == self.game_over
        &&& g2.game_won == self.game_won
        &&& g2.player_last_pos == self.player_last_pos
        &&& g2.player_dir == self.player_dir
        &&& g2.player_faction == self.player_faction
        &&& g2.show_scents == self.show_scents
        &&& g2.paused == self.paused
        &&& g2.pops@ == self.pops@
    }

    /// Founds an ant colony at `pos`: a queen and her workers.
    pub fn spawn_ant_colony(&mut self, pos: Pos, faction: Faction)
        requires
            old(self).wf(),
            old(self).map.valid(pos),
            faction < 3,
            old(self).insects_id + 1 + STARTING_ANTS <= u32::MAX,
        ensures
            final(self).wf(),
            old(self).colony_spawned(pos, faction, *final(self)),
    {
        let ghost g0 = *self;
        let queen_insect = AntQueen::new(pos, faction);
        let queen = self.spawn_insect(queen_insect);
        let ghost g1 = *self;
        self.queens.insert(faction, queen);
        let ghost m1 = self.map;
        let mut i: usize = 0;
        while i < STARTING_ANTS
            invariant
                i <= STARTING_ANTS,
                self.wf(),
                queen == g0.insects_id,
                self.insects_id == queen + 1 + i,
                g0.insects_id + 1 + STARTING_ANTS <= u32::MAX,
                m1.valid(pos),
                m1.wf(),
                faction < 3,
                m1.cell(pos).kind() == CellType::Rock || m1.cell(pos).occupant().is_some(),
                self.map.grid() == m1.grid(),
                self.map.size == m1.size,
                self.map.scent_grids == m1.scent_grids,
                self.insects@.dom() == g1.insects@.dom().union(Set::new(|id: Id| queen < id < queen + 1 + i)),
                forall|id: Id| #[trigger] g1.insects@.contains_key(id) ==> self.insects@[id] == g1.insects@[id],
                forall|id: Id| queen < id < queen + 1 + i ==> is_new_ant(
                    with_id(#[trigger] self.insects@[id], 0),
                    pos,
                    faction,
                    queen,
                ) && self.insects@[id].base.id == id,
                self.queens@ == g0.queens@.insert(faction, queen),
                self.player_id == g0.player_id,
                self.speed == g0.speed,
                self.game_over == g0.game_over,
                self.game_won == g0.game_won,
                self.player_last_pos == g0.player_last_pos,
                self.player_dir == g0.player_dir,
                self.player_faction == g0.player_faction,
                self.show_scents == g0.show_scents,
                self.paused == g0.paused,
                self.pops@ == g0.pops@,
            decreases STARTING_ANTS - i,
        {
            let ant = Ant::new(pos, faction, queen);
            let ghost mb = self.map;
            let id = self.spawn_insect(ant);
            proof {
                let r = choose|r| mb.occupy_effect(pos, (faction, id), self.map, r);
                lemma_occupy_held(mb, pos, (faction, id), self.map, r);
            }
            i += 1;
        }
        proof {
            assert(self.insects@.dom() =~= g0.insects@.dom().union(Set::new(|id: Id| queen <= id <= queen + STARTING_ANTS)));
            let r = choose|r| g0.map.occupy_effect(pos, (faction, queen), g1.map, r);
            assert(g0.map.occupy_effect(pos, (faction, queen), m1, r));
            assert(g1.insects@.contains_key(queen));
            assert(self.insects@[queen] == g1.insects@[queen]);
            assert(with_id(self.insects@[queen], 0) == queen_insect);
            assert forall|id: Id| #[trigger] g0.insects@.contains_key(id) implies self.insects@[id] == g0.insects@[id] by {
                assert(g1.insects@.contains_key(id));
            }
        }
    }

    /// What the critters of [`Game::generate`] are, `self` becoming `g2`:
    /// `STARTING_PILLBUGS` pillbugs, then `STARTING_SPIDERS` spiders, then
    /// `STARTING_CENTIPEDES` centipedes under the next ids, each at a
    /// random place on the map. The terrain and scents stay; who held a cell
    /// keeps it.
    pub open spec fn critters_spawned(self, g2: Game) -> bool {
        let n = self.insects_id;
        &&& g2.wf()
        &&& g2.insects_id == n + CRITTERS
        &&& g2.insects@.dom() == self.insects@.dom().union(Set::new(|id: Id| n <= id < n + CRITTERS))
        &&& forall|id: Id| #[trigger] self.insects@.contains_key(id) ==> g2.insects@[id] == self.insects@[id]
        &&& forall|id: Id| n <= id < n + CRITTERS ==> is_critter(#[trigger] g2.insects@[id], (id - n) as int)
        &&& same_ground(self.map, g2.map)
        &&& stepped_on(self.map, g2.insects@, n as int, CRITTERS as nat, g2.map)
        &&& g2.player_id == self.player_id
        &&& g2.queens@ == self.queens@
        &&& g2.same_settings(self)
    }

    /// The steps of [`Game::generate`]: the critters (`self` to `g1`), the
    /// blue colony (`g1` to `g2`), the red colony (`g2` to `g3`) and the
    /// player's insect (`g3` to `g4`).
    pub open spec fn generated(self, g1: Game, g2: Game, g3: Game, g4: Game) -> bool {
        &&& self.critters_spawned(g1)
        &&& g1.colony_spawned(Pos { x: NEST_X, y: NEST_Y }, FACTION_BLUE_ANTS, g2)
        &&& g2.colony_spawned(Pos { x: NEST_2_X, y: NEST_2_Y }, FACTION_RED_ANTS, g3)
        &&& g3.player_spawned(g4)
    }

    /// Populates a new world: the critters, two ant colonies, and the
    /// player's insect; see [`Game::generated`].
    pub fn generate(&mut self)
        requires
            old(self).wf(),
            old(self).map.size == (Pos { x: MAP_SIZE, y: MAP_SIZE }),
            old(self).insects_id + CRITTERS + 2 * (1 + STARTING_ANTS) <= u32::MAX,
        ensures
            final(self).wf(),
            exists|g1: Game, g2: Game, g3: Game| #[trigger] old(self).generated(g1, g2, g3, *final(self)),
    {
        let ghost g0 = *self;
        let n = self.insects_id;
        let mut k: u32 = 0;
        while k < CRITTERS
            invariant
                k <= CRITTERS,
                n == g0.insects_id,
                n + CRITTERS + 2 * (1 + STARTING_ANTS) <= u32::MAX,
                self.wf(),
                self.map.size == (Pos { x: MAP_SIZE, y: MAP_SIZE }),
                self.insects_id == n + k,
                self.insects@.dom() == g0.insects@.dom().union(Set::new(|id: Id| n <= id < n + k)),
                forall|id: Id| #[trigger] g0.insects@.contains_key(id) ==> self.insects@[id] == g0.insects@[id],
                forall|id: Id| n <= id < n + k ==> is_critter(#[trigger] self.insects@[id], (id - n) as int),
                same_ground(g0.map, self.map),
                stepped_on(g0.map, self.insects@, n as int, k as nat, self.map),
                self.player_id == g0.player_id,
                self.queens@ == g0.queens@,
                self.same_settings(g0),
            decreases CRITTERS - k,
        {
            let pos = self.map.rand_pos();
            let bug = if (k as usize) < STARTING_PILLBUGS {
                Pillbug::new(pos)
            } else if (k as usize) < STARTING_PILLBUGS + STARTING_SPIDERS {
                Spider::new(pos)
            } else {
                Centipede::new(pos)
            };
            let ghost mb = self.map;
            let ghost gb = *self;
            let id = self.spawn_insect(bug);
            proof {
                let r = choose|r| mb.occupy_effect(pos, (bug.base.faction, id), self.map, r);
                lemma_occupy_same_ground(mb, pos, (bug.base.faction, id), self.map, r);
                lemma_same_ground_trans(g0.map, mb, self.map);
                assert forall|i: Id| #[trigger] g0.insects@.contains_key(i) implies self.insects@[i] == g0.insects@[i] by {
                    assert(gb.insects@.contains_key(i));
                }
                assert(with_id(self.insects@[id], 0) == bug);
                assert forall|i: Id| n <= i < n + k implies #[trigger] gb.insects@[i] == self.insects@[i] by {
                    assert(gb.insects@.contains_key(i));
                }
                lemma_stepped_on_ext(g0.map, gb.insects@, self.insects@, n as int, k as nat, mb);
                assert(self.insects@[id].base.pos == pos && self.insects@[id].base.faction == bug.base.faction);
                assert(mb.occupy_effect(self.insects@[id].base.pos, (self.insects@[id].base.faction, id), self.map, r));
                assert forall|i: Id| n <= i < n + k + 1 implies is_critter(#[trigger] self.insects@[i], (i - n) as int) by {
                    if i < n + k {
                        assert(gb.insects@.contains_key(i));
                    }
                }
            }
            k += 1;
        }
        proof {
            assert(self.insects@.dom() =~= g0.insects@.dom().union(Set::new(|id: Id| n <= id < n + CRITTERS)));
        }
        let ghost g1 = *self;
        self.spawn_ant_colony(Pos::new(NEST_X, NEST_Y), FACTION_BLUE_ANTS);
        let ghost g2 = *self;
        self.spawn_ant_colony(Pos::new(NEST_2_X, NEST_2_Y), FACTION_RED_ANTS);
        let ghost g3 = *self;
        self.spawn_player();
        proof {
            assert(g0.generated(g1, g2, g3, *self));
        }
    }

    /// What [`Game::spawn_player`] does, `self` becoming `g2`: if some insect
    /// is of the player's faction, one of them is handed to the player and
    /// becomes the player's insect; otherwise nothing changes.
    pub open spec fn player_spawned(self, g2: Game) -> bool {
        &&& g2.map == self.map
        &&& g2.insects_id == self.insects_id
        &&& g2.same_settings(self)
        &&& self.has_player_kind() ==> exists|k: Id|
            #![trigger self.insects@[k]]
            {
            &&& self.insects@.contains_key(k)
            &&& self.insects@[k].base.faction == self.player_faction
            &&& g2.player_id == k
            &&& g2.insects@ == self.insects@.insert(k, as_player(self.insects@[k]))
        }
        &&& !self.has_player_kind() ==> g2.insects@ == self.insects@ && g2.player_id == self.player_id
    }

    /// Hands an insect of the player's faction to the player, if there is
    /// one; which one, when there are several, depends on the order the
    /// insects are walked in.
    fn spawn_player(&mut self)
        requires
            old(self).wf(),
        ensures
            final(self).wf(),
            old(self).player_spawned(*final(self)),
    {
        let ids = ids_of(&self.insects);
        let mut i: usize = 0;
        while i < ids.len()
            invariant
                i <= ids@.len(),
                ids@.to_set() == self.insects@.dom(),
                *self == *old(self),
                old(self).wf(),
                forall|j: int| 0 <= j < i ==> self.insects@[#[trigger] ids@[j]].base.faction != self.player_faction,
            decreases ids.len() - i,
        {
            let k = ids[i];
            assert(ids@.to_set().contains(k));
            let matches = match self.insects.get(&k) {
                Some(insect) => insect.base.faction == self.player_faction,
                None => false,
            };
            if matches {
                let removed = self.insects.remove(&k);
                assert(removed == Some(old(self).insects@[k]));
                let insect = removed.unwrap();
                let new_insect = InsectPlayer::new(insect);
                self.player_id = new_insect.base.id;
                self.insects.insert(k, new_insect);
                proof {
                    assert(old(self).insects@.contains_key(k));
                    assert(self.insects@ == old(self).insects@.insert(k, as_player(old(self).insects@[k])));
                    assert(self.player_id == k);
                    assert(self.insects@[k].wf(self.map));
                    assert forall|id: Id| #[trigger] self.insects@.contains_key(id) implies {
                        &&& self.insects@[id].wf(self.map)
                        &&& self.insects@[id].base.id == id
                        &&& id < self.insects_id
                    } by {
                        if id != k {
                            assert(old(self).insects@.contains_key(id));
                        }
                    }
                }
                return;
            }
            i += 1;
        }
        proof {
            if old(self).has_player_kind() {
                let k = choose|k: Id| #[trigger] old(self).insects@.contains_key(k) && old(self).insects@[k].base.faction == old(self).player_faction;
                assert(ids@.to_set().contains(k));
                let j = choose|j: int| 0 <= j < ids@.len() && ids@[j] == k;
                assert(self.insects@[ids@[j]].base.faction != self.player_faction);
            }
        }
    }

    /// The counted factions with their counts, largest first; factions with
    /// equal counts come in the order the counts are walked.
    pub fn pops_by_size(&self) -> (r: Vec<(Faction, usize)>)
        ensures
            r@.len() == self.pops@.dom().len(),
            forall|i: int| 0 <= i < r@.len() ==> self.pops@.contains_key(#[trigger] r@[i].0) && self.pops@[r@[i].0] == r@[i].1,
            forall|i: int, j: int| 0 <= i < j < r@.len() ==> r@[i].0 != r@[j].0,
            forall|i: int, j: int| 0 <= i <= j < r@.len() ==> r@[i].1 >= r@[j].1,
    {
        let keys = keys_of(&self.pops);
        let mut v: Vec<(Faction, usize)> = Vec::new();
        let mut k: usize = 0;
        while k < keys.len()
            invariant
                k <= keys@.len(),
                keys@.no_duplicates(),
                keys@.to_set() == self.pops@.dom(),
                v@.len() == k,
                forall|i: int| 0 <= i < k ==> (#[trigger] v@[i]).0 == keys@[i] && self.pops@[keys@[i]] == v@[i].1,
            decreases keys.len() - k,
        {
            let f = keys[k];
            proof {
                assert(keys@.to_set().contains(f));
            }
            let c = match self.pops.get(&f) {
                Some(c) => *c,
                None => 0,
            };
            v.push((f, c));
            k += 1;
        }
        proof {
            keys@.unique_seq_to_set();
            assert forall|i: int| 0 <= i < v@.len() implies self.pops@.contains_key(#[trigger] v@[i].0) by {
                assert(keys@.to_set().contains(keys@[i]));
            }
        }
        let n = v.len();
        let mut i: usize = 1;
        while i < n
            invariant
                n == v@.len() == self.pops@.dom().len(),
                1 <= i <= n || n == 0,
                forall|a: int| 0 <= a < n ==> self.pops@.contains_key(#[trigger] v@[a].0) && self.pops@[v@[a].0] == v@[a].1,
                forall|a: int, b: int| 0 <= a < b < n ==> v@[a].0 != v@[b].0,
                forall|a: int, b: int| 0 <= a <= b < i ==> v@[a].1 >= v@[b].1,
            decreases n - i,
        {
            let mut j: usize = i;
            while j > 0 && v[j - 1].1 < v[j].1
                invariant
                    n == v@.len(),
                    0 <= j <= i < n,
                    forall|a: int| 0 <= a < n ==> self.pops@.contains_key(#[trigger] v@[a].0) && self.pops@[v@[a].0] == v@[a].1,
                    forall|a: int, b: int| 0 <= a < b < n ==> v@[a].0 != v@[b].0,
                    forall|a: int, b: int| 0 <= a <= b < j ==> v@[a].1 >= v@[b].1,
                    forall|a: int, b: int| j < a <= b <= i ==> v@[a].1 >= v@[b].1,
                    forall|a: int, b: int| 0 <= a < j && j < b <= i ==> v@[a].1 >= v@[b].1,
                    j < i ==> v@[j as int].1 > v@[j + 1].1,
                decreases j,
            {
                let ghost before = v@;
                let lo = v[j - 1];
                let hi = v[j];
                v.set(j - 1, hi);
                v.set(j, lo);
                proof {
                    assert forall|a: int, b: int| 0 <= a < b < n implies v@[a].0 != v@[b].0 by {
                        let pa = if a == j - 1 { j as int } else if a == j { j - 1 } else { a };
                        let pb = if b == j - 1 { j as int } else if b == j { j - 1 } else { b };
                        assert(v@[a] == before[pa] && v@[b] == before[pb]);
                        if pa < pb {
                            assert(before[pa].0 != before[pb].0);
                        } else {
                            assert(before[pb].0 != before[pa].0);
                        }
                    }
                    assert forall|a: int| 0 <= a < n implies self.pops@.contains_key(#[trigger] v@[a].0) && self.pops@[v@[a].0] == v@[a].1 by {
                        let pa = if a == j - 1 { j as int } else if a == j { j - 1 } else { a };
                        assert(v@[a] == before[pa]);
                    }
                }
                j -= 1;
            }
            i += 1;
        }
        v
    }

    /// Reads what the player asks: the direction to go, which scents to
    /// show, pausing and the speed. (Zooming is the camera's.)
    pub fn update_player_input(&mut self, input: PlayerInput)
        ensures
            final(self).player_dir == input_dir(input),
            final(self).show_scents == toggled(toggled(old(self).show_scents, 1, input.scents_1), 2, input.scents_2),
            final(self).paused == (old(self).paused != input.pause),
            final(self).speed == (if input.speed { old(self).speed.invert_spec() } else { old(self).speed }),
            final(self).map == old(self).map,
            final(self).insects@ == old(self).insects@,
            final(self).insects_id == old(self).insects_id,
            final(self).player_id == old(self).player_id,
            final(self).player_last_pos == old(self).player_last_pos,
            final(self).player_faction == old(self).player_faction,
            final(self).game_over == old(self).game_over,
            final(self).game_won == old(self).game_won,
            final(self).pops@ == old(self).pops@,
            final(self).queens@ == old(self).queens@,
    {
        let mut input_dir = dirs::none();
        if input.right {
            input_dir.x = 1;
        } else if input.left {
            input_dir.x = -1;
        }
        if input.up {
            input_dir.y = -1;
        } else if input.down {
            input_dir.y = 1;
        }
        self.player_dir = input_dir;
        if input.scents_1 {
            if self.show_scents == 1 {
                self.show_scents = 0;
            } else {
                self.show_scents = 1;
            }
        }
        if input.scents_2 {
            if self.show_scents == 2 {
                self.show_scents = 0;
            } else {
                self.show_scents = 2;
            }
        }
        if input.pause {
            self.paused = !self.paused;
        }
        if input.speed {
            self.speed = self.speed.invert();
        }
    }

    /// What [`Game::update_player`] does, `self` becoming `g2` with event
    /// `r`: with `act`, the player's insect tries its action; unless that
    /// asks something of the game, the insect's place is noted and, if the
    /// player points somewhere, it tries to step that way. Without a
    /// player's insect nothing happens.
    pub open spec fn player_updated(self, act: bool, g2: Game, r: Option<Event>) -> bool {
        let pid = self.player_id;
        let p = self.insects@[pid];
        &&& g2.insects_id == self.insects_id
        &&& g2.player_id == self.player_id
        &&& g2.speed == self.speed
        &&& g2.game_over == self.game_over
        &&& g2.game_won == self.game_won
        &&& g2.player_dir == self.player_dir
        &&& g2.player_faction == self.player_faction
        &&& g2.show_scents == self.show_scents
        &&& g2.paused == self.paused
        &&& g2.pops@ == self.pops@
        &&& g2.queens@ == self.queens@
        &&& !self.insects@.contains_key(pid) ==> {
            &&& g2.insects@ == self.insects@
            &&& g2.map == self.map
            &&& g2.player_last_pos == self.player_last_pos
            &&& r.is_none()
        }
        &&& self.insects@.contains_key(pid) ==> exists|p1: Insect, m1: WorldMap, r1: Option<Event>|
            #[trigger] self.player_steps(act, g2, r, p1, m1, r1)
    }

    /// The steps of [`Game::player_updated`] for a player's insect that
    /// became `p1` on `m1` with event `r1` after its action.
    pub open spec fn player_steps(self, act: bool, g2: Game, r: Option<Event>, p1: Insect, m1: WorldMap, r1: Option<Event>) -> bool {
        let pid = self.player_id;
        let p = self.insects@[pid];
        &&& if act {
            tried(p, self.map, Action::ActionA, p1, m1, r1)
        } else {
            p1 == p && m1 == self.map && r1.is_none()
        }
        &&& if r1.is_some() {
            &&& g2.insects@ == self.insects@.insert(pid, p1)
            &&& g2.map == m1
            &&& g2.player_last_pos == self.player_last_pos
            &&& r == r1
        } else {
            &&& g2.player_last_pos == p1.base.pos
            &&& if self.player_dir != (Pos { x: 0, y: 0 }) {
                exists|p2: Insect|
                    #![trigger tried(p1, m1, Action::Move(self.player_dir), p2, g2.map, r)]
                    {
                    &&& tried(p1, m1, Action::Move(self.player_dir), p2, g2.map, r)
                    &&& g2.insects@ == self.insects@.insert(pid, p2)
                }
            } else {
                &&& g2.insects@ == self.insects@.insert(pid, p1)
                &&& g2.map == m1
                &&& r.is_none()
            }
        }
    }

    /// The player's turn; see [`Game::player_updated`]. An action the
    /// player's insect cannot answer is not tried.
    pub fn update_player(&mut self, act: bool) -> (r: Option<Event>)
        requires
            old(self).wf(),
        ensures
            final(self).wf(),
            old(self).player_updated(act, *final(self), r),
            r matches Some(Event::Birth(young)) ==> young.wf(final(self).map),
    {
        let pid = self.player_id;
        let removed = self.insects.remove(&pid);
        if removed.is_none() {
            proof {
                assert(self.insects@ =~= old(self).insects@);
            }
            return None;
        }
        let mut player = removed.unwrap();
        let ghost g0 = *old(self);
        let ghost p0 = player;
        proof {
            assert(g0.insects@.contains_key(pid));
            assert(p0 == g0.insects@[pid]);
        }
        let mut first: Option<Event> = None;
        if act && player.can_answer(Action::ActionA) {
            first = player.player_action(&mut self.map, Action::ActionA);
        }
        let ghost p1 = player;
        let ghost m1 = self.map;
        proof {
            lemma_insects_fit_map(self.insects@, g0.map, self.map, self.insects_id);
        }
        if first.is_some() {
            self.insects.insert(pid, player);
            proof {
                assert(tried(p0, g0.map, Action::ActionA, p1, m1, first));
                lemma_reinsert_fits(g0.insects@, pid, player, self.map, self.insects_id);
                assert(self.insects@ == g0.insects@.insert(pid, p1));
                assert(g0.player_steps(act, *self, first, p1, m1, first));
            }
            return first;
        }
        self.player_last_pos = player.base.pos;
        let dir = self.player_dir;
        let mut second: Option<Event> = None;
        if dir != dirs::none() && player.can_answer(Action::Move(dir)) {
            second = player.player_action(&mut self.map, Action::Move(dir));
        }
        proof {
            lemma_insects_fit_map(self.insects@, m1, self.map, self.insects_id);
        }
        self.insects.insert(pid, player);
        proof {
            lemma_reinsert_fits(g0.insects@, pid, player, self.map, self.insects_id);
            assert(self.insects@ == g0.insects@.insert(pid, player));
            assert(act ==> tried(p0, g0.map, Action::ActionA, p1, m1, first));
            if dir != (Pos { x: 0, y: 0 }) {
                assert(tried(p1, m1, Action::Move(dir), player, self.map, second));
            } else {
                assert(player == p1 && self.map == m1);
            }
            assert(g0.player_steps(act, *self, second, p1, m1, first));
        }
        second
    }
}

/// The `k`-th critter of a new world: pillbugs first, then spiders, then
/// centipedes, each new where it stands and stored under its id.
pub open spec fn is_critter(i: Insect, k: int) -> bool {
    let young = with_id(i, 0);
    if k < STARTING_PILLBUGS {
        is_new_pillbug(young, i.base.pos)
    } else if k < STARTING_PILLBUGS + STARTING_SPIDERS {
        is_new_spider(young, i.base.pos)
    } else {
        is_new_centipede(young, i.base.pos)
    }
}

/// `m2` has the size, terrain and scents of `m`, and whoever held a cell of
/// `m` holds it in `m2`.
pub open spec fn same_ground(m: WorldMap, m2: WorldMap) -> bool {
    &&& m2.size == m.size
    &&& m2.scent_grids == m.scent_grids
    &&& forall|p: Pos| #[trigger] m.valid(p) ==> {
        &&& m2.cell(p).kind() == m.cell(p).kind()
        &&& m.cell(p).occupant().is_some() ==> m2.cell(p).occupant() == m.cell(p).occupant()
    }
}

/// The insects of `ins` with ids `n` to `n + k - 1` stepped onto their
/// cells one after another, in the order of their ids, the map `m`
/// becoming `m2`.
pub open spec fn stepped_on(m: WorldMap, ins: Map<Id, Insect>, n: int, k: nat, m2: WorldMap) -> bool
    decreases k,
{
    if k == 0 {
        m2 == m
    } else {
        let id = (n + k - 1) as Id;
        exists|m1: WorldMap, r: Result<(), crate::map::OccupyError>|
            #![trigger m1.occupy_effect(ins[id].base.pos, (ins[id].base.faction, id), m2, r)]
            {
            &&& stepped_on(m, ins, n, (k - 1) as nat, m1)
            &&& m1.occupy_effect(ins[id].base.pos, (ins[id].base.faction, id), m2, r)
        }
    }
}

/// [`stepped_on`] reads only the insects it steps.
pub proof fn lemma_stepped_on_ext(m: WorldMap, ins1: Map<Id, Insect>, ins2: Map<Id, Insect>, n: int, k: nat, m2: WorldMap)
    requires
        stepped_on(m, ins1, n, k, m2),
        0 <= n,
        n + k <= u32::MAX + 1,
        forall|id: Id| n <= id < n + k ==> #[trigger] ins1[id] == ins2[id],
    ensures
        stepped_on(m, ins2, n, k, m2),
    decreases k,
{
    if k > 0 {
        let id = (n + k - 1) as Id;
        let (m1, r) = choose|m1: WorldMap, r: Result<(), crate::map::OccupyError>|
            #![trigger m1.occupy_effect(ins1[id].base.pos, (ins1[id].base.faction, id), m2, r)]
            {
            &&& stepped_on(m, ins1, n, (k - 1) as nat, m1)
            &&& m1.occupy_effect(ins1[id].base.pos, (ins1[id].base.faction, id), m2, r)
        };
        lemma_stepped_on_ext(m, ins1, ins2, n, (k - 1) as nat, m1);
        assert(ins1[id] == ins2[id]);
        assert(m1.occupy_effect(ins2[id].base.pos, (ins2[id].base.faction, id), m2, r));
    }
}

/// Once a cell is rock or held, stepping onto it again changes nothing.
pub proof fn lemma_occupy_held(m1: WorldMap, p: Pos, occupant: (Faction, Id), m2: WorldMap, r: Result<(), crate::map::OccupyError>)
    requires
        m1.wf(),
        m1.valid(p),
        m1.cell(p).kind() == CellType::Rock || m1.cell(p).occupant().is_some(),
        m1.occupy_effect(p, occupant, m2, r),
    ensures
        m2.grid() == m1.grid(),
{
    lemma_cell_ext(m2.cell(p), m1.cell(p));
    lemma_grid_set_same(m1.grid(), p);
}

/// Stepping onto a cell keeps the ground.
pub proof fn lemma_occupy_same_ground(m: WorldMap, p: Pos, occupant: (Faction, Id), m2: WorldMap, r: Result<(), crate::map::OccupyError>)
    requires
        m.wf(),
        m.occupy_effect(p, occupant, m2, r),
    ensures
        same_ground(m, m2),
{
    assert forall|q: Pos| #[trigger] m.valid(q) implies {
        &&& m2.cell(q).kind() == m.cell(q).kind()
        &&& m.cell(q).occupant().is_some() ==> m2.cell(q).occupant() == m.cell(q).occupant()
    } by {
        if q != p {
            if m.valid(p) {
                assert(m2.grid()[q.y as int] == m.grid()[q.y as int] || q.y == p.y);
            }
        }
    }
}

/// The ground kept twice is kept.
pub proof fn lemma_same_ground_trans(m: WorldMap, m1: WorldMap, m2: WorldMap)
    requires
        same_ground(m, m1),
        same_ground(m1, m2),
    ensures
        same_ground(m, m2),
{
    assert forall|q: Pos| #[trigger] m.valid(q) implies {
        &&& m2.cell(q).kind() == m.cell(q).kind()
        &&& m.cell(q).occupant().is_some() ==> m2.cell(q).occupant() == m.cell(q).occupant()
    } by {
        assert(m1.valid(q));
    }
}

/// One try of `action` by the insect `p` on `m`: if the player may ask it,
/// the insect acts; otherwise nothing happens.
pub open spec fn tried(p: Insect, m: WorldMap, action: Action, p2: Insect, m2: WorldMap, r: Option<Event>) -> bool {
    if p.ready(m, action) {
        p.acts(m, action, p2, m2, r)
    } else {
        p2 == p && m2 == m && r.is_none()
    }
}

/// The keys of `m`, each once, in the order the map walks them.
fn keys_of<K: Copy + std::hash::Hash + Eq, V>(m: &HashMap<K, V>) -> (r: Vec<K>)
    requires
        vstd::std_specs::hash::obeys_key_model::<K>(),
    ensures
        r@.no_duplicates(),
        r@.to_set() == m@.dom(),
        r@.len() == m@.dom().len(),
{
    let mut r: Vec<K> = Vec::new();
    let ghost walk = vstd::std_specs::hash::spec_keys_iter(m).remaining();
    for k in it: m.keys()
        invariant
            it.seq() == walk,
            r@ == walk.take(it.index() as int).unref(),
    {
        r.push(*k);
        proof {
            assert(walk.take(it.index() + 1) == walk.take(it.index() as int).push(walk[it.index() as int]));
        }
    }
    proof {
        assert(r@ == walk.unref());
        r@.unique_seq_to_set();
    }
    r
}

/// The ids of the insects of `insects`, each once, in the order the map walks them.
fn ids_of(insects: &HashMap<Id, Insect>) -> (r: Vec<Id>)
    ensures
        r@.no_duplicates(),
        r@.to_set() == insects@.dom(),
        r@.len() == insects@.dom().len(),
{
    keys_of(insects)
}

/// Switching the speed twice gives it back.
pub proof fn law_invert_twice(s: Speed)
    ensures
        s.invert_spec().invert_spec() == s,
{
}

/// Pressing a scent key twice shows again what was shown, when that was
/// nothing or that scent.
pub proof fn law_toggle_twice(v: Faction, k: Faction)
    requires
        v == 0 || v == k,
        k != 0,
    ensures
        toggled(toggled(v, k, true), k, true) == v,
{
}

/// A spawned insect gets an id no other insect has, above every id in use,
/// and the next id moves past it.
pub proof fn law_spawn_fresh_id(g: Game, insect: Insect, g2: Game)
    requires
        g.wf(),
        g.spawned(insect, g2),
    ensures
        !g.insects@.contains_key(g.insects_id),
        forall|id: Id| #[trigger] g.insects@.contains_key(id) ==> id < g.insects_id,
        g2.insects@.contains_key(g.insects_id),
        g2.insects_id > g.insects_id,
{
}

} // verus!
