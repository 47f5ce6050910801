//! Insects: their shared state and behaviours.
use vstd::prelude::*;
use crate::map::{grid_set, lemma_cell_ext, lemma_grid_set_same, CellType, Faction, OccupyError, Sight, WorldMap, FACTION_NONE, MAX_MAP_DIM};
use crate::pos::Pos;
use crate::pos::dirs::{self, dir_at, dir_index, inverted, is_dir, rotated_left, rotated_right};
use crate::random::{gen_range_u32, rand_u32};
use crate::insect::ant::{ant_info, ant_queen_info, ant_queen_traits, ant_traits, ant_update_effect, queen_update_effect, Ant, AntQueen};
use crate::insect::centipede::{centipede_action_effect, centipede_info, centipede_traits, centipede_update_effect, Centipede};
use crate::insect::egg::{egg_info, egg_traits, egg_update_effect, Egg};
use crate::insect::pillbug::{pillbug_info, pillbug_traits, pillbug_update_effect, Pillbug};
use crate::insect::player::{player_update_effect, InsectPlayer};
use crate::insect::spider::{spider_action_effect, spider_info, spider_traits, spider_update_effect, Spider};

pub mod ant;
pub mod centipede;
pub mod egg;
pub mod pillbug;
pub mod player;
pub mod spider;

verus! {

/// An insect's identifier, unique within a game (0 means none).
pub type Id = u32;

pub type Hunger = u16;

pub type Health = u8;

/// What an insect sees ahead of it: five cells from far left to far right.
pub type Perception = [(Pos, Sight); 5];

/// An effect of one insect on another.
#[derive(Debug, Clone, Copy, PartialEq, Eq, Structural)]
pub struct Interact {
    pub src: Id,
    pub dst: Id,
    /// Negative is an attack, positive is food.
    pub amt: i8,
}

impl Interact {
    /// An attack of strength `amt`: always negative or zero, saturating at
    /// `-128` for strengths beyond what an `i8` holds.
    pub fn fight(src: Id, dst: Id, amt: u8) -> (r: Interact)
        ensures
            r.src == src,
            r.dst == dst,
            r.amt == if amt < 128 { -(amt as int) } else { -128 },
    {
        let a: i8 = if amt < 128 { -(amt as i8) } else { i8::MIN };
        Interact { src, dst, amt: a }
    }

    /// A gift of `amt` food: always positive or zero, saturating at `127`.
    pub fn feed(src: Id, dst: Id, amt: u8) -> (r: Interact)
        ensures
            r.src == src,
            r.dst == dst,
            r.amt == if amt < 128 { amt as int } else { 127 },
    {
        let a: i8 = if amt < 128 { amt as i8 } else { i8::MAX };
        Interact { src, dst, amt: a }
    }
}

/// What the player asks of their insect.
#[derive(Debug, Clone, Copy, PartialEq, Eq, Structural)]
pub enum Action {
    /// Step by this offset.
    Move(Pos),
    ActionA,
    ActionB,
}

/// What an insect's tick asks of the game.
pub enum Event {
    /// A new insect is born.
    Birth(Box<Insect>),
    /// The insect is replaced by this one (an egg hatching).
    Rebirth(Box<Insect>),
    Death(),
    Interact(Interact),
}

/// An insect: the state all insects share and the behaviour of its kind.
pub struct Insect {
    pub base: BaseInsect,
    pub spec: Behaviour,
}

/// The kinds of insect and what each kind keeps.
pub enum Behaviour {
    AntQueen(AntQueen),
    Ant(Ant),
    Centipede(Centipede),
    Egg(Egg),
    Pillbug(Pillbug),
    Spider(Spider),
    Player(InsectPlayer),
}

impl Behaviour {
    /// The player may ask this action of this kind (the kinds that have no
    /// answer to the player are left out, as is action B for spiders).
    pub open spec fn supports(self, action: Action) -> bool
        decreases self,
    {
        match self {
            Behaviour::Centipede(_) => true,
            Behaviour::Spider(_) => action != Action::ActionB,
            Behaviour::Player(p) => p.sub_insect.supports(action),
            _ => false,
        }
    }

    /// What [`Behaviour::player_action`] needs: a supported action, an
    /// insect on the map, a step of one cell for a move, and a centipede
    /// that keeps at least one segment.
    pub open spec fn action_ready(self, b: BaseInsect, m: WorldMap, action: Action) -> bool
        decreases self,
    {
        match self {
            Behaviour::Centipede(c) => c.wf(m) && b.wf(m) && !(c.segments().len() == 1 && b.health == 0),
            Behaviour::Spider(_) => action != Action::ActionB,
            Behaviour::Player(p) => {
                &&& b.wf(m)
                &&& (action matches Action::Move(step) ==> is_dir(step))
                &&& p.sub_insect.action_ready(b, m, action)
            },
            _ => false,
        }
    }

    /// What [`Behaviour::player_action`] does: the behaviour `self` on base
    /// `b` becomes `s2` on `b2`, the map `m` becomes `m2`, and `r` is the
    /// event. The player's insect first steps by a move's offset; unless
    /// that asks something of the game, its own kind then answers the action.
    pub open spec fn action_effect(self, b: BaseInsect, m: WorldMap, action: Action, s2: Behaviour, b2: BaseInsect, m2: WorldMap, r: Option<Event>) -> bool
        decreases self,
    {
        match self {
            Behaviour::Centipede(c) => s2 matches Behaviour::Centipede(c2)
                && centipede_action_effect(c, b, m, action, c2, b2, m2, r),
            Behaviour::Spider(_) => s2 is Spider && spider_action_effect(b, m, action, b2, m2, r),
            Behaviour::Player(p) => s2 matches Behaviour::Player(p2) && match action {
                Action::Move(step) => exists|b1: BaseInsect, m1: WorldMap, r1: Option<Event>|
                    #![trigger b.step_effect(m, b.pos.plus(step), b1, m1, r1)]
                    {
                    &&& b.step_effect(m, b.pos.plus(step), b1, m1, r1)
                    &&& if r1.is_some() {
                        b2 == b1 && m2 == m1 && r == r1 && p2.sub_insect == p.sub_insect
                    } else {
                        p.sub_insect.action_effect(b1, m1, action, *p2.sub_insect, b2, m2, r)
                    }
                },
                _ => p.sub_insect.action_effect(b, m, action, *p2.sub_insect, b2, m2, r),
            },
            _ => false,
        }
    }

    /// What the player asks of their insect, answered by its kind.
    pub fn player_action(&mut self, base: &mut BaseInsect, map: &mut WorldMap, action: Action) -> (r: Option<Event>)
        requires
            old(self).action_ready(*old(base), *old(map), action),
        ensures
            old(self).action_effect(*old(base), *old(map), action, *final(self), *final(base), *final(map), r),
            old(base).wf(*old(map)) ==> final(base).wf(*final(map)),
            final(base).info == old(base).info,
            final(base).health >= old(base).health,
            final(base).id == old(base).id,
            final(base).faction == old(base).faction,
            final(map).size == old(map).size,
            old(base).wf(*old(map)) ==> (r matches Some(Event::Birth(young)) ==> young.wf(*final(map))),
            old(self).fits(*old(base), *old(map)) ==> final(self).fits(*final(base), *final(map)),
        decreases *old(self),
    {
        let ghost b0 = *base;
        match self {
            Behaviour::Centipede(c) => {
                let r = c.player_action(base, map, action);
                proof {
                    match r {
                        Some(Event::Birth(ref young)) => {
                            assert(c.segments().contains(young.base.pos));
                            assert(young.base.wf(*map));
                        },
                        _ => {},
                    }
                }
                r
            },
            Behaviour::Spider(sp) => {
                let r = sp.player_action(base, map, action);
                proof {
                    match r {
                        Some(Event::Birth(ref young)) => {
                            assert(young.base.pos == b0.pos);
                        },
                        _ => {},
                    }
                }
                r
            },
            Behaviour::Player(p) => p.player_action(base, map, action),
            _ => None,
        }
    }
}

impl Behaviour {
    /// The insect fits its kind on this map: it stands on the map with its
    /// kind's traits (a worker ant of a faction that has a scent grid, a
    /// centipede whose segments lie on the map).
    pub open spec fn fits(self, b: BaseInsect, m: WorldMap) -> bool
        decreases self,
    {
        &&& b.wf(m)
        &&& match self {
            Behaviour::AntQueen(_) => b.info == ant_queen_traits() && b.faction < 3,
            Behaviour::Ant(_) => b.info == ant_traits() && b.faction < 3,
            Behaviour::Centipede(c) => b.info == centipede_traits() && c.wf(m),
            Behaviour::Egg(_) => b.info == egg_traits(),
            Behaviour::Pillbug(_) => b.info == pillbug_traits(),
            Behaviour::Spider(_) => b.info == spider_traits(),
            Behaviour::Player(p) => p.sub_insect.fits(b, m),
        }
    }

    /// What [`Behaviour::update`] does: the behaviour `self` on base `b`
    /// becomes `s2` on `b2`, the map `m` becomes `m2`, and `r` is the event.
    pub open spec fn update_effect(self, b: BaseInsect, m: WorldMap, s2: Behaviour, b2: BaseInsect, m2: WorldMap, r: Option<Event>) -> bool {
        match self {
            Behaviour::AntQueen(_) => s2 is AntQueen && m2 == m && queen_update_effect(b, b2, r),
            Behaviour::Ant(a) => s2 matches Behaviour::Ant(a2) && ant_update_effect(a, b, m, a2, b2, m2, r),
            Behaviour::Centipede(c) => s2 matches Behaviour::Centipede(c2) && centipede_update_effect(c, b, m, c2, b2, m2, r),
            Behaviour::Egg(e) => s2 matches Behaviour::Egg(e2) && b2 == b && m2 == m && egg_update_effect(e, e2, r),
            Behaviour::Pillbug(pb) => s2 matches Behaviour::Pillbug(pb2) && pillbug_update_effect(pb, b, m, pb2, b2, m2, r),
            Behaviour::Spider(_) => s2 is Spider && spider_update_effect(b, m, b2, m2, r),
            Behaviour::Player(p) => s2 == self && player_update_effect(b, m, b2, m2) && r.is_none(),
        }
    }

    /// The kind's own tick.
    pub fn update(&mut self, base: &mut BaseInsect, map: &mut WorldMap) -> (r: Option<Event>)
        requires
            old(self).fits(*old(base), *old(map)),
            old(base).health != 0,
        ensures
            old(self).update_effect(*old(base), *old(map), *final(self), *final(base), *final(map), r),
            final(self).fits(*final(base), *final(map)),
            final(base).faction == old(base).faction,
            final(base).id == old(base).id,
            r matches Some(Event::Birth(young)) ==> young.wf(*final(map)),
    {
        let ghost b0 = *base;
        let ghost m0 = *map;
        match self {
            Behaviour::AntQueen(q) => {
                let r = q.update(base);
                proof {
                    match r {
                        Some(Event::Birth(ref young)) => {
                            assert(young.base.wf(*map));
                        },
                        _ => {},
                    }
                }
                r
            },
            Behaviour::Ant(a) => a.update(base, map),
            Behaviour::Centipede(c) => {
                let r = c.update(base, map);
                proof {
                    match r {
                        Some(Event::Birth(ref young)) => {
                            assert(c.segments().contains(young.base.pos));
                            assert(young.base.wf(*map));
                        },
                        _ => {},
                    }
                }
                r
            },
            Behaviour::Egg(e) => e.update(),
            Behaviour::Pillbug(pb) => {
                let r = pb.update(base, map);
                proof {
                    match r {
                        Some(Event::Birth(ref young)) => {
                            assert(young.base.pos == b0.pos);
                            assert(young.base.wf(*map));
                        },
                        _ => {},
                    }
                }
                r
            },
            Behaviour::Spider(sp) => {
                let r = sp.update(base, map);
                proof {
                    match r {
                        Some(Event::Birth(ref young)) => {
                            assert(young.base.pos == b0.pos);
                            assert(young.base.wf(*map));
                        },
                        _ => {},
                    }
                }
                r
            },
            Behaviour::Player(p) => {
                let r = p.update(base, map);
                proof {
                    lemma_fits_after_eating(*p.sub_insect, *old(base), m0, *base, *map);
                }
                r
            },
        }
    }
}

impl Behaviour {
    /// Whether the player may ask `action` of this kind on base `base`, for
    /// an insect that fits the map (see [`Behaviour::action_ready`]).
    pub fn can_answer(&self, base: &BaseInsect, action: Action) -> (r: bool)
        ensures
            forall|m: WorldMap| #[trigger] self.fits(*base, m) ==> (r == self.action_ready(*base, m, action)),
        decreases self,
    {
        match self {
            Behaviour::Centipede(c) => {
                let r = !(c.length() == 1 && base.health == 0);
                assert forall|m: WorldMap| #[trigger] self.fits(*base, m) implies (r == self.action_ready(*base, m, action)) by {
                    assert(c.wf(m) && base.wf(m));
                }
                r
            },
            Behaviour::Spider(_) => action != Action::ActionB,
            Behaviour::Player(p) => {
                let step_ok = match action {
                    Action::Move(step) => dirs::is_direction(step),
                    _ => true,
                };
                let r = step_ok && p.sub_insect.can_answer(base, action);
                assert forall|m: WorldMap| #[trigger] self.fits(*base, m) implies (r == self.action_ready(*base, m, action)) by {
                    assert(p.sub_insect.fits(*base, m));
                    assert(base.wf(m));
                }
                r
            },
            _ => false,
        }
    }

    /// Whether this kind fits the base `base` on `map` (see [`Behaviour::fits`]).
    pub fn fits_map(&self, base: &BaseInsect, map: &WorldMap) -> (r: bool)
        requires
            map.wf(),
        ensures
            r == self.fits(*base, *map),
        decreases self,
    {
        if !(map.is_valid(base.pos) && dirs::is_direction(base.dir)) {
            return false;
        }
        match self {
            Behaviour::AntQueen(_) => base.info == ant_queen_info() && base.faction < 3,
            Behaviour::Ant(_) => base.info == ant_info() && base.faction < 3,
            Behaviour::Centipede(c) => base.info == centipede_info() && c.on_map(map),
            Behaviour::Egg(_) => base.info == egg_info(),
            Behaviour::Pillbug(_) => base.info == pillbug_info(),
            Behaviour::Spider(_) => base.info == spider_info(),
            Behaviour::Player(p) => p.sub_insect.fits_map(base, map),
        }
    }
}

/// Eating (or not) on its own cell keeps an insect fitting its kind.
pub proof fn lemma_fits_after_eating(s: Behaviour, b: BaseInsect, m: WorldMap, b1: BaseInsect, m1: WorldMap)
    requires
        s.fits(b, m),
        b1.wf(m1),
        m1.size == m.size,
        b1.info == b.info,
        b1.faction == b.faction,
    ensures
        s.fits(b1, m1),
    decreases s,
{
    match s {
        Behaviour::Centipede(c) => {
            assert forall|i: int| 0 <= i < c.segments().len() implies m1.valid(#[trigger] c.segments()[i]) by {
                assert(m.valid(c.segments()[i]));
            }
        },
        Behaviour::Player(p) => {
            lemma_fits_after_eating(*p.sub_insect, b, m, b1, m1);
        },
        _ => {},
    }
}

impl Insect {
    /// The insect stands on the map and fits its kind.
    pub open spec fn wf(self, m: WorldMap) -> bool {
        self.spec.fits(self.base, m)
    }

    /// The player may ask `action` of this insect on `m`.
    pub open spec fn ready(self, m: WorldMap, action: Action) -> bool {
        self.spec.action_ready(self.base, m, action)
    }

    /// What [`Insect::player_action`] does: the insect `self` on `m`
    /// answers `action`, becoming `i2` on `m2` with event `r`.
    pub open spec fn acts(self, m: WorldMap, action: Action, i2: Insect, m2: WorldMap, r: Option<Event>) -> bool {
        &&& self.spec.action_effect(self.base, m, action, i2.spec, i2.base, m2, r)
        &&& i2.base.id == self.base.id
        &&& i2.base.faction == self.base.faction
    }

    /// Whether the player may ask `action` of this insect, when it fits the
    /// map (see [`Insect::ready`]).
    pub fn can_answer(&self, action: Action) -> (r: bool)
        ensures
            forall|m: WorldMap| #[trigger] self.wf(m) ==> (r == self.ready(m, action)),
    {
        self.spec.can_answer(&self.base, action)
    }

    /// Whether the insect fits its kind on `map` (see [`Insect::wf`]).
    pub fn fits_map(&self, map: &WorldMap) -> (r: bool)
        requires
            map.wf(),
        ensures
            r == self.wf(*map),
    {
        self.spec.fits_map(&self.base, map)
    }

    /// What [`Insect::update`] does: the insect `self` on map `m` becomes
    /// `i2` on `m2` with event `r`. It waits out its speed; when it moves, it
    /// dies of wounds or hunger, or else its kind acts.
    pub open spec fn tick_effect(self, m: WorldMap, i2: Insect, m2: WorldMap, r: Option<Event>) -> bool {
        &&& i2.base.faction == self.base.faction
        &&& i2.base.id == self.base.id
        &&& self.base.speed != 0 ==> ({
            &&& i2.base == (BaseInsect { speed: (self.base.speed - 1) as u8, ..self.base })
            &&& i2.spec == self.spec
            &&& m2 == m
            &&& r.is_none()
        })
        &&& self.base.speed == 0 ==> ({
            let b1 = (BaseInsect { speed: self.base.info.max_speed, ..self.base });
            let b2 = (BaseInsect { hunger: b1.hunger.saturating_sub(1), ..b1 });
            if b1.health == 0 {
                &&& i2.base == b1
                &&& i2.spec == self.spec
                &&& m2 == m
                &&& r == Some(Event::Death())
            } else if b2.hunger == 0 {
                &&& i2.base == b2
                &&& i2.spec == self.spec
                &&& m2 == m
                &&& r == Some(Event::Death())
            } else {
                self.spec.update_effect(b2, m, i2.spec, i2.base, m2, r)
            }
        })
    }

    /// An insect's tick; see [`Insect::tick_effect`].
    pub fn update(&mut self, map: &mut WorldMap) -> (r: Option<Event>)
        requires
            old(self).wf(*old(map)),
        ensures
            final(self).wf(*final(map)),
            final(map).size == old(map).size,
            old(self).tick_effect(*old(map), *final(self), *final(map), r),
            r matches Some(Event::Birth(young)) ==> young.wf(*final(map)),
    {
        let moves = self.base.will_move();
        proof {
            lemma_fits_after_eating(self.spec, old(self).base, *map, self.base, *map);
        }
        if !moves {
            return None;
        }
        let first = self.base.update();
        proof {
            lemma_fits_after_eating(self.spec, old(self).base, *map, self.base, *map);
        }
        if first.is_some() {
            return first;
        }
        self.spec.update(&mut self.base, map)
    }

    /// The player's action, answered by the insect's kind.
    pub fn player_action(&mut self, map: &mut WorldMap, action: Action) -> (r: Option<Event>)
        requires
            old(self).spec.action_ready(old(self).base, *old(map), action),
        ensures
            old(self).spec.action_effect(old(self).base, *old(map), action, final(self).spec, final(self).base, *final(map), r),
            old(self).base.wf(*old(map)) ==> final(self).base.wf(*final(map)),
            final(self).base.id == old(self).base.id,
            final(self).base.faction == old(self).base.faction,
            final(map).size == old(map).size,
            old(self).base.wf(*old(map)) ==> (r matches Some(Event::Birth(young)) ==> young.wf(*final(map))),
            old(self).wf(*old(map)) ==> final(self).wf(*final(map)),
    {
        self.spec.player_action(&mut self.base, map, action)
    }

    /// The insect after the interaction `x`: an attack (negative amount)
    /// costs health, not below zero; food (otherwise) adds to its hunger,
    /// saturating.
    pub open spec fn interacted(self, x: Interact) -> Insect {
        if x.amt < 0 {
            Insect { base: BaseInsect { health: self.base.health.saturating_sub((-(x.amt as int)) as u8), ..self.base }, spec: self.spec }
        } else {
            Insect { base: BaseInsect { hunger: self.base.hunger.saturating_add(x.amt as u16), ..self.base }, spec: self.spec }
        }
    }

    /// Suffers an attack or takes food; see [`Insect::interacted`].
    pub fn interact(&mut self, interact: Interact)
        requires
        ensures
            *final(self) == old(self).interacted(interact),
    {
        if interact.amt < 0 {
            let strength: i16 = -(interact.amt as i16);
            self.base.health = self.base.health.saturating_sub(strength as Health);
        } else {
            self.base.hunger = self.base.hunger.saturating_add(interact.amt as Hunger);
        }
    }

    /// What [`Insect::die`] does to the map `m`, giving `m2`: the insect's
    /// cell is freed, and becomes food if it is empty.
    pub open spec fn death_effect(self, m: WorldMap, m2: WorldMap) -> bool {
        &&& m2.size == m.size
        &&& m2.scent_grids == m.scent_grids
        &&& exists|m1: WorldMap, res|
            #![trigger m.free_effect(self.base.pos, (self.base.faction, self.base.id), m1, res)]
            {
            &&& m.free_effect(self.base.pos, (self.base.faction, self.base.id), m1, res)
            &&& if m1.valid(self.base.pos) && m1.cell(self.base.pos).kind() == CellType::Empty {
                &&& m2.cell(self.base.pos).kind() == CellType::Food
                &&& m2.cell(self.base.pos).occupant() == m1.cell(self.base.pos).occupant()
                &&& m2.grid() == m1.grid_with(self.base.pos, m2.cell(self.base.pos))
            } else {
                m2.grid() == m1.grid()
            }
        }
    }

    /// The insect leaves the map; see [`Insect::death_effect`].
    pub fn die(&self, map: &mut WorldMap)
        requires
            old(map).wf(),
        ensures
            final(map).wf(),
            self.death_effect(*old(map), *final(map)),
    {
        let res = map.free(self.base.pos, (self.base.faction, self.base.id));
        let ghost m1 = *map;
        match map.get_cell_mut(self.base.pos) {
            Some(cell) => {
                if cell.is_type(CellType::Empty) {
                    cell.set_type(CellType::Food);
                }
            },
            None => {},
        }
        proof {
            if m1.valid(self.base.pos) && m1.cell(self.base.pos).kind() != CellType::Empty {
                lemma_cell_ext(map.cell(self.base.pos), m1.cell(self.base.pos));
                lemma_grid_set_same(m1.grid(), self.base.pos);
            }
            assert(old(map).free_effect(self.base.pos, (self.base.faction, self.base.id), m1, res));
        }
    }
}

/// What the player asks stays possible after the player's insect stepped.
pub proof fn lemma_action_ready_after_step(s: Behaviour, b: BaseInsect, m: WorldMap, action: Action, b1: BaseInsect, m1: WorldMap)
    requires
        s.action_ready(b, m, action),
        b1.wf(m1),
        m1.size == m.size,
        b1.health == b.health,
        b1.info == b.info,
    ensures
        s.action_ready(b1, m1, action),
    decreases s,
{
    match s {
        Behaviour::Centipede(c) => {
            assert forall|i: int| 0 <= i < c.segments().len() implies m1.valid(#[trigger] c.segments()[i]) by {
                assert(m.valid(c.segments()[i]));
            }
        },
        Behaviour::Player(p) => {
            lemma_action_ready_after_step(*p.sub_insect, b, m, action, b1, m1);
        },
        _ => {},
    }
}

/// The fixed traits of a kind of insect.
#[derive(Debug, Clone, Copy, PartialEq, Eq, Structural)]
pub struct InsectInfo {
    pub max_health: Health,
    pub max_speed: u8,
    pub damage: Health,
}

/// What an omnivore wants most among what it sees.
#[derive(Debug, Clone, Copy, PartialEq, Eq, Structural)]
pub enum Seek {
    Food(Pos),
    Enemy(Pos),
    Nothing,
}

/// The state every insect has.
#[derive(Debug, Clone, Copy)]
pub struct BaseInsect {
    pub pos: Pos,
    pub dir: Pos,
    pub hunger: Hunger,
    pub health: Health,
    pub faction: Faction,
    pub id: Id,
    /// Ticks left before the next move.
    pub speed: u8,
    pub info: InsectInfo,
}

/// The five offsets an insect looks along: two turns left, one turn left,
/// straight ahead, one turn right, two turns right.
pub open spec fn look_offset(dir: Pos, k: int) -> Pos {
    if k == 0 {
        rotated_left(rotated_left(dir))
    } else if k == 1 {
        rotated_left(dir)
    } else if k == 2 {
        dir
    } else if k == 3 {
        rotated_right(dir)
    } else {
        rotated_right(rotated_right(dir))
    }
}

impl BaseInsect {
    /// Standing on the map and facing one of the eight directions.
    pub open spec fn wf(self, map: WorldMap) -> bool {
        &&& map.wf()
        &&& map.valid(self.pos)
        &&& is_dir(self.dir)
    }

    /// What the insect sees, from far left to far right.
    pub open spec fn perceived(self, map: WorldMap) -> Seq<(Pos, Sight)> {
        Seq::new(
            5,
            |k: int|
                {
                    let p = self.pos.plus(look_offset(self.dir, k));
                    (p, map.sight_at(p))
                },
        )
    }

    /// Where a random move with the drawn value `val` leads: for a value in
    /// the lower quarter one turn left, in the second quarter one turn right,
    /// otherwise straight ahead.
    pub open spec fn random_target(self, val: u32) -> Pos {
        if val < u32::MAX / 2 {
            if val < u32::MAX / 4 {
                self.pos.plus(rotated_left(self.dir))
            } else {
                self.pos.plus(rotated_right(self.dir))
            }
        } else {
            self.pos.plus(self.dir)
        }
    }

    /// A base as [`BaseInsect::new`] makes it.
    pub open spec fn fresh(self, pos: Pos, faction: Faction, info: InsectInfo) -> bool {
        &&& self.pos == pos
        &&& is_dir(self.dir)
        &&& 127 <= self.hunger < 255
        &&& self.health == info.max_health
        &&& self.faction == faction
        &&& self.id == 0
        &&& (info.max_speed > 0 ==> self.speed < info.max_speed)
        &&& (info.max_speed == 0 ==> self.speed == 0)
        &&& self.info == info
    }

    /// A new insect of the given kind at `pos`, facing a random direction,
    /// with full health, hunger drawn from `[127, 255)` and a random wait
    /// before its first move.
    pub fn new(pos: Pos, faction: Faction, info: InsectInfo) -> (r: BaseInsect)
        ensures
            r.fresh(pos, faction, info),
    {
        let dir = dirs::rand();
        let hunger = gen_range_u32(127, 255);
        let speed = gen_range_u32(0, info.max_speed as u32);
        BaseInsect {
            pos,
            dir,
            hunger: hunger as u16,
            health: info.max_health,
            faction,
            id: 0,
            speed: speed as u8,
            info,
        }
    }

    /// The position with what is seen there.
    pub fn sight(pos: Pos, map: &WorldMap) -> (r: (Pos, Sight))
        requires
            map.wf(),
        ensures
            r == (pos, map.sight_at(pos)),
    {
        (pos, map.sight(pos))
    }

    /// The five cells ahead, from far left to far right.
    pub fn perception(&self, map: &WorldMap) -> (r: Perception)
        requires
            self.wf(*map),
        ensures
            r@ == self.perceived(*map),
    {
        proof {
            lemma_look_offsets(self.dir);
        }
        let l = dirs::rotate_left(self.dir);
        let r = dirs::rotate_right(self.dir);
        let ll = dirs::rotate_left(l);
        let rr = dirs::rotate_right(r);
        let res = [
            Self::sight(self.pos.add(ll), map),
            Self::sight(self.pos.add(l), map),
            Self::sight(self.pos.add(self.dir), map),
            Self::sight(self.pos.add(r), map),
            Self::sight(self.pos.add(rr), map),
        ];
        assert(res@ =~= self.perceived(*map));
        res
    }

    /// Where a random move leads: half the time straight ahead, otherwise one
    /// turn left or right.
    pub fn move_random(&self) -> (r: Pos)
        requires
            is_dir(self.dir),
            -MAX_MAP_DIM <= self.pos.x <= MAX_MAP_DIM,
            -MAX_MAP_DIM <= self.pos.y <= MAX_MAP_DIM,
        ensures
            exists|val: u32| r == self.random_target(val),
    {
        let val = rand_u32();
        self.move_random_with(val)
    }

    /// Where a random move with the drawn value `val` leads.
    pub fn move_random_with(&self, val: u32) -> (r: Pos)
        requires
            is_dir(self.dir),
            -MAX_MAP_DIM <= self.pos.x <= MAX_MAP_DIM,
            -MAX_MAP_DIM <= self.pos.y <= MAX_MAP_DIM,
        ensures
            r == self.random_target(val),
    {
        proof {
            lemma_look_offsets(self.dir);
        }
        if val < u32::MAX / 2 {
            if val < u32::MAX / 4 {
                self.pos.add(dirs::rotate_left(self.dir))
            } else {
                self.pos.add(dirs::rotate_right(self.dir))
            }
        } else {
            self.pos.add(self.dir)
        }
    }

    /// Counts down the wait between moves: at zero the insect moves and the
    /// wait starts again from its kind's top speed.
    pub fn will_move(&mut self) -> (r: bool)
        ensures
            r == (old(self).speed == 0),
            r ==> final(self).speed == old(self).info.max_speed,
            !r ==> final(self).speed == old(self).speed - 1,
            will_move_step(*old(self), *final(self), r),
            final(self).pos == old(self).pos,
            final(self).dir == old(self).dir,
            final(self).hunger == old(self).hunger,
            final(self).health == old(self).health,
            final(self).faction == old(self).faction,
            final(self).id == old(self).id,
            final(self).info == old(self).info,
    {
        if self.speed == 0 {
            self.speed = self.info.max_speed;
            true
        } else {
            self.speed = self.speed - 1;
            false
        }
    }

    /// Pays `reproduce_cost` of hunger if more than `reproduce_cost + 100` is
    /// stored (the margin keeps the parent from starving).
    pub fn update_reproduce(&mut self, reproduce_cost: u16) -> (r: bool)
        requires
            reproduce_cost + 100 <= u16::MAX,
        ensures
            r == (old(self).hunger > reproduce_cost + 100),
            r ==> final(self).hunger == old(self).hunger - reproduce_cost,
            !r ==> final(self).hunger == old(self).hunger,
            final(self).pos == old(self).pos,
            final(self).dir == old(self).dir,
            final(self).health == old(self).health,
            final(self).speed == old(self).speed,
            final(self).faction == old(self).faction,
            final(self).id == old(self).id,
            final(self).info == old(self).info,
    {
        if self.hunger > reproduce_cost + 100 {
            self.hunger = self.hunger - reproduce_cost;
            true
        } else {
            false
        }
    }

    /// Eats the food on the insect's cell, if there is any.
    pub fn try_eat(&self, map: &mut WorldMap) -> (r: bool)
        requires
            old(map).wf(),
            old(map).valid(self.pos),
        ensures
            final(map).wf(),
            final(map).size == old(map).size,
            final(map).scent_grids == old(map).scent_grids,
            r == (old(map).cell(self.pos).kind() == CellType::Food),
            final(map).cell(self.pos).occupant() == old(map).cell(self.pos).occupant(),
            final(map).cell(self.pos).kind() == (if r {
                CellType::Empty
            } else {
                old(map).cell(self.pos).kind()
            }),
            final(map).grid() == old(map).grid_with(self.pos, final(map).cell(self.pos)),
            !r ==> *final(map) == *old(map),
    {
        if map.get_cell(self.pos).unwrap().is_type(CellType::Food) {
            let cell = map.get_cell_mut(self.pos).unwrap();
            cell.take_type(CellType::Food).is_some()
        } else {
            proof {
                lemma_grid_set_same(map.grid(), self.pos);
            }
            false
        }
    }

    /// Seeks out enemies, then food: the first insect of another faction in
    /// view, otherwise the last food in view, otherwise nothing.
    pub fn seek_omnivore(&self, map: &WorldMap) -> (r: Seek)
        requires
            self.wf(*map),
        ensures
            seek_matches(self.perceived(*map), self.faction, r),
    {
        let perception = self.perception(map);
        let mut best_pos: Option<Pos> = None;
        let mut i: usize = 0;
        while i < 5
            invariant
                perception@ == self.perceived(*map),
                i <= 5,
                forall|j: int| 0 <= j < i ==> !is_enemy(#[trigger] perception@[j], self.faction),
                match best_pos {
                    Some(p) => exists|j: int|
                        0 <= j < i && is_food(#[trigger] perception@[j]) && perception@[j].0 == p && forall|k: int|
                            j < k < i ==> !is_food(#[trigger] perception@[k]),
                    None => forall|j: int| 0 <= j < i ==> !is_food(#[trigger] perception@[j]),
                },
            decreases 5 - i,
        {
            let percep = perception[i];
            if percep.1.faction != self.faction && percep.1.faction != FACTION_NONE {
                return Seek::Enemy(percep.0);
            }
            if percep.1.cell_type == CellType::Food {
                best_pos = Some(percep.0);
            }
            i += 1;
        }
        match best_pos {
            Some(pos) => Seek::Food(pos),
            None => Seek::Nothing,
        }
    }
}

impl BaseInsect {
    /// The base after a successful move to `next_pos`.
    pub open spec fn moved_to(self, next_pos: Pos) -> BaseInsect {
        BaseInsect { pos: next_pos, dir: next_pos.minus(self.pos), ..self }
    }

    /// The base after bumping into something solid: it turns around.
    pub open spec fn turned_back(self) -> BaseInsect {
        BaseInsect { dir: inverted(self.dir), ..self }
    }

    /// `next_pos` is one step away.
    pub open spec fn is_step(self, next_pos: Pos) -> bool {
        is_dir(next_pos.minus(self.pos)) && in_step(self.pos, next_pos)
    }

    /// What [`BaseInsect::try_move`] toward `next_pos` does: the insect
    /// becomes `b`, the map becomes `m`, and `r` is the event. If the cell
    /// can be occupied the insect moves there, leaving its old cell, and faces
    /// the way it went; a solid cell (or the map's edge) turns it around; a
    /// cell held by another faction starts a fight with its occupant, with the
    /// damage of the insect's kind.
    pub open spec fn step_effect(self, map: WorldMap, next_pos: Pos, b: BaseInsect, m: WorldMap, r: Option<Event>) -> bool {
        &&& m.size == map.size
        &&& m.scent_grids == map.scent_grids
        &&& !map.valid(next_pos) ==> {
            &&& b == self.turned_back()
            &&& m.grid() == map.grid()
            &&& r.is_none()
        }
        &&& map.valid(next_pos) ==> ({
            let (res, occ) = map.cell(next_pos).occupy_outcome(self.faction, self.id);
            match res {
                Ok(_) => if next_pos == self.pos {
                    &&& b == self.moved_to(next_pos)
                    &&& r.is_none()
                    &&& m.cell(self.pos).kind() == map.cell(self.pos).kind()
                    &&& m.cell(self.pos).occupant() == (if occ == Some((self.faction, self.id)) {
                        None::<(Faction, Id)>
                    } else {
                        occ
                    })
                    &&& m.grid() == map.grid_with(self.pos, m.cell(self.pos))
                } else {
                    &&& b == self.moved_to(next_pos)
                    &&& r.is_none()
                    &&& m.cell(next_pos).kind() == map.cell(next_pos).kind()
                    &&& m.cell(next_pos).occupant() == occ
                    &&& m.cell(self.pos).kind() == map.cell(self.pos).kind()
                    &&& m.cell(self.pos).occupant() == map.cell(self.pos).freed(self.faction, self.id)
                    &&& m.grid() == grid_set(map.grid_with(next_pos, m.cell(next_pos)), self.pos, m.cell(self.pos))
                },
                Err(OccupyError::Solid) => {
                    &&& b == self.turned_back()
                    &&& m.grid() == map.grid()
                    &&& r.is_none()
                },
                Err(OccupyError::Fight(other)) => {
                    &&& b == self
                    &&& m.grid() == map.grid()
                    &&& r == Some(Event::Interact(Interact {
                        src: self.id,
                        dst: other,
                        amt: (if self.info.damage < 128 { -(self.info.damage as int) } else { -128 }) as i8,
                    }))
                },
            }
        })
    }

    /// Tries to step onto `next_pos` (see [`BaseInsect::step_effect`]). Any
    /// target is taken (a step onto its own cell leaves that cell free); the
    /// insect then faces along the offset it moved by,
    /// which is one of the eight directions when the target is a neighbour.
    pub fn try_move(&mut self, next_pos: Pos, map: &mut WorldMap) -> (r: Option<Event>)
        requires
            old(self).wf(*old(map)),
            in_step(old(self).pos, next_pos),
        ensures
            final(map).wf(),
            final(map).valid(final(self).pos),
            old(self).is_step(next_pos) ==> final(self).wf(*final(map)),
            old(self).step_effect(*old(map), next_pos, *final(self), *final(map), r),
            !(r matches Some(Event::Birth(_))),
    {
        let ghost map0 = *map;
        let res = map.occupy(next_pos, (self.faction, self.id));
        match res {
            Ok(_) => {
                let ghost map1 = *map;
                let _ = map.free(self.pos, (self.faction, self.id));
                proof {
                    assert(map1.valid(self.pos));
                    if next_pos != self.pos {
                        assert(map1.cell(self.pos) == map0.cell(self.pos));
                        assert(map.cell(next_pos) == map1.cell(next_pos));
                    } else {
                        let g0 = map0.grid();
                        let p = self.pos;
                        assert(map.grid() =~= grid_set(g0, p, map.cell(p))) by {
                            assert(map1.grid() == grid_set(g0, p, map1.cell(p)));
                            assert(map.grid() == grid_set(map1.grid(), p, map.cell(p)));
                            assert(grid_set(grid_set(g0, p, map1.cell(p)), p, map.cell(p))
                                =~= grid_set(g0, p, map.cell(p))) by {
                                assert(grid_set(g0, p, map1.cell(p))[p.y as int].update(p.x as int, map.cell(p))
                                    =~= g0[p.y as int].update(p.x as int, map.cell(p)));
                            }
                        }
                    }
                }
                self.dir = next_pos.sub(self.pos);
                self.pos = next_pos;
                None
            },
            Err(OccupyError::Solid) => {
                proof {
                    if map0.valid(next_pos) {
                        lemma_cell_ext(map.cell(next_pos), map0.cell(next_pos));
                        lemma_grid_set_same(map0.grid(), next_pos);
                    }
                }
                self.dir = dirs::invert(self.dir);
                None
            },
            Err(OccupyError::Fight(id)) => {
                proof {
                    lemma_cell_ext(map.cell(next_pos), map0.cell(next_pos));
                    lemma_grid_set_same(map0.grid(), next_pos);
                }
                Some(Event::Interact(Interact::fight(self.id, id, self.info.damage)))
            },
        }
    }

    /// The insect's own tick: it dies of wounds (no health left); otherwise
    /// its store of food (`hunger`) drops by one, not below zero, and it
    /// starves when that reaches zero.
    pub fn update(&mut self) -> (r: Option<Event>)
        ensures
            old(self).health == 0 ==> *final(self) == *old(self) && r == Some(Event::Death()),
            old(self).health != 0 ==> {
                &&& *final(self) == BaseInsect { hunger: old(self).hunger.saturating_sub(1), ..*old(self) }
                &&& r == if final(self).hunger == 0 { Some(Event::Death()) } else { None::<Event> }
            },
    {
        if self.health == 0 {
            return Some(Event::Death());
        }
        self.hunger = self.hunger.saturating_sub(1);
        if self.hunger == 0 {
            return Some(Event::Death());
        }
        None
    }
}

/// One call of [`BaseInsect::will_move`] on its wait and kind: `b` becomes
/// `b2` and `r` is the answer.
pub open spec fn will_move_step(b: BaseInsect, b2: BaseInsect, r: bool) -> bool {
    &&& r == (b.speed == 0)
    &&& b2.speed == if r { b.info.max_speed as int } else { b.speed - 1 }
    &&& b2.info == b.info
}

/// The wait left after `i` calls of [`BaseInsect::will_move`] from a wait of
/// `s`, for a kind of top speed `m`.
pub open spec fn wait_after(s: int, m: int, i: int) -> int {
    if i <= s {
        s - i
    } else {
        m - (i - s - 1) % (m + 1)
    }
}

/// Counting on by one on a clock of `d` hours.
proof fn lemma_mod_next(k: int, d: int)
    requires
        0 <= k,
        0 < d,
    ensures
        0 <= k % d < d,
        k % d + 1 < d ==> (k + 1) % d == k % d + 1,
        k % d + 1 == d ==> (k + 1) % d == 0,
{
    vstd::arithmetic::div_mod::lemma_fundamental_div_mod(k, d);
    let q = k / d;
    let r = k % d;
    assert(d * q == q * d) by (nonlinear_arith);
    if r + 1 < d {
        vstd::arithmetic::div_mod::lemma_fundamental_div_mod_converse(k + 1, d, q, r + 1);
    } else {
        assert((q + 1) * d == q * d + d) by (nonlinear_arith);
        vstd::arithmetic::div_mod::lemma_fundamental_div_mod_converse(k + 1, d, q + 1, 0);
    }
}

/// The wait after `i` calls, by induction on the run.
proof fn lemma_wait_after(bs: Seq<BaseInsect>, rs: Seq<bool>, i: int)
    requires
        bs.len() == rs.len() + 1,
        forall|j: int| 0 <= j < rs.len() ==> #[trigger] will_move_step(bs[j], bs[j + 1], rs[j]),
        0 <= i < bs.len(),
    ensures
        bs[i].speed == wait_after(bs[0].speed as int, bs[0].info.max_speed as int, i),
        bs[i].info == bs[0].info,
    decreases i,
{
    if i > 0 {
        let j = i - 1;
        lemma_wait_after(bs, rs, j);
        assert(will_move_step(bs[j], bs[j + 1], rs[j]));
        assert(j + 1 == i);
        let s = bs[0].speed as int;
        let m = bs[0].info.max_speed as int;
        if j > s {
            lemma_mod_next(j - s - 1, m + 1);
        }
    }
}

/// Over a run of calls, an insect with a wait of `s` moves first on call `s`
/// (counting from zero), and after that on exactly one call in every
/// `m + 1`, `m` being its kind's top speed.
pub proof fn law_moves_once_per_period(bs: Seq<BaseInsect>, rs: Seq<bool>)
    requires
        bs.len() == rs.len() + 1,
        forall|j: int| 0 <= j < rs.len() ==> #[trigger] will_move_step(bs[j], bs[j + 1], rs[j]),
    ensures
        forall|i: int| 0 <= i < rs.len() ==> #[trigger] rs[i] == (i == bs[0].speed || (i > bs[0].speed
            && (i - bs[0].speed) % (bs[0].info.max_speed + 1) == 0)),
{
    let s = bs[0].speed as int;
    let m = bs[0].info.max_speed as int;
    assert forall|i: int| 0 <= i < rs.len() implies #[trigger] rs[i] == (i == s || (i > s && (i - s) % (m + 1) == 0)) by {
        lemma_wait_after(bs, rs, i);
        assert(will_move_step(bs[i], bs[i + 1], rs[i]));
        if i > s {
            lemma_mod_next(i - s - 1, m + 1);
        }
    }
}

/// The food on the cell at `pos` was eaten: the map `m` is `map` with that
/// cell emptied.
pub open spec fn ate_at(map: WorldMap, pos: Pos, m: WorldMap) -> bool {
    &&& m.size == map.size
    &&& m.scent_grids == map.scent_grids
    &&& m.cell(pos).kind() == CellType::Empty
    &&& m.cell(pos).occupant() == map.cell(pos).occupant()
    &&& m.grid() == map.grid_with(pos, m.cell(pos))
}

/// The step from `a` to `b` fits in `i16` coordinates.
pub open spec fn in_step(a: Pos, b: Pos) -> bool {
    crate::pos::in_i16(b.x - a.x) && crate::pos::in_i16(b.y - a.y)
}

/// An insect of another faction is seen there.
pub open spec fn is_enemy(p: (Pos, Sight), faction: Faction) -> bool {
    p.1.faction != faction && p.1.faction != FACTION_NONE
}

/// Food is seen there.
pub open spec fn is_food(p: (Pos, Sight)) -> bool {
    p.1.cell_type == CellType::Food
}

/// The answer of [`BaseInsect::seek_omnivore`] for what is seen: the first
/// enemy, otherwise the last food, otherwise nothing.
pub open spec fn seek_matches(percs: Seq<(Pos, Sight)>, faction: Faction, r: Seek) -> bool {
    match r {
        Seek::Enemy(p) => exists|i: int|
            0 <= i < percs.len() && is_enemy(#[trigger] percs[i], faction) && percs[i].0 == p
                && forall|j: int| 0 <= j < i ==> !is_enemy(#[trigger] percs[j], faction),
        Seek::Food(p) => (forall|i: int| 0 <= i < percs.len() ==> !is_enemy(#[trigger] percs[i], faction))
            && exists|i: int|
            0 <= i < percs.len() && is_food(#[trigger] percs[i]) && percs[i].0 == p && forall|j: int|
                i < j < percs.len() ==> !is_food(#[trigger] percs[j]),
        Seek::Nothing => forall|i: int|
            0 <= i < percs.len() ==> !is_enemy(#[trigger] percs[i], faction) && !is_food(percs[i]),
    }
}

/// Every cell in view is one step away.
pub proof fn lemma_perceived_steps(b: BaseInsect, map: WorldMap)
    requires
        b.wf(map),
    ensures
        forall|k: int| 0 <= k < 5 ==> #[trigger] b.is_step(b.perceived(map)[k].0),
        b.is_step(b.pos.plus(rotated_left(b.dir))),
        b.is_step(b.pos.plus(rotated_right(b.dir))),
        b.is_step(b.pos.plus(b.dir)),
{
    lemma_look_offsets(b.dir);
    assert forall|k: int| 0 <= k < 5 implies #[trigger] b.is_step(b.perceived(map)[k].0) by {
        let o = look_offset(b.dir, k);
        assert(b.perceived(map)[k].0 == b.pos.plus(o));
        assert(b.pos.plus(o).minus(b.pos) == o);
    }
    assert(b.pos.plus(rotated_left(b.dir)).minus(b.pos) == rotated_left(b.dir));
    assert(b.pos.plus(rotated_right(b.dir)).minus(b.pos) == rotated_right(b.dir));
    assert(b.pos.plus(b.dir).minus(b.pos) == b.dir);
}

/// A move by one of the eight directions is one step.
pub proof fn lemma_step_of_dir(b: BaseInsect, step: Pos)
    requires
        -MAX_MAP_DIM <= b.pos.x <= MAX_MAP_DIM,
        -MAX_MAP_DIM <= b.pos.y <= MAX_MAP_DIM,
        is_dir(step),
    ensures
        b.pos.add_ok(step),
        b.is_step(b.pos.plus(step)),
{
    assert(b.pos.plus(step).minus(b.pos) == step);
}

/// Every random move goes one step.
pub proof fn lemma_random_targets_are_steps(b: BaseInsect)
    requires
        is_dir(b.dir),
        -MAX_MAP_DIM <= b.pos.x <= MAX_MAP_DIM,
        -MAX_MAP_DIM <= b.pos.y <= MAX_MAP_DIM,
    ensures
        forall|w: u32| #[trigger] b.is_step(b.random_target(w)),
{
    lemma_look_offsets(b.dir);
    assert(b.pos.plus(rotated_left(b.dir)).minus(b.pos) == rotated_left(b.dir));
    assert(b.pos.plus(rotated_right(b.dir)).minus(b.pos) == rotated_right(b.dir));
    assert(b.pos.plus(b.dir).minus(b.pos) == b.dir);
}

proof fn lemma_look_offsets(dir: Pos)
    requires
        is_dir(dir),
    ensures
        forall|k: int| 0 <= k < 5 ==> is_dir(#[trigger] look_offset(dir, k)),
        is_dir(rotated_left(dir)),
        is_dir(rotated_right(dir)),
{
}

/// An attack never heals and food never starves: an interaction with a
/// negative amount never raises health, one with a non-negative amount
/// never lowers the stored food, and neither touches the other.
pub proof fn law_interaction_direction(i: Insect, x: Interact)
    ensures
        x.amt < 0 ==> i.interacted(x).base.health <= i.base.health && i.interacted(x).base.hunger == i.base.hunger,
        x.amt >= 0 ==> i.interacted(x).base.hunger >= i.base.hunger && i.interacted(x).base.health == i.base.health,
        i.interacted(x).spec == i.spec,
        i.interacted(x).base.pos == i.base.pos,
{
}

/// An insect goes for the first insect of another faction it sees: whenever
/// a cell in view holds an insect whose faction is neither its own nor none,
/// the answer of [`BaseInsect::seek_omnivore`] is to go for the first such
/// cell; it seeks food, or nothing, only when no such insect is in view.
pub proof fn law_enemy_comes_first(percs: Seq<(Pos, Sight)>, faction: Faction, r: Seek)
    requires
        seek_matches(percs, faction, r),
    ensures
        (exists|i: int| 0 <= i < percs.len() && #[trigger] percs[i].1.faction != faction
            && percs[i].1.faction != 0) ==> (r matches Seek::Enemy(p) && exists|i: int|
            0 <= i < percs.len() && percs[i].0 == p && #[trigger] percs[i].1.faction != faction
                && percs[i].1.faction != 0 && forall|j: int| 0 <= j < i ==> (#[trigger] percs[j].1.faction == faction
                    || percs[j].1.faction == 0)),
        !(r is Enemy) ==> forall|i: int| 0 <= i < percs.len() ==> (#[trigger] percs[i].1.faction == faction
            || percs[i].1.faction == 0),
{
    assert(FACTION_NONE == 0);
    if exists|i: int| 0 <= i < percs.len() && #[trigger] percs[i].1.faction != faction && percs[i].1.faction != 0 {
        let i = choose|i: int| 0 <= i < percs.len() && #[trigger] percs[i].1.faction != faction && percs[i].1.faction != 0;
        assert(is_enemy(percs[i], faction));
        match r {
            Seek::Enemy(p) => {
                let k = choose|k: int| 0 <= k < percs.len() && is_enemy(#[trigger] percs[k], faction) && percs[k].0 == p
                    && forall|j: int| 0 <= j < k ==> !is_enemy(#[trigger] percs[j], faction);
                assert forall|j: int| 0 <= j < k implies (#[trigger] percs[j].1.faction == faction
                    || percs[j].1.faction == 0) by {
                    assert(!is_enemy(percs[j], faction));
                }
            },
            _ => {},
        }
    }
    assert forall|i: int| 0 <= i < percs.len() && !(r is Enemy) implies (#[trigger] percs[i].1.faction == faction
        || percs[i].1.faction == 0) by {
        assert(!is_enemy(percs[i], faction));
    }
}

} // verus!
