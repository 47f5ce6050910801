//! Pillbugs: grazers that curl up when an enemy comes.
use vstd::prelude::*;
use crate::insect::{ate_at, Action, BaseInsect, Behaviour, Event, Hunger, Insect, InsectInfo, Seek, lemma_perceived_steps, seek_matches};
use crate::map::{CellType, WorldMap, FACTION_PILLBUG};
use crate::pos::Pos;

verus! {

pub struct Pillbug {
    /// Curled up: off the map's occupancy, waiting for danger to pass.
    pub curled: bool,
}

pub const PILLBUG_REPRODUCE_COST: Hunger = 255;

/// Below this much stored food a pillbug eats what it stands on.
pub const PILLBUG_EAT_THRESHOLD: Hunger = 510;

pub const PILLBUG_FOOD_VALUE: Hunger = 255;

/// How long a pillbug stays curled up.
pub const PILLBUG_CURL_TIME: u8 = 10;

pub open spec fn pillbug_traits() -> InsectInfo {
    InsectInfo { max_health: 2, max_speed: 2, damage: 1 }
}

pub fn pillbug_info() -> (r: InsectInfo)
    ensures
        r == pillbug_traits(),
{
    InsectInfo { max_health: 2, max_speed: 2, damage: 1 }
}

/// A pillbug as [`Pillbug::new`] makes it.
pub open spec fn is_new_pillbug(i: Insect, pos: Pos) -> bool {
    i.base.fresh(pos, FACTION_PILLBUG, pillbug_traits()) && i.spec == Behaviour::Pillbug(Pillbug { curled: false })
}

/// What [`Pillbug::update`] does: the pillbug `s` on base `b` becomes `s2`
/// on `b2`, the map `m` becomes `m2`, and `r` is the event.
pub open spec fn pillbug_update_effect(s: Pillbug, b: BaseInsect, m: WorldMap, s2: Pillbug, b2: BaseInsect, m2: WorldMap, r: Option<Event>) -> bool {
    &&& s.curled ==> {
        &&& !s2.curled
        &&& b2 == b
        &&& exists|res| m.occupy_effect(b.pos, (b.faction, b.id), m2, res)
        &&& r.is_none()
    }
    &&& !s.curled ==> exists|sk: Seek| {
        &&& seek_matches(b.perceived(m), b.faction, sk)
        &&& match sk {
            Seek::Enemy(_) => {
                &&& s2.curled
                &&& b2 == BaseInsect { speed: PILLBUG_CURL_TIME, ..b }
                &&& exists|res| m.free_effect(b.pos, (b.faction, b.id), m2, res)
                &&& r.is_none()
            },
            _ => {
                &&& !s2.curled
                &&& if b.hunger > PILLBUG_REPRODUCE_COST + 100 {
                    &&& b2 == BaseInsect { hunger: (b.hunger - PILLBUG_REPRODUCE_COST) as u16, ..b }
                    &&& m2 == m
                    &&& r matches Some(Event::Birth(young)) && is_new_pillbug(*young, b.pos)
                } else if b.hunger < PILLBUG_EAT_THRESHOLD && m.cell(b.pos).kind() == CellType::Food {
                    &&& b2 == BaseInsect { hunger: (b.hunger + PILLBUG_FOOD_VALUE) as u16, ..b }
                    &&& ate_at(m, b.pos, m2)
                    &&& r.is_none()
                } else {
                    match sk {
                        Seek::Food(p) => b.step_effect(m, p, b2, m2, r),
                        _ => exists|val: u32| b.step_effect(m, b.random_target(val), b2, m2, r),
                    }
                }
            },
        }
    }
}

impl Pillbug {
    pub fn new(pos: Pos) -> (r: Insect)
        ensures
            is_new_pillbug(r, pos),
    {
        Insect {
            base: BaseInsect::new(pos, FACTION_PILLBUG, pillbug_info()),
            spec: Behaviour::Pillbug(Pillbug { curled: false }),
        }
    }

    /// A pillbug's tick. Curled up, it uncurls and takes its cell back.
    /// Otherwise, when it sees an enemy it curls up (leaving its cell) for a
    /// while; when safe it breeds if well fed, eats what it stands on if
    /// hungry, or moves toward the food it sees (at random when it sees none).
    pub fn update(&mut self, base: &mut BaseInsect, map: &mut WorldMap) -> (r: Option<Event>)
        requires
            old(base).wf(*old(map)),
            old(base).info == pillbug_traits(),
        ensures
            final(base).wf(*final(map)),
            final(base).info == old(base).info,
            final(base).faction == old(base).faction,
            final(base).id == old(base).id,
            pillbug_update_effect(*old(self), *old(base), *old(map), *final(self), *final(base), *final(map), r),
    {
        if self.curled {
            self.curled = false;
            let _ = map.occupy(base.pos, (base.faction, base.id));
            return None;
        }
        proof {
            lemma_perceived_steps(*base, *map);
        }
        let best_pos = match base.seek_omnivore(map) {
            Seek::Food(pos) => Some(pos),
            Seek::Enemy(_pos) => {
                self.curled = true;
                let _ = map.free(base.pos, (base.faction, base.id));
                base.speed = PILLBUG_CURL_TIME;
                return None;
            },
            Seek::Nothing => None,
        };
        if base.update_reproduce(PILLBUG_REPRODUCE_COST) {
            return Some(Event::Birth(Box::new(Pillbug::new(base.pos))));
        }
        if base.hunger < PILLBUG_EAT_THRESHOLD && base.try_eat(map) {
            base.hunger = base.hunger + PILLBUG_FOOD_VALUE;
            return None;
        }
        let next = match best_pos {
            Some(p) => p,
            None => base.move_random(),
        };
        base.try_move(next, map)
    }
}

} // verus!
