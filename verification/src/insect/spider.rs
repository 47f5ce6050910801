//! Spiders: hunters.
use vstd::prelude::*;
use crate::insect::{ate_at, Action, BaseInsect, Behaviour, Event, Hunger, Insect, InsectInfo, Seek, lemma_perceived_steps, seek_matches};
use crate::map::{CellType, WorldMap, FACTION_SPIDER};
use crate::pos::Pos;

verus! {

pub struct Spider {}

pub const SPIDER_REPRODUCE_COST: Hunger = 512;

pub const SPIDER_EAT_VAL: Hunger = 255;

pub open spec fn spider_traits() -> InsectInfo {
    InsectInfo { max_health: 3, max_speed: 2, damage: 2 }
}

pub fn spider_info() -> (r: InsectInfo)
    ensures
        r == spider_traits(),
{
    InsectInfo { max_health: 3, max_speed: 2, damage: 2 }
}

/// A spider as [`Spider::new`] makes it.
pub open spec fn is_new_spider(i: Insect, pos: Pos) -> bool {
    i.base.fresh(pos, FACTION_SPIDER, spider_traits()) && i.spec is Spider
}

/// What [`Spider::update`] does: the base `b` becomes `b2`, the map `m`
/// becomes `m2`, and `r` is the event.
pub open spec fn spider_update_effect(b: BaseInsect, m: WorldMap, b2: BaseInsect, m2: WorldMap, r: Option<Event>) -> bool {
    &&& b.hunger > SPIDER_REPRODUCE_COST + 100 ==> {
        &&& b2 == BaseInsect { hunger: (b.hunger - SPIDER_REPRODUCE_COST) as u16, ..b }
        &&& m2 == m
        &&& r matches Some(Event::Birth(young)) && is_new_spider(*young, b.pos)
    }
    &&& b.hunger <= SPIDER_REPRODUCE_COST + 100 && b.hunger < SPIDER_REPRODUCE_COST
        && m.cell(b.pos).kind() == CellType::Food ==> {
        &&& b2 == BaseInsect { hunger: (b.hunger + SPIDER_EAT_VAL) as u16, ..b }
        &&& ate_at(m, b.pos, m2)
        &&& r.is_none()
    }
    &&& b.hunger <= SPIDER_REPRODUCE_COST + 100 && !(b.hunger < SPIDER_REPRODUCE_COST
        && m.cell(b.pos).kind() == CellType::Food) ==> exists|s: Seek| {
        &&& seek_matches(b.perceived(m), b.faction, s)
        &&& match s {
            Seek::Food(p) => b.step_effect(m, p, b2, m2, r),
            Seek::Enemy(p) => b.step_effect(m, p, b2, m2, r),
            Seek::Nothing => b2 == b && m2 == m && r.is_none(),
        }
    }
}

/// What [`Spider::player_action`] does: the base `b` becomes `b2`, the map
/// `m` becomes `m2`, and `r` is the event.
pub open spec fn spider_action_effect(b: BaseInsect, m: WorldMap, action: Action, b2: BaseInsect, m2: WorldMap, r: Option<Event>) -> bool {
    &&& m2 == m
    &&& action == Action::ActionA && b.hunger > SPIDER_REPRODUCE_COST + 100 ==> {
        &&& b2 == BaseInsect { hunger: (b.hunger - SPIDER_REPRODUCE_COST) as u16, ..b }
        &&& r matches Some(Event::Birth(young)) && is_new_spider(*young, b.pos)
    }
    &&& !(action == Action::ActionA && b.hunger > SPIDER_REPRODUCE_COST + 100) ==> {
        &&& b2 == b
        &&& r.is_none()
    }
}

impl Spider {
    pub fn new(pos: Pos) -> (r: Insect)
        ensures
            is_new_spider(r, pos),
    {
        Insect { base: BaseInsect::new(pos, FACTION_SPIDER, spider_info()), spec: Behaviour::Spider(Spider {}) }
    }

    /// A spider's tick: it lays a new spider when well fed, otherwise eats
    /// the food it stands on when hungry, otherwise goes for the enemy or the
    /// food it sees (it waits when it sees neither).
    pub fn update(&mut self, base: &mut BaseInsect, map: &mut WorldMap) -> (r: Option<Event>)
        requires
            old(base).wf(*old(map)),
            old(base).info == spider_traits(),
        ensures
            final(base).wf(*final(map)),
            final(base).info == old(base).info,
            final(base).faction == old(base).faction,
            final(base).id == old(base).id,
            spider_update_effect(*old(base), *old(map), *final(base), *final(map), r),
    {
        if base.update_reproduce(SPIDER_REPRODUCE_COST) {
            return Some(Event::Birth(Box::new(Spider::new(base.pos))));
        }
        if base.hunger < SPIDER_REPRODUCE_COST && base.try_eat(map) {
            base.hunger = base.hunger + SPIDER_EAT_VAL;
            return None;
        }
        proof {
            lemma_perceived_steps(*base, *map);
        }
        let s = base.seek_omnivore(map);
        match s {
            Seek::Food(pos) => base.try_move(pos, map),
            Seek::Enemy(pos) => base.try_move(pos, map),
            Seek::Nothing => None,
        }
    }

    /// The player's spider lays a new spider on action A when well fed.
    /// Action B is not available to spiders.
    pub fn player_action(&mut self, base: &mut BaseInsect, map: &mut WorldMap, action: Action) -> (r: Option<Event>)
        requires
            action != Action::ActionB,
        ensures
            spider_action_effect(*old(base), *old(map), action, *final(base), *final(map), r),
            final(base).id == old(base).id,
            final(base).faction == old(base).faction,
            final(map).size == old(map).size,
    {
        match action {
            Action::ActionA => {
                if base.update_reproduce(SPIDER_REPRODUCE_COST) {
                    return Some(Event::Birth(Box::new(Spider::new(base.pos))));
                }
            },
            _ => {},
        }
        None
    }
}

} // verus!
