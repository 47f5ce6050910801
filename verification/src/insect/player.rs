//! The insect the player steers.
use vstd::prelude::*;
use crate::insect::{ate_at, lemma_action_ready_after_step, lemma_fits_after_eating, lemma_step_of_dir, Action, BaseInsect, Behaviour, Event, Hunger, Insect};
use crate::map::{CellType, WorldMap};

verus! {

/// The player's insect: its own kind's behaviour, driven by the player.
pub struct InsectPlayer {
    pub sub_insect: Box<Behaviour>,
}

/// Below this much stored food the player's insect eats what it stands on.
pub const PLAYER_EAT_THRESHOLD: Hunger = 512;

/// What the player's insect gains from eating.
pub const PLAYER_FOOD_VALUE: Hunger = 255;

/// What [`InsectPlayer::update`] does: the base `b` becomes `b2` and the map
/// `m` becomes `m2`. A hungry player's insect eats the food it stands on;
/// otherwise it does nothing by itself.
pub open spec fn player_update_effect(b: BaseInsect, m: WorldMap, b2: BaseInsect, m2: WorldMap) -> bool {
    if b.hunger < PLAYER_EAT_THRESHOLD && m.cell(b.pos).kind() == CellType::Food {
        b2 == BaseInsect { hunger: (b.hunger + PLAYER_FOOD_VALUE) as u16, ..b } && ate_at(m, b.pos, m2)
    } else {
        b2 == b && m2 == m
    }
}

impl InsectPlayer {
    /// Puts the player in charge of `insect`: same base, its behaviour
    /// kept for the player's actions.
    pub fn new(insect: Insect) -> (r: Insect)
        ensures
            r.base == insect.base,
            r.spec == Behaviour::Player(InsectPlayer { sub_insect: Box::new(insect.spec) }),
    {
        Insect { base: insect.base, spec: Behaviour::Player(InsectPlayer { sub_insect: Box::new(insect.spec) }) }
    }

    /// The player's insect's own tick: it only eats, when hungry; moving is
    /// the player's business.
    pub fn update(&mut self, base: &mut BaseInsect, map: &mut WorldMap) -> (r: Option<Event>)
        requires
            old(base).wf(*old(map)),
        ensures
            final(base).wf(*final(map)),
            *final(self) == *old(self),
            player_update_effect(*old(base), *old(map), *final(base), *final(map)),
            r.is_none(),
    {
        if base.hunger < PLAYER_EAT_THRESHOLD {
            if base.try_eat(map) {
                base.hunger = base.hunger + PLAYER_FOOD_VALUE;
            }
        }
        None
    }

    /// The player's action: a move first steps by its offset (a fight or
    /// other event stops there); the insect's own kind then answers the
    /// action.
    pub fn player_action(&mut self, base: &mut BaseInsect, map: &mut WorldMap, action: Action) -> (r: Option<Event>)
        requires
            Behaviour::Player(*old(self)).action_ready(*old(base), *old(map), action),
        ensures
            Behaviour::Player(*old(self)).action_effect(*old(base), *old(map), action, Behaviour::Player(*final(self)), *final(base), *final(map), r),
            final(base).wf(*final(map)),
            final(base).info == old(base).info,
            final(base).health >= old(base).health,
            final(base).id == old(base).id,
            final(base).faction == old(base).faction,
            final(map).size == old(map).size,
            r matches Some(Event::Birth(young)) ==> young.wf(*final(map)),
            old(self).sub_insect.fits(*old(base), *old(map)) ==> final(self).sub_insect.fits(*final(base), *final(map)),
        decreases *old(self),
    {
        let ghost b0 = *base;
        let ghost m0 = *map;
        match action {
            Action::Move(step) => {
                proof {
                    lemma_step_of_dir(*base, step);
                }
                let next = base.pos.add(step);
                let moved = base.try_move(next, map);
                proof {
                    if self.sub_insect.fits(b0, m0) {
                        lemma_fits_after_eating(*self.sub_insect, b0, m0, *base, *map);
                    }
                }
                if moved.is_some() {
                    return moved;
                }
                proof {
                    lemma_action_ready_after_step(*self.sub_insect, b0, m0, action, *base, *map);
                }
            },
            _ => {},
        }
        self.sub_insect.player_action(base, map, action)
    }
}

/// A hungry player's insect gains what it eats: with less than 512 stored,
/// standing on food, its tick takes the food off its cell and adds 255 to
/// its store; with nothing to eat, or not hungry, its store and the map stay
/// as they were.
pub proof fn law_player_eats_when_hungry(b: BaseInsect, m: WorldMap, b2: BaseInsect, m2: WorldMap)
    requires
        player_update_effect(b, m, b2, m2),
    ensures
        b.hunger < 512 && m.cell(b.pos).kind() == CellType::Food ==> {
            &&& b2.hunger == b.hunger + 255
            &&& m2.cell(b.pos).kind() == CellType::Empty
        },
        !(b.hunger < 512 && m.cell(b.pos).kind() == CellType::Food) ==> b2.hunger == b.hunger && m2 == m,
        b2.pos == b.pos && b2.health == b.health,
{
}

} // verus!
