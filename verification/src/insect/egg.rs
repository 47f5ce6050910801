//! Eggs: they hatch into the insect they hold.
use vstd::prelude::*;
use crate::insect::{BaseInsect, Behaviour, Event, Insect, InsectInfo};
use crate::pos::Pos;

verus! {

/// An egg: ticks left until it hatches, and the insect inside.
pub struct Egg {
    germination: u8,
    hatch: Option<Box<Insect>>,
}

pub open spec fn egg_traits() -> InsectInfo {
    InsectInfo { max_health: 1, max_speed: 0, damage: 0 }
}

pub fn egg_info() -> (r: InsectInfo)
    ensures
        r == egg_traits(),
{
    InsectInfo { max_health: 1, max_speed: 0, damage: 0 }
}

/// What [`Egg::update`] does: the egg `s` becomes `s2` and `r` is the event.
pub open spec fn egg_update_effect(s: Egg, s2: Egg, r: Option<Event>) -> bool {
    &&& s2.ticks_left() == s.ticks_left().saturating_sub(1)
    &&& s2.ticks_left() == 0 && s.inside().is_some() ==> {
        &&& r == Some(Event::Rebirth(s.inside().unwrap()))
        &&& s2.inside().is_none()
    }
    &&& !(s2.ticks_left() == 0 && s.inside().is_some()) ==> {
        &&& r.is_none()
        &&& s2.inside() == s.inside()
    }
}

impl Egg {
    /// Ticks left until the egg hatches.
    pub closed spec fn ticks_left(self) -> u8 {
        self.germination
    }

    /// The insect inside, until it hatches.
    pub closed spec fn inside(self) -> Option<Box<Insect>> {
        self.hatch
    }

    /// An egg at `pos`, of the faction of the insect it holds, that hatches
    /// after `germination` ticks.
    pub fn new(pos: Pos, hatch: Insect, germination: u8) -> (r: Insect)
        ensures
            r.base.fresh(pos, hatch.base.faction, egg_traits()),
            r.spec matches Behaviour::Egg(e) && e.ticks_left() == germination && e.inside() == Some(Box::new(hatch)),
    {
        let faction = hatch.base.faction;
        Insect {
            base: BaseInsect::new(pos, faction, egg_info()),
            spec: Behaviour::Egg(Egg { germination, hatch: Some(Box::new(hatch)) }),
        }
    }

    /// One tick closer to hatching; at zero the insect inside comes out (once).
    pub fn update(&mut self) -> (r: Option<Event>)
        ensures
            egg_update_effect(*old(self), *final(self), r),
    {
        self.germination = self.germination.saturating_sub(1);
        if self.germination == 0 && self.hatch.is_some() {
            let mut out: Option<Box<Insect>> = None;
            std::mem::swap(&mut out, &mut self.hatch);
            match out {
                Some(b) => Some(Event::Rebirth(b)),
                None => None,
            }
        } else {
            None
        }
    }
}

/// An egg hatches once: a tick that let the insect out is followed by ticks
/// that give nothing; an egg holding an insect with at most one tick left
/// lets it out on the next tick; one with more ticks left gives nothing, keeps
/// its insect and counts down by one.
pub proof fn law_egg_hatches_once(s0: Egg, s1: Egg, r1: Option<Event>, s2: Egg, r2: Option<Event>)
    requires
        egg_update_effect(s0, s1, r1),
        egg_update_effect(s1, s2, r2),
    ensures
        r1.is_some() ==> r2.is_none(),
        s0.inside().is_some() && s0.ticks_left() <= 1 ==> r1 == Some(Event::Rebirth(s0.inside().unwrap())),
        s0.ticks_left() > 1 ==> {
            &&& r1.is_none()
            &&& s1.inside() == s0.inside()
            &&& s1.ticks_left() == s0.ticks_left() - 1
        },
{
}

/// The tick (counting from zero) on which an egg with `g` ticks left
/// hatches: the `g`-th, or the first for an egg at zero.
pub open spec fn hatch_tick(g: u8) -> int {
    if g == 0 {
        0
    } else {
        g - 1
    }
}

/// Ticks left after `i` ticks from `g`.
pub open spec fn ticks_after(g: u8, i: int) -> int {
    if g - i > 0 {
        g - i
    } else {
        0
    }
}

/// The state of an egg after `i` of a run of ticks: counted down, and still
/// holding its insect up to the tick it hatches on.
proof fn lemma_egg_state(es: Seq<Egg>, rs: Seq<Option<Event>>, h: Box<Insect>, i: int)
    requires
        es.len() == rs.len() + 1,
        es[0].inside() == Some(h),
        forall|j: int| 0 <= j < rs.len() ==> #[trigger] egg_update_effect(es[j], es[j + 1], rs[j]),
        0 <= i < es.len(),
    ensures
        es[i].ticks_left() == ticks_after(es[0].ticks_left(), i),
        es[i].inside() == if i <= hatch_tick(es[0].ticks_left()) {
            Some(h)
        } else {
            None::<Box<Insect>>
        },
    decreases i,
{
    if i > 0 {
        let j = i - 1;
        lemma_egg_state(es, rs, h, j);
        assert(egg_update_effect(es[j], es[j + 1], rs[j]));
        assert(j + 1 == i);
    }
}

/// Over a run of ticks an egg holding `h` lets it out exactly once: on the
/// tick that brings it to zero (the first tick for an egg already at zero),
/// and every other tick gives nothing.
pub proof fn law_egg_hatches_exactly_once(es: Seq<Egg>, rs: Seq<Option<Event>>, h: Box<Insect>)
    requires
        es.len() == rs.len() + 1,
        es[0].inside() == Some(h),
        forall|j: int| 0 <= j < rs.len() ==> #[trigger] egg_update_effect(es[j], es[j + 1], rs[j]),
    ensures
        forall|i: int| 0 <= i < rs.len() ==> #[trigger] rs[i] == if i == hatch_tick(es[0].ticks_left()) {
            Some(Event::Rebirth(h))
        } else {
            None::<Event>
        },
{
    assert forall|i: int| 0 <= i < rs.len() implies #[trigger] rs[i] == if i == hatch_tick(es[0].ticks_left()) {
        Some(Event::Rebirth(h))
    } else {
        None::<Event>
    } by {
        lemma_egg_state(es, rs, h, i);
        lemma_egg_state(es, rs, h, i + 1);
        assert(egg_update_effect(es[i], es[i + 1], rs[i]));
    }
}

} // verus!
