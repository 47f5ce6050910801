//! Centipedes: long omnivores that grow with their health.
use vstd::prelude::*;
use std::collections::VecDeque;
use crate::insect::{ate_at, Action, BaseInsect, Behaviour, Event, Hunger, Insect, InsectInfo, Seek, lemma_perceived_steps, seek_matches};
use crate::map::{OccupyError, WorldMap, FACTION_CENTIPEDE};
use crate::pos::Pos;

verus! {

/// A centipede: the cells its body covers, head first.
pub struct Centipede {
    body: VecDeque<Pos>,
}

pub const CENTIPEDE_REPRODUCE_COST: Hunger = 512;

pub const CENTIPEDE_EAT_VAL: Hunger = 256;

/// A centipede grows (gains health) up to this length.
pub const CENTIPEDE_MAX_LENGTH: usize = 8;

pub open spec fn centipede_traits() -> InsectInfo {
    InsectInfo { max_health: 3, max_speed: 1, damage: 3 }
}

pub fn centipede_info() -> (r: InsectInfo)
    ensures
        r == centipede_traits(),
{
    InsectInfo { max_health: 3, max_speed: 1, damage: 3 }
}

/// A centipede as [`Centipede::new`] makes it: three segments on `pos`.
pub open spec fn is_new_centipede(i: Insect, pos: Pos) -> bool {
    &&& i.base.fresh(pos, FACTION_CENTIPEDE, centipede_traits())
    &&& i.spec matches Behaviour::Centipede(c) && c.segments() == seq![pos, pos, pos]
}

/// The segments after [`Centipede::update_length`] for a centipede of health
/// `health` whose head is at `head`: one more segment (a copy of the tail)
/// when shorter than its health, one fewer when longer; then, if the head
/// has moved, the tail segment moves to the head.
pub open spec fn resized(body: Seq<Pos>, health: u8, head: Pos) -> Seq<Pos> {
    let b1 = if body.len() < health {
        body.push(body.last())
    } else if body.len() > health {
        body.drop_last()
    } else {
        body
    };
    if b1[0] != head {
        seq![head] + b1.drop_last()
    } else {
        b1
    }
}

/// The map after [`Centipede::update_length`]: the dropped tail segment's
/// cell freed, or the map unchanged.
pub open spec fn resize_effect(segs: Seq<Pos>, base: BaseInsect, map: WorldMap, m: WorldMap) -> bool {
    &&& segs.len() > base.health ==> exists|res| map.free_effect(segs.last(), (base.faction, base.id), m, res)
    &&& segs.len() <= base.health ==> m == map
}

/// What [`Centipede::grow`] does for a centipede whose tail is at `tail`: the
/// base becomes `b` and `r` is the event. Below full length it gains a
/// segment's worth of health; at full length it breeds when well fed.
pub open spec fn grow_effect(base: BaseInsect, tail: Pos, b: BaseInsect, r: Option<Event>) -> bool {
    if base.health < CENTIPEDE_MAX_LENGTH {
        b == BaseInsect { health: (base.health + 1) as u8, ..base } && r.is_none()
    } else if base.hunger > CENTIPEDE_REPRODUCE_COST + 100 {
        &&& b == BaseInsect { hunger: (base.hunger - CENTIPEDE_REPRODUCE_COST) as u16, ..base }
        &&& r matches Some(Event::Birth(young)) && is_new_centipede(*young, tail)
    } else {
        b == base && r.is_none()
    }
}

/// What [`Centipede::update`] does: the centipede `s` on base `b` becomes
/// `s2` on `b2`, the map `m` becomes `m2`, and `r` is the event.
pub open spec fn centipede_update_effect(s: Centipede, b: BaseInsect, m: WorldMap, s2: Centipede, b2: BaseInsect, m2: WorldMap, r: Option<Event>) -> bool {
    &&& s2.segments() == resized(s.segments(), b.health, b.pos)
    &&& exists|m1: WorldMap|
        #![trigger resize_effect(s.segments(), b, m, m1)]
        {
        &&& resize_effect(s.segments(), b, m, m1)
        &&& if m1.cell(b.pos).kind() == crate::map::CellType::Food {
            &&& ate_at(m1, b.pos, m2)
            &&& if b.hunger < CENTIPEDE_REPRODUCE_COST {
                b2 == BaseInsect { hunger: (b.hunger + CENTIPEDE_EAT_VAL) as u16, ..b }
                    && r.is_none()
            } else {
                grow_effect(b, s2.segments().last(), b2, r)
            }
        } else {
            exists|sk: Seek| {
                &&& seek_matches(b.perceived(m1), b.faction, sk)
                &&& match sk {
                    Seek::Food(p) => b.step_effect(m1, p, b2, m2, r),
                    Seek::Enemy(p) => b.step_effect(m1, p, b2, m2, r),
                    Seek::Nothing => exists|val: u32| b.step_effect(m1, b.random_target(val), b2, m2, r),
                }
            }
        }
    }
}

/// What [`Centipede::player_action`] does: the centipede `s` on base `b`
/// becomes `s2` on `b2`, the map `m` becomes `m2`, and `r` is the event.
pub open spec fn centipede_action_effect(s: Centipede, b: BaseInsect, m: WorldMap, action: Action, s2: Centipede, b2: BaseInsect, m2: WorldMap, r: Option<Event>) -> bool {
    &&& s2.segments() == resized(s.segments(), b.health, b.pos)
    &&& resize_effect(s.segments(), b, m, m2)
    &&& action == Action::ActionA && b.hunger > CENTIPEDE_REPRODUCE_COST ==> grow_effect(
        BaseInsect { hunger: (b.hunger - CENTIPEDE_EAT_VAL) as u16, ..b },
        s2.segments().last(),
        b2,
        r,
    )
    &&& !(action == Action::ActionA && b.hunger > CENTIPEDE_REPRODUCE_COST) ==> b2
        == b && r.is_none()
}

impl Centipede {
    /// The segments, head first.
    pub closed spec fn segments(self) -> Seq<Pos> {
        self.body@
    }

    /// Every segment lies on the map.
    pub open spec fn wf(self, map: WorldMap) -> bool {
        &&& self.segments().len() >= 1
        &&& forall|i: int| 0 <= i < self.segments().len() ==> map.valid(#[trigger] self.segments()[i])
    }

    /// The number of segments.
    pub fn length(&self) -> (r: usize)
        ensures
            r == self.segments().len(),
    {
        self.body.len()
    }

    /// The `i`-th segment, from the head.
    pub fn segment(&self, i: usize) -> (r: Pos)
        requires
            i < self.segments().len(),
        ensures
            r == self.segments()[i as int],
    {
        self.body[i]
    }

    /// Whether every segment lies on the map (see [`Centipede::wf`]).
    pub fn on_map(&self, map: &WorldMap) -> (r: bool)
        ensures
            r == self.wf(*map),
    {
        let n = self.body.len();
        if n == 0 {
            return false;
        }
        let mut i: usize = 0;
        while i < n
            invariant
                n == self.segments().len(),
                i <= n,
                forall|j: int| 0 <= j < i ==> map.valid(#[trigger] self.segments()[j]),
            decreases n - i,
        {
            if !map.is_valid(self.body[i]) {
                return false;
            }
            i += 1;
        }
        true
    }

    pub fn new(pos: Pos) -> (r: Insect)
        ensures
            is_new_centipede(r, pos),
    {
        let mut body: VecDeque<Pos> = VecDeque::new();
        body.push_back(pos);
        body.push_back(pos);
        body.push_back(pos);
        assert(body@ =~= seq![pos, pos, pos]);
        Insect {
            base: BaseInsect::new(pos, FACTION_CENTIPEDE, centipede_info()),
            spec: Behaviour::Centipede(Centipede { body }),
        }
    }

    /// Makes the body as long as the centipede's health (one segment per
    /// tick) and follows the head. A dropped tail segment is freed on the
    /// map. A body of one segment cannot shrink to nothing.
    fn update_length(&mut self, base: &BaseInsect, map: &mut WorldMap)
        requires
            old(self).wf(*old(map)),
            base.wf(*old(map)),
            !(old(self).segments().len() == 1 && base.health == 0),
        ensures
            final(self).segments() == resized(old(self).segments(), base.health, base.pos),
            final(self).wf(*final(map)),
            base.wf(*final(map)),
            resize_effect(old(self).segments(), *base, *old(map), *final(map)),
    {
        let ghost mut freed: Result<(), OccupyError> = Ok(());
        let n = self.body.len();
        if n < base.health as usize {
            let tail = self.body[n - 1];
            self.body.push_back(tail);
        } else if n > base.health as usize {
            let popped = self.body.pop_back();
            match popped {
                Some(pos) => {
                    let res = map.free(pos, (base.faction, base.id));
                    proof {
                        freed = res;
                    }
                },
                None => {},
            }
        }
        let ghost mid = self.body@;
        if self.body[0] != base.pos {
            self.body.pop_back();
            self.body.push_front(base.pos);
        }
        proof {
            let b1 = if old(self).segments().len() < base.health {
                old(self).segments().push(old(self).segments().last())
            } else if old(self).segments().len() > base.health {
                old(self).segments().drop_last()
            } else {
                old(self).segments()
            };
            assert(mid =~= b1);
            assert(self.body@ =~= resized(old(self).segments(), base.health, base.pos));
            if old(self).segments().len() > base.health {
                assert(old(map).free_effect(old(self).segments().last(), (base.faction, base.id), *map, freed));
            }
        }
    }

    /// A well-fed centipede grows up to its full length, then breeds: the
    /// young one hatches at its tail.
    fn grow(&mut self, base: &mut BaseInsect) -> (r: Option<Event>)
        requires
            old(self).segments().len() >= 1,
        ensures
            *final(self) == *old(self),
            grow_effect(*old(base), old(self).segments().last(), *final(base), r),
    {
        if base.health < CENTIPEDE_MAX_LENGTH as u8 {
            base.health = base.health + 1;
        } else {
            if base.update_reproduce(CENTIPEDE_REPRODUCE_COST) {
                let n = self.body.len();
                return Some(Event::Birth(Box::new(Centipede::new(self.body[n - 1]))));
            }
        }
        None
    }

    /// A centipede's tick: the body follows the head; then it eats the food
    /// it stands on (storing it when hungry, growing otherwise), or else goes
    /// for the enemy or food it sees, or wanders at random.
    pub fn update(&mut self, base: &mut BaseInsect, map: &mut WorldMap) -> (r: Option<Event>)
        requires
            old(self).wf(*old(map)),
            old(base).wf(*old(map)),
            old(base).info == centipede_traits(),
            !(old(self).segments().len() == 1 && old(base).health == 0),
        ensures
            final(self).wf(*final(map)),
            final(base).wf(*final(map)),
            final(base).info == old(base).info,
            final(base).faction == old(base).faction,
            final(base).id == old(base).id,
            centipede_update_effect(*old(self), *old(base), *old(map), *final(self), *final(base), *final(map), r),
    {
        self.update_length(base, map);
        let ghost m1 = *map;
        if base.try_eat(map) {
            proof {
                assert(self.wf(*map)) by {
                    assert forall|i: int| 0 <= i < self.segments().len() implies map.valid(#[trigger] self.segments()[i]) by {
                        assert(m1.valid(self.segments()[i]));
                    }
                }
            }
            proof {
                assert(resize_effect(old(self).segments(), *old(base), *old(map), m1));
                assert(ate_at(m1, old(base).pos, *map));
            }
            if base.hunger < CENTIPEDE_REPRODUCE_COST {
                base.hunger = base.hunger + CENTIPEDE_EAT_VAL;
                return None;
            } else {
                return self.grow(base);
            }
        }
        proof {
            lemma_perceived_steps(*base, *map);
        }
        let ghost b0 = *base;
        let seek = base.seek_omnivore(map);
        let r = match seek {
            Seek::Food(pos) => base.try_move(pos, map),
            Seek::Enemy(pos) => base.try_move(pos, map),
            Seek::Nothing => {
                let next = base.move_random();
                let r = base.try_move(next, map);
                proof {
                    let val = choose|val: u32| next == b0.random_target(val);
                    assert(b0.step_effect(m1, b0.random_target(val), *base, *map, r));
                }
                r
            },
        };
        proof {
            assert(seek_matches(b0.perceived(m1), b0.faction, seek));
            assert(resize_effect(old(self).segments(), *old(base), *old(map), m1));
            assert(b0 == *old(base));
            assert(m1.cell(b0.pos).kind() != crate::map::CellType::Food);
            assert(exists|s: Seek| {
                &&& seek_matches(b0.perceived(m1), b0.faction, s)
                &&& match s {
                    Seek::Food(p) => b0.step_effect(m1, p, *base, *map, r),
                    Seek::Enemy(p) => b0.step_effect(m1, p, *base, *map, r),
                    Seek::Nothing => exists|val: u32| b0.step_effect(m1, b0.random_target(val), *base, *map, r),
                }
            });
            assert forall|i: int| 0 <= i < self.segments().len() implies map.valid(#[trigger] self.segments()[i]) by {
                assert(m1.valid(self.segments()[i]));
            }
        }
        r
    }

    /// The player's centipede: the body follows the head; on action A, when
    /// well fed, it spends food to grow (or breed at full length).
    pub fn player_action(&mut self, base: &mut BaseInsect, map: &mut WorldMap, action: Action) -> (r: Option<Event>)
        requires
            old(self).wf(*old(map)),
            old(base).wf(*old(map)),
            !(old(self).segments().len() == 1 && old(base).health == 0),
        ensures
            final(self).wf(*final(map)),
            final(base).wf(*final(map)),
            centipede_action_effect(*old(self), *old(base), *old(map), action, *final(self), *final(base), *final(map), r),
            final(base).id == old(base).id,
            final(base).faction == old(base).faction,
    {
        self.update_length(base, map);
        match action {
            Action::ActionA => {
                if base.hunger > CENTIPEDE_REPRODUCE_COST {
                    base.hunger = base.hunger - CENTIPEDE_EAT_VAL;
                    self.grow(base)
                } else {
                    None
                }
            },
            _ => None,
        }
    }
}

} // verus!
