//! The simulation tick: every insect ticks, then the player's turn, the
//! burials, the hatchings and the interactions, and the world's own tick.
use std::collections::HashMap;
use vstd::prelude::*;
use crate::game::{as_player, ids_of, insects_fit, keys_of, lemma_insects_fit_map, lemma_reinsert_fits, Game};
use crate::insect::{lemma_fits_after_eating, Event, Id, Insect, Interact};
use crate::map::{Faction, WorldMap};

verus! {

broadcast use vstd::std_specs::hash::group_hash_axioms;

/// The insects `ins` tick one after another in the order `ks`, which lists
/// each of them once: before the `i`-th tick the map is `ms[i]`, after it
/// `ms[i + 1]`, the insect ticked becomes its entry in `ins2`, and `evs[i]`
/// is its event.
pub open spec fn ticked_all(
    ins: Map<Id, Insect>,
    ks: Seq<Id>,
    ms: Seq<WorldMap>,
    evs: Seq<Option<Event>>,
    ins2: Map<Id, Insect>,
) -> bool {
    &&& ks.no_duplicates()
    &&& ks.to_set() == ins.dom()
    &&& ms.len() == ks.len() + 1
    &&& evs.len() == ks.len()
    &&& ins2.dom() == ins.dom()
    &&& forall|i: int| 0 <= i < ks.len() ==> #[trigger] ins[ks[i]].tick_effect(ms[i], ins2[ks[i]], ms[i + 1], evs[i])
}

/// The ids whose tick ended in death or rebirth, in tick order.
pub open spec fn deaths_of(ks: Seq<Id>, evs: Seq<Option<Event>>) -> Seq<Id>
    decreases evs.len(),
{
    if evs.len() == 0 {
        Seq::empty()
    } else {
        let prev = deaths_of(ks, evs.drop_last());
        match evs.last() {
            Some(Event::Death()) => prev.push(ks[evs.len() - 1]),
            Some(Event::Rebirth(_)) => prev.push(ks[evs.len() - 1]),
            _ => prev,
        }
    }
}

/// The insects born or reborn, in tick order.
pub open spec fn births_of(evs: Seq<Option<Event>>) -> Seq<Insect>
    decreases evs.len(),
{
    if evs.len() == 0 {
        Seq::empty()
    } else {
        let prev = births_of(evs.drop_last());
        match evs.last() {
            Some(Event::Birth(b)) => prev.push(*b),
            Some(Event::Rebirth(b)) => prev.push(*b),
            _ => prev,
        }
    }
}

/// The interactions asked for, in tick order.
pub open spec fn interacts_of(evs: Seq<Option<Event>>) -> Seq<Interact>
    decreases evs.len(),
{
    if evs.len() == 0 {
        Seq::empty()
    } else {
        let prev = interacts_of(evs.drop_last());
        match evs.last() {
            Some(Event::Interact(x)) => prev.push(x),
            _ => prev,
        }
    }
}

/// There are no more births than ticks.
pub proof fn lemma_births_len(evs: Seq<Option<Event>>)
    ensures
        births_of(evs).len() <= evs.len(),
    decreases evs.len(),
{
    if evs.len() > 0 {
        lemma_births_len(evs.drop_last());
    }
}

/// The ids to bury after the ticks `evs` of `ks` and the player's event
/// `pev` for the player's insect `pid`.
pub open spec fn all_deaths(ks: Seq<Id>, evs: Seq<Option<Event>>, pev: Option<Event>, pid: Id) -> Seq<Id> {
    match pev {
        Some(Event::Death()) => deaths_of(ks, evs).push(pid),
        Some(Event::Rebirth(_)) => deaths_of(ks, evs).push(pid),
        _ => deaths_of(ks, evs),
    }
}

/// The insects to hatch after the ticks `evs` and the player's event `pev`
/// (a rebirth of the player's insect is handled at once).
pub open spec fn all_births(evs: Seq<Option<Event>>, pev: Option<Event>) -> Seq<Insect> {
    match pev {
        Some(Event::Birth(b)) => births_of(evs).push(*b),
        _ => births_of(evs),
    }
}

/// The interactions to apply after the ticks `evs` and the player's event `pev`.
pub open spec fn all_interacts(evs: Seq<Option<Event>>, pev: Option<Event>) -> Seq<Interact> {
    match pev {
        Some(Event::Interact(x)) => interacts_of(evs).push(x),
        _ => interacts_of(evs),
    }
}

/// What burying `id` does, `g` becoming `g2`: if the insect is still there,
/// it is taken out and leaves the map (see [`Insect::death_effect`]).
pub open spec fn buried_one(g: Game, id: Id, g2: Game) -> bool {
    &&& g2.insects_id == g.insects_id
    &&& g2.player_id == g.player_id
    &&& g2.same_settings(g)
    &&& if g.insects@.contains_key(id) {
        &&& g2.insects@ == g.insects@.remove(id)
        &&& g.insects@[id].death_effect(g.map, g2.map)
    } else {
        &&& g2.insects@ == g.insects@
        &&& g2.map == g.map
    }
}

/// Burying the ids `ds`, the last first.
pub open spec fn buried_all(g: Game, ds: Seq<Id>, g2: Game) -> bool
    decreases ds.len(),
{
    if ds.len() == 0 {
        g.same_game(g2)
    } else {
        exists|g1: Game| #[trigger] buried_one(g, ds.last(), g1) && buried_all(g1, ds.drop_last(), g2)
    }
}

/// What hatching `b` does, `g` becoming `g2`: if it fits the map, it is
/// spawned (see [`Game::spawned`]); otherwise nothing happens.
pub open spec fn hatched_one(g: Game, b: Insect, g2: Game) -> bool {
    &&& g2.player_id == g.player_id
    &&& if b.wf(g.map) {
        g.spawned(b, g2)
    } else {
        g.same_game(g2)
    }
}

/// Hatching the insects `bs`, the last first.
pub open spec fn hatched_all(g: Game, bs: Seq<Insect>, g2: Game) -> bool
    decreases bs.len(),
{
    if bs.len() == 0 {
        g.same_game(g2)
    } else {
        exists|g1: Game| #[trigger] hatched_one(g, bs.last(), g1) && hatched_all(g1, bs.drop_last(), g2)
    }
}

/// The insects after the interactions `xs`, the last first; one aimed at an
/// insect that is gone changes nothing.
pub open spec fn interacted_all(ins: Map<Id, Insect>, xs: Seq<Interact>) -> Map<Id, Insect>
    decreases xs.len(),
{
    if xs.len() == 0 {
        ins
    } else {
        let x = xs.last();
        let ins1 = if ins.contains_key(x.dst) {
            ins.insert(x.dst, ins[x.dst].interacted(x))
        } else {
            ins
        };
        interacted_all(ins1, xs.drop_last())
    }
}

/// The number of insects of faction `f` among those of `ins` listed in `ks`.
pub open spec fn seq_count(ins: Map<Id, Insect>, ks: Seq<Id>, f: Faction) -> nat
    decreases ks.len(),
{
    if ks.len() == 0 {
        0
    } else {
        seq_count(ins, ks.drop_last(), f) + if ins[ks.last()].base.faction == f { 1nat } else { 0nat }
    }
}

/// The number of insects of faction `f`.
pub open spec fn faction_count(ins: Map<Id, Insect>, f: Faction) -> nat {
    ins.dom().filter(|id: Id| ins[id].base.faction == f).len()
}

/// Counting along a list of distinct ids counts the set of them.
pub proof fn lemma_seq_count(ins: Map<Id, Insect>, ks: Seq<Id>, f: Faction)
    requires
        ks.no_duplicates(),
    ensures
        seq_count(ins, ks, f) == ks.to_set().filter(|id: Id| ins[id].base.faction == f).len(),
    decreases ks.len(),
{
    let p = |id: Id| ins[id].base.faction == f;
    if ks.len() == 0 {
        assert(ks.to_set().filter(p) =~= Set::empty());
    } else {
        let prev = ks.drop_last();
        let k = ks.last();
        assert(prev.no_duplicates());
        lemma_seq_count(ins, prev, f);
        assert(ks == prev.push(k));
        broadcast use vstd::seq_lib::group_seq_properties;
        assert(ks.to_set() =~= prev.to_set().insert(k));
        assert(!prev.to_set().contains(k)) by {
            if prev.to_set().contains(k) {
                let j = choose|j: int| 0 <= j < prev.len() && prev[j] == k;
                assert(ks[j] == ks[ks.len() - 1]);
            }
        }
        vstd::seq_lib::seq_to_set_is_finite(prev);
        if p(k) {
            assert(ks.to_set().filter(p) =~= prev.to_set().filter(p).insert(k));
        } else {
            assert(ks.to_set().filter(p) =~= prev.to_set().filter(p));
        }
    }
}

/// No more are counted than listed.
pub proof fn lemma_seq_count_len(ins: Map<Id, Insect>, ks: Seq<Id>, f: Faction)
    ensures
        seq_count(ins, ks, f) <= ks.len(),
    decreases ks.len(),
{
    if ks.len() > 0 {
        lemma_seq_count_len(ins, ks.drop_last(), f);
    }
}

/// The counts `pops` start a tick: every faction counted before, and every
/// faction with an insect, has the number of its insects.
pub open spec fn pops_counted(old_pops: Map<Faction, usize>, ins: Map<Id, Insect>, pops: Map<Faction, usize>) -> bool {
    &&& forall|f: Faction| #[trigger] pops.contains_key(f) <==> (old_pops.contains_key(f) || exists|id: Id|
        ins.contains_key(id) && ins[id].base.faction == f)
    &&& forall|f: Faction| #[trigger] pops.contains_key(f) ==> pops[f] == faction_count(ins, f)
}

impl Game {
    /// What the player's event `pev` does at once, `self` becoming `g2`: a
    /// reborn player's insect that fits the map is spawned and becomes the
    /// player's; nothing else happens.
    pub open spec fn player_event(self, pev: Option<Event>, g2: Game) -> bool {
        match pev {
            Some(Event::Rebirth(b)) => if b.wf(self.map) {
                self.spawned(*b, g2) && g2.player_id == self.insects_id
            } else {
                self.same_game(g2)
            },
            _ => self.same_game(g2),
        }
    }

    /// The steps of [`Game::update_sim`], from `self` to `g9`: the counts
    /// (`g1`); every insect's tick in the order `ks` (`g2`, with the maps
    /// `ms` and events `evs`); the player's turn (`g3`, event `pev`); a
    /// reborn player's insect (`g4`); the burials (`g5`); the hatchings
    /// (`g6`); the interactions (`g7`); a new player's insect if the last
    /// one is gone (`g8`); and the world's own tick (`g9`).
    pub open spec fn simulated(
        self,
        act: bool,
        g1: Game,
        ks: Seq<Id>,
        ms: Seq<WorldMap>,
        evs: Seq<Option<Event>>,
        g2: Game,
        pev: Option<Event>,
        g3: Game,
        g4: Game,
        g5: Game,
        g6: Game,
        g7: Game,
        g8: Game,
        g9: Game,
    ) -> bool {
        &&& self.same_but_pops(g1)
        &&& pops_counted(self.pops@, self.insects@, g1.pops@)
        &&& ticked_all(g1.insects@, ks, ms, evs, g2.insects@)
        &&& ms[0] == g1.map
        &&& ms.last() == g2.map
        &&& g2.insects_id == g1.insects_id
        &&& g2.player_id == g1.player_id
        &&& g2.same_settings(g1)
        &&& g2.player_updated(act, g3, pev)
        &&& g3.player_event(pev, g4)
        &&& buried_all(g4, all_deaths(ks, evs, pev, g3.player_id), g5)
        &&& hatched_all(g5, all_births(evs, pev), g6)
        &&& g7.insects@ == interacted_all(g6.insects@, all_interacts(evs, pev))
        &&& g7.map == g6.map
        &&& g7.insects_id == g6.insects_id
        &&& g7.player_id == g6.player_id
        &&& g7.same_settings(g6)
        &&& if g7.insects@.contains_key(g7.player_id) {
            g7.same_game(g8)
        } else {
            g7.player_spawned(g8)
        }
        &&& g8.map.ticked(g9.map)
        &&& g9.insects@ == g8.insects@
        &&& g9.insects_id == g8.insects_id
        &&& g9.player_id == g8.player_id
        &&& g9.same_settings(g8)
    }

    /// One tick of the simulation; see [`Game::simulated`]. `act` is whether
    /// the player holds the action key.
    pub fn update_sim(&mut self, act: bool)
        requires
            old(self).wf(),
            old(self).insects_id + old(self).insects@.dom().len() + 1 <= u32::MAX,
        ensures
            final(self).wf(),
            exists|
                g1: Game,
                ks: Seq<Id>,
                ms: Seq<WorldMap>,
                evs: Seq<Option<Event>>,
                g2: Game,
                pev: Option<Event>,
                g3: Game,
                g4: Game,
                g5: Game,
                g6: Game,
                g7: Game,
                g8: Game,
            | #[trigger] old(self).simulated(act, g1, ks, ms, evs, g2, pev, g3, g4, g5, g6, g7, g8, *final(self)),
            final(self).insects@.contains_key(final(self).player_id) || !final(self).has_player_kind(),
    {
        let ghost g0 = *self;
        self.count_pops();
        let ghost g1 = *self;
        let (dead, born, hits, Ghost(ks), Ghost(ms), Ghost(evs)) = self.tick_all();
        let mut dead_bugs = dead;
        let mut new_bugs = born;
        let mut interacts = hits;
        let ghost g2 = *self;
        let pev = self.update_player(act);
        let ghost g3 = *self;
        let ghost pev_g = pev;
        proof {
            lemma_births_len(evs);
            ks.unique_seq_to_set();
        }
        match pev {
            Some(Event::Death()) => {
                dead_bugs.push(self.player_id);
                proof {
                    assert(g3.player_event(pev_g, *self));
                }
            },
            Some(Event::Interact(x)) => {
                interacts.push(x);
                proof {
                    assert(g3.player_event(pev_g, *self));
                }
            },
            Some(Event::Rebirth(bug)) => {
                dead_bugs.push(self.player_id);
                proof {
                    assert(pev_g == Some(Event::Rebirth(bug)));
                }
                if bug.fits_map(&self.map) {
                    let id = self.spawn_insect(*bug);
                    let ghost after = *self;
                    self.player_id = id;
                    proof {
                        let res = choose|res| g3.map.occupy_effect(bug.base.pos, (bug.base.faction, g3.insects_id), after.map, res);
                        assert(g3.map.occupy_effect(bug.base.pos, (bug.base.faction, g3.insects_id), self.map, res));
                    }
                } else {
                    proof {
                        assert(g3.same_game(*self));
                    }
                }
                proof {
                    assert(g3.player_event(pev_g, *self));
                }
            },
            Some(Event::Birth(bug)) => {
                new_bugs.push(*bug);
                proof {
                    assert(g3.player_event(pev_g, *self));
                }
            },
            None => {},
        }
        let ghost g4 = *self;
        proof {
            assert(g3.player_event(pev_g, g4));
            assert(dead_bugs@ == all_deaths(ks, evs, pev_g, g3.player_id));
            assert(new_bugs@ == all_births(evs, pev_g));
            assert(interacts@ == all_interacts(evs, pev_g));
        }
        self.bury(dead_bugs);
        let ghost g5 = *self;
        self.hatch(new_bugs);
        let ghost g6 = *self;
        self.apply_interacts(interacts);
        let ghost g7 = *self;
        if !self.insects.contains_key(&self.player_id) {
            self.spawn_player();
        }
        let ghost g8 = *self;
        self.map.update();
        proof {
            lemma_insects_fit_map(self.insects@, g8.map, self.map, self.insects_id);
            assert(g0.simulated(act, g1, ks, ms, evs, g2, pev_g, g3, g4, g5, g6, g7, g8, *self));
        }
    }

    /// Counts the insects of each faction; see [`pops_counted`].
    fn count_pops(&mut self)
        requires
            old(self).wf(),
        ensures
            final(self).wf(),
            old(self).same_but_pops(*final(self)),
            pops_counted(old(self).pops@, old(self).insects@, final(self).pops@),
    {
        let ghost ins = self.insects@;
        let fs = keys_of(&self.pops);
        let mut counts: HashMap<Faction, usize> = HashMap::new();
        let mut j: usize = 0;
        while j < fs.len()
            invariant
                j <= fs@.len(),
                fs@.to_set() == old(self).pops@.dom(),
                forall|f: Faction| #[trigger] counts@.contains_key(f) <==> exists|k: int| 0 <= k < j && fs@[k] == f,
                forall|f: Faction| #[trigger] counts@.contains_key(f) ==> counts@[f] == 0,
            decreases fs.len() - j,
        {
            counts.insert(fs[j], 0);
            proof {
                assert forall|f: Faction| #[trigger] counts@.contains_key(f) <==> exists|k: int| 0 <= k < j + 1 && fs@[k] == f by {
                    if f == fs@[j as int] {
                        assert(0 <= j < j + 1 && fs@[j as int] == f);
                    }
                }
            }
            j += 1;
        }
        proof {
            assert forall|f: Faction| #[trigger] counts@.contains_key(f) <==> old(self).pops@.contains_key(f) by {
                if old(self).pops@.contains_key(f) {
                    assert(fs@.to_set().contains(f));
                    let k = choose|k: int| 0 <= k < fs@.len() && fs@[k] == f;
                    assert(0 <= k < j && fs@[k] == f);
                }
            }
        }
        let ids = ids_of(&self.insects);
        let n = ids.len();
        let mut i: usize = 0;
        while i < n
            invariant
                n == ids@.len(),
                i <= n,
                ids@.to_set() == ins.dom(),
                ins == self.insects@,
                *self == *old(self),
                forall|f: Faction| #[trigger] counts@.contains_key(f) <==> (old(self).pops@.contains_key(f)
                    || exists|k: int| 0 <= k < i && ins[ids@[k]].base.faction == f),
                forall|f: Faction| #[trigger] counts@.contains_key(f) ==> counts@[f] == seq_count(ins, ids@.take(i as int), f),
                forall|f: Faction| !#[trigger] counts@.contains_key(f) ==> seq_count(ins, ids@.take(i as int), f) == 0,
            decreases n - i,
        {
            let id = ids[i];
            proof {
                assert(ids@.to_set().contains(id));
            }
            let f = match self.insects.get(&id) {
                Some(insect) => insect.base.faction,
                None => 0,
            };
            let c = match counts.get(&f) {
                Some(v) => *v,
                None => 0,
            };
            let ghost before = counts@;
            proof {
                assert(ids@.take(i + 1).drop_last() == ids@.take(i as int));
                assert(ids@.take(i + 1).last() == id);
                assert(f == ins[id].base.faction);
                lemma_seq_count_len(ins, ids@.take(i as int), f);
            }
            counts.insert(f, c + 1);
            proof {
                assert forall|g: Faction| #[trigger] counts@.contains_key(g) implies counts@[g] == seq_count(ins, ids@.take(i + 1), g) by {
                    if g != f {
                        assert(before.contains_key(g));
                    }
                }
                assert forall|g: Faction| !#[trigger] counts@.contains_key(g) implies seq_count(ins, ids@.take(i + 1), g) == 0 by {
                    assert(!before.contains_key(g));
                }
                assert forall|g: Faction| #[trigger] counts@.contains_key(g) <==> (old(self).pops@.contains_key(g)
                    || exists|k: int| 0 <= k < i + 1 && ins[ids@[k]].base.faction == g) by {
                    if g == f {
                        assert(0 <= i < i + 1 && ins[ids@[i as int]].base.faction == g);
                    }
                }
            }
            i += 1;
        }
        proof {
            assert(ids@.take(n as int) == ids@);
            assert forall|f: Faction| #[trigger] counts@.contains_key(f) implies counts@[f] == faction_count(ins, f) by {
                lemma_seq_count(ins, ids@, f);
            }
            assert forall|f: Faction| #[trigger] counts@.contains_key(f) <==> (old(self).pops@.contains_key(f) || exists|id: Id|
                ins.contains_key(id) && ins[id].base.faction == f) by {
                if exists|id: Id| ins.contains_key(id) && ins[id].base.faction == f {
                    let id = choose|id: Id| ins.contains_key(id) && ins[id].base.faction == f;
                    assert(ids@.to_set().contains(id));
                    let k = choose|k: int| 0 <= k < ids@.len() && ids@[k] == id;
                    assert(0 <= k < n && ins[ids@[k]].base.faction == f);
                }
                if exists|k: int| 0 <= k < n && ins[ids@[k]].base.faction == f {
                    let k = choose|k: int| 0 <= k < n && ins[ids@[k]].base.faction == f;
                    assert(ids@.to_set().contains(ids@[k]));
                }
            }
        }
        self.pops = counts;
    }

    /// Ticks every insect once, in the order the insects are walked, and
    /// gathers what their ticks ask: deaths, births and interactions.
    fn tick_all(&mut self) -> (r: (
        Vec<Id>,
        Vec<Insect>,
        Vec<Interact>,
        Ghost<Seq<Id>>,
        Ghost<Seq<WorldMap>>,
        Ghost<Seq<Option<Event>>>,
    ))
        requires
            old(self).wf(),
        ensures
            final(self).wf(),
            ticked_all(old(self).insects@, r.3@, r.4@, r.5@, final(self).insects@),
            r.4@[0] == old(self).map,
            r.4@.last() == final(self).map,
            r.0@ == deaths_of(r.3@, r.5@),
            r.1@ == births_of(r.5@),
            r.2@ == interacts_of(r.5@),
            final(self).insects_id == old(self).insects_id,
            final(self).player_id == old(self).player_id,
            final(self).same_settings(*old(self)),
    {
        let ids = ids_of(&self.insects);
        let ghost g0 = *self;
        let ghost ks = ids@;
        let ghost mut ms: Seq<WorldMap> = seq![self.map];
        let ghost mut evs: Seq<Option<Event>> = Seq::empty();
        let mut dead_bugs: Vec<Id> = Vec::new();
        let mut new_bugs: Vec<Insect> = Vec::new();
        let mut interacts: Vec<Interact> = Vec::new();
        let n = ids.len();
        let mut i: usize = 0;
        while i < n
            invariant
                n == ids@.len() == ks.len(),
                ks == ids@,
                ks.no_duplicates(),
                ks.to_set() == g0.insects@.dom(),
                i <= n,
                self.wf(),
                self.insects@.dom() == g0.insects@.dom(),
                self.map.size == g0.map.size,
                ms.len() == i + 1,
                evs.len() == i,
                ms[0] == g0.map,
                ms.last() == self.map,
                forall|j: int| 0 <= j < i ==> #[trigger] g0.insects@[ks[j]].tick_effect(ms[j], self.insects@[ks[j]], ms[j + 1], evs[j]),
                forall|j: int| i <= j < n ==> self.insects@[#[trigger] ks[j]] == g0.insects@[ks[j]],
                dead_bugs@ == deaths_of(ks, evs),
                new_bugs@ == births_of(evs),
                interacts@ == interacts_of(evs),
                self.insects_id == g0.insects_id,
                self.player_id == g0.player_id,
                self.same_settings(g0),
            decreases n - i,
        {
            let id = ids[i];
            proof {
                assert(ks.to_set().contains(ks[i as int]));
            }
            let removed = self.insects.remove(&id);
            let mut insect = removed.unwrap();
            let ghost before = insect;
            let ghost m_before = self.map;
            let ev = insect.update(&mut self.map);
            let ghost evs_prev = evs;
            proof {
                lemma_insects_fit_map(self.insects@, m_before, self.map, self.insects_id);
                ms = ms.push(self.map);
                evs = evs.push(ev);
                assert(evs.drop_last() == evs_prev);
            }
            self.insects.insert(id, insect);
            match ev {
                Some(Event::Interact(x)) => interacts.push(x),
                Some(Event::Rebirth(bug)) => {
                    new_bugs.push(*bug);
                    dead_bugs.push(id);
                },
                Some(Event::Birth(bug)) => new_bugs.push(*bug),
                Some(Event::Death()) => dead_bugs.push(id),
                None => {},
            }
            proof {
                assert forall|j: int| 0 <= j < i + 1 implies #[trigger] g0.insects@[ks[j]].tick_effect(ms[j], self.insects@[ks[j]], ms[j + 1], evs[j]) by {
                    if j < i {
                        assert(ks[j] != ks[i as int]);
                    }
                }
                assert forall|j: int| i + 1 <= j < n implies self.insects@[#[trigger] ks[j]] == g0.insects@[ks[j]] by {
                    assert(ks[j] != ks[i as int]);
                }
            }
            i += 1;
        }
        (dead_bugs, new_bugs, interacts, Ghost(ks), Ghost(ms), Ghost(evs))
    }

    /// Buries the dead, the last first; see [`buried_all`].
    fn bury(&mut self, dead: Vec<Id>)
        requires
            old(self).wf(),
        ensures
            final(self).wf(),
            buried_all(*old(self), dead@, *final(self)),
            final(self).insects_id == old(self).insects_id,
    {
        let ghost g0 = *self;
        let ghost d0 = dead@;
        let mut dead = dead;
        while dead.len() > 0
            invariant
                self.wf(),
                self.insects_id == g0.insects_id,
                forall|gx: Game| #[trigger] buried_all(*self, dead@, gx) ==> buried_all(g0, d0, gx),
            decreases dead.len(),
        {
            let ghost cur = *self;
            let ghost d = dead@;
            let bug = dead.pop().unwrap();
            match self.insects.remove(&bug) {
                Some(insect) => {
                    proof {
                        assert(cur.insects@.contains_key(bug));
                        assert(insect == cur.insects@[bug]);
                    }
                    let ghost m0 = self.map;
                    insect.die(&mut self.map);
                    proof {
                        lemma_insects_fit_map(self.insects@, m0, self.map, self.insects_id);
                    }
                },
                None => {
                    proof {
                        assert(self.insects@ =~= cur.insects@);
                    }
                },
            }
            proof {
                assert(d.last() == bug && d.drop_last() == dead@);
                assert(buried_one(cur, bug, *self));
                assert forall|gx: Game| #[trigger] buried_all(*self, dead@, gx) implies buried_all(g0, d0, gx) by {
                    assert(buried_one(cur, d.last(), *self) && buried_all(*self, d.drop_last(), gx));
                    assert(buried_all(cur, d, gx));
                }
            }
        }
        proof {
            assert(buried_all(*self, dead@, *self));
        }
    }

    /// Hatches the newborn, the last first; see [`hatched_all`].
    fn hatch(&mut self, born: Vec<Insect>)
        requires
            old(self).wf(),
            old(self).insects_id + born@.len() <= u32::MAX,
        ensures
            final(self).wf(),
            hatched_all(*old(self), born@, *final(self)),
    {
        let ghost g0 = *self;
        let ghost b0 = born@;
        let mut born = born;
        while born.len() > 0
            invariant
                self.wf(),
                self.insects_id + born@.len() <= u32::MAX,
                forall|gx: Game| #[trigger] hatched_all(*self, born@, gx) ==> hatched_all(g0, b0, gx),
            decreases born.len(),
        {
            let ghost cur = *self;
            let ghost bs = born@;
            let bug = born.pop().unwrap();
            if bug.fits_map(&self.map) {
                self.spawn_insect(bug);
            }
            proof {
                assert(bs.last() == bug && bs.drop_last() == born@);
                assert(hatched_one(cur, bug, *self));
                assert forall|gx: Game| #[trigger] hatched_all(*self, born@, gx) implies hatched_all(g0, b0, gx) by {
                    assert(hatched_one(cur, bs.last(), *self) && hatched_all(*self, bs.drop_last(), gx));
                    assert(hatched_all(cur, bs, gx));
                }
            }
        }
        proof {
            assert(hatched_all(*self, born@, *self));
        }
    }

    /// Applies the interactions, the last first; see [`interacted_all`].
    fn apply_interacts(&mut self, interacts: Vec<Interact>)
        requires
            old(self).wf(),
        ensures
            final(self).wf(),
            final(self).insects@ == interacted_all(old(self).insects@, interacts@),
            final(self).map == old(self).map,
            final(self).insects_id == old(self).insects_id,
            final(self).player_id == old(self).player_id,
            final(self).same_settings(*old(self)),
    {
        let ghost x0 = interacts@;
        let mut interacts = interacts;
        while interacts.len() > 0
            invariant
                self.wf(),
                interacted_all(self.insects@, interacts@) == interacted_all(old(self).insects@, x0),
                self.map == old(self).map,
                self.insects_id == old(self).insects_id,
                self.player_id == old(self).player_id,
                self.same_settings(*old(self)),
            decreases interacts.len(),
        {
            let ghost ins = self.insects@;
            let ghost xs = interacts@;
            let x = interacts.pop().unwrap();
            proof {
                assert(xs.last() == x && xs.drop_last() == interacts@);
            }
            match self.insects.remove(&x.dst) {
                Some(mut insect) => {
                    proof {
                        assert(ins.contains_key(x.dst));
                        assert(insect == ins[x.dst]);
                    }
                    insect.interact(x);
                    proof {
                        lemma_fits_after_eating(ins[x.dst].spec, ins[x.dst].base, self.map, insect.base, self.map);
                    }
                    self.insects.insert(x.dst, insect);
                    proof {
                        lemma_reinsert_fits(ins, x.dst, insect, self.map, self.insects_id);
                    }
                },
                None => {
                    proof {
                        assert(self.insects@ =~= ins);
                    }
                },
            }
        }
    }
}

/// Counting along the walk of the insects gives the same counts whatever
/// the walk's order: any two lists of the same insects, each once, count
/// every faction alike.
pub proof fn law_count_order_free(ins: Map<Id, Insect>, ks1: Seq<Id>, ks2: Seq<Id>, f: Faction)
    requires
        ks1.no_duplicates(),
        ks2.no_duplicates(),
        ks1.to_set() == ks2.to_set(),
    ensures
        seq_count(ins, ks1, f) == seq_count(ins, ks2, f),
{
    lemma_seq_count(ins, ks1, f);
    lemma_seq_count(ins, ks2, f);
}

} // verus!
