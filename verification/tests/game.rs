use std::collections::HashMap;

use ant_io::game::{
    Game, PlayerInput, Speed, CRITTERS, FACTION_BLUE_ANTS, FACTION_RED_ANTS, STARTING_ANTS,
};
use ant_io::insect::spider::Spider;
use ant_io::insect::{Behaviour, Id};
use ant_io::map::{CellType, Faction, FACTION_CENTIPEDE, FACTION_PILLBUG, FACTION_SPIDER};
use ant_io::pos::Pos;

fn p(x: i16, y: i16) -> Pos {
    Pos::new(x, y)
}

fn no_keys() -> PlayerInput {
    PlayerInput {
        right: false,
        left: false,
        up: false,
        down: false,
        scents_1: false,
        scents_2: false,
        pause: false,
        speed: false,
    }
}

/// Every insect is stored under its own id, below the next id, on the map.
fn assert_sound(game: &Game) {
    for (id, insect) in &game.insects {
        assert_eq!(insect.base.id, *id);
        assert!(*id < game.insects_id);
        assert!(insect.fits_map(&game.map));
    }
}

fn counts(game: &Game) -> HashMap<Faction, usize> {
    let mut c = HashMap::new();
    for insect in game.insects.values() {
        *c.entry(insect.base.faction).or_insert(0) += 1;
    }
    c
}

#[test]
fn new_game_is_empty() {
    let game = Game::new();
    assert!(game.insects.is_empty());
    assert_eq!(game.insects_id, 1);
    assert_eq!(game.player_id, 0);
    assert_eq!(game.player_dir, p(0, 0));
    assert_eq!(game.player_faction, FACTION_CENTIPEDE);
    assert_eq!(game.speed, Speed::SLOW);
    assert!(!game.game_over);
    assert!(game.game_won);
    assert_eq!(game.show_scents, 0);
    assert!(!game.paused);
    assert!(game.pops.is_empty());
    assert!(game.queens.is_empty());
}

#[test]
fn speed_inverts() {
    assert_eq!(Speed::SLOW.invert(), Speed::FAST);
    assert_eq!(Speed::FAST.invert(), Speed::SLOW);
}

#[test]
fn invert_twice_law() {
    for s in [Speed::SLOW, Speed::FAST] {
        assert_eq!(s.invert().invert(), s);
    }
}

#[test]
fn spawning_uses_fresh_ids() {
    let mut game = Game::new();
    let spot = p(12, 12);
    {
        let c = game.map.get_cell_mut(spot).unwrap();
        c.take_type(CellType::Rock);
        c.take_type(CellType::Food);
    }
    let a = game.spawn_insect(Spider::new(spot));
    let b = game.spawn_insect(Spider::new(spot));
    assert_eq!(a, 1);
    assert_eq!(b, 2);
    assert_eq!(game.insects_id, 3);
    assert_eq!(game.insects[&a].base.id, a);
    assert_eq!(game.insects[&b].base.id, b);
    // the first spider holds the cell; the second shares it
    assert_eq!(game.map.get_cell(spot).unwrap().occupied_id(), a);
    assert_sound(&game);
}

#[test]
fn spawn_fresh_id_law() {
    let mut game = Game::new();
    for i in 0..20 {
        let before: Vec<Id> = game.insects.keys().copied().collect();
        let id = game.spawn_insect(Spider::new(p(i, 2 * i)));
        assert!(!before.contains(&id));
        assert!(before.iter().all(|k| *k < id));
        assert!(game.insects_id > id);
    }
}

#[test]
fn an_ant_colony() {
    let mut game = Game::new();
    let nest = p(60, 60);
    game.spawn_ant_colony(nest, FACTION_RED_ANTS);
    assert_eq!(game.insects.len(), 1 + STARTING_ANTS);
    assert_eq!(game.insects_id as usize, 2 + STARTING_ANTS);
    assert_eq!(game.queens[&FACTION_RED_ANTS], 1);
    match &game.insects[&1].spec {
        Behaviour::AntQueen(_) => {},
        _ => panic!("the queen comes first"),
    }
    for id in 2..(2 + STARTING_ANTS as Id) {
        let ant = &game.insects[&id];
        assert_eq!(ant.base.pos, nest);
        assert_eq!(ant.base.faction, FACTION_RED_ANTS);
        match &ant.spec {
            Behaviour::Ant(a) => assert_eq!(a.queen, 1),
            _ => panic!("a worker"),
        }
    }
    let cell = game.map.get_cell(nest).unwrap();
    if !cell.is_type(CellType::Rock) {
        assert_eq!(cell.occupied_id(), 1);
    }
    assert_sound(&game);
}

#[test]
fn generating_a_world() {
    let mut game = Game::new();
    game.generate();
    let total = CRITTERS as usize + 2 * (1 + STARTING_ANTS);
    assert_eq!(game.insects.len(), total);
    assert_eq!(game.insects_id as usize, 1 + total);
    let c = counts(&game);
    assert_eq!(c[&FACTION_PILLBUG], 250);
    assert_eq!(c[&FACTION_SPIDER], 50);
    assert_eq!(c[&FACTION_CENTIPEDE], 10);
    assert_eq!(c[&FACTION_BLUE_ANTS], 1 + STARTING_ANTS);
    assert_eq!(c[&FACTION_RED_ANTS], 1 + STARTING_ANTS);
    assert_eq!(game.queens[&FACTION_BLUE_ANTS], 1 + CRITTERS);
    assert_eq!(game.queens[&FACTION_RED_ANTS], 2 + CRITTERS + STARTING_ANTS as Id);
    // the player plays one of the centipedes
    let player = &game.insects[&game.player_id];
    assert_eq!(player.base.faction, FACTION_CENTIPEDE);
    match &player.spec {
        Behaviour::Player(pl) => match &*pl.sub_insect {
            Behaviour::Centipede(_) => {},
            _ => panic!("a centipede underneath"),
        },
        _ => panic!("the player's insect"),
    }
    assert_sound(&game);
}

#[test]
fn input_sets_direction_and_toggles() {
    let mut game = Game::new();
    let mut keys = no_keys();
    keys.right = true;
    keys.left = true;
    keys.up = true;
    game.update_player_input(keys);
    assert_eq!(game.player_dir, p(1, -1));
    let mut keys = no_keys();
    keys.left = true;
    keys.down = true;
    game.update_player_input(keys);
    assert_eq!(game.player_dir, p(-1, 1));
    game.update_player_input(no_keys());
    assert_eq!(game.player_dir, p(0, 0));

    let mut keys = no_keys();
    keys.scents_1 = true;
    game.update_player_input(keys);
    assert_eq!(game.show_scents, 1);
    let mut keys = no_keys();
    keys.scents_2 = true;
    game.update_player_input(keys);
    assert_eq!(game.show_scents, 2);
    let mut keys = no_keys();
    keys.scents_1 = true;
    keys.scents_2 = true;
    game.update_player_input(keys);
    // 2 -> 1 by the first key, then 1 -> 2 by the second
    assert_eq!(game.show_scents, 2);

    let mut keys = no_keys();
    keys.pause = true;
    keys.speed = true;
    game.update_player_input(keys);
    assert!(game.paused);
    assert_eq!(game.speed, Speed::FAST);
}

#[test]
fn toggle_twice_law() {
    let mut game = Game::new();
    let mut keys = no_keys();
    keys.scents_2 = true;
    game.update_player_input(keys);
    game.update_player_input(keys);
    assert_eq!(game.show_scents, 0);
    keys.pause = true;
    game.update_player_input(keys);
    game.update_player_input(keys);
    assert!(!game.paused);
}

#[test]
fn no_player_no_turn() {
    let mut game = Game::new();
    assert!(game.update_player(true).is_none());
    assert!(game.insects.is_empty());
}

#[test]
fn the_player_steps_where_pointed() {
    let mut game = Game::new();
    game.generate();
    let mut keys = no_keys();
    keys.right = true;
    game.update_player_input(keys);
    let before = game.insects[&game.player_id].base.pos;
    let _ = game.update_player(false);
    assert_eq!(game.player_last_pos, before);
    let after = game.insects[&game.player_id].base.pos;
    assert!(after == before || after == Pos::new(before.x + 1, before.y));
    assert_sound(&game);
}

#[test]
fn simulation_ticks_keep_the_game_sound() {
    let mut game = Game::new();
    game.generate();
    for tick in 0..60 {
        let before = counts(&game);
        game.update_sim(tick % 3 == 0);
        assert_sound(&game);
        // the counts are those of the insects at the start of the tick
        for (f, n) in &before {
            assert_eq!(game.pops[f], *n);
        }
        assert!(game.insects.contains_key(&game.player_id) || !game.insects.values().any(|i| i.base.faction == game.player_faction));
    }
}

#[test]
fn an_empty_world_ticks() {
    let mut game = Game::new();
    game.pops.insert(FACTION_SPIDER, 9);
    game.update_sim(true);
    assert!(game.insects.is_empty());
    assert_eq!(game.pops[&FACTION_SPIDER], 0);
    assert_eq!(game.pops.len(), 1);
}

#[test]
fn populations_largest_first() {
    let mut game = Game::new();
    game.pops.insert(1, 5);
    game.pops.insert(2, 40);
    game.pops.insert(FACTION_SPIDER, 7);
    game.pops.insert(FACTION_PILLBUG, 40);
    game.pops.insert(FACTION_CENTIPEDE, 0);
    let sorted = game.pops_by_size();
    assert_eq!(sorted.len(), 5);
    let counts: Vec<usize> = sorted.iter().map(|e| e.1).collect();
    assert_eq!(counts, vec![40, 40, 7, 5, 0]);
    for (f, n) in &sorted {
        assert_eq!(game.pops[f], *n);
    }
    let mut factions: Vec<Faction> = sorted.iter().map(|e| e.0).collect();
    factions.sort();
    assert_eq!(factions, vec![1, 2, FACTION_CENTIPEDE, FACTION_SPIDER, FACTION_PILLBUG]);
    assert!(Game::new().pops_by_size().is_empty());
}
