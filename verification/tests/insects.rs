use ant_io::insect::ant::{Ant, AntQueen, ScentGrid, Scents, ANT_FOOD_HUNGER};
use ant_io::insect::centipede::Centipede;
use ant_io::insect::egg::Egg;
use ant_io::insect::pillbug::Pillbug;
use ant_io::insect::player::InsectPlayer;
use ant_io::insect::spider::Spider;
use ant_io::insect::{Action, Behaviour, Event, Insect};
use ant_io::map::{CellType, WorldMap, FACTION_SPIDER};
use ant_io::pos::{dirs, Pos};

fn p(x: i16, y: i16) -> Pos {
    Pos::new(x, y)
}

/// A world with bare ground around `spot`.
fn world_around(spot: Pos) -> WorldMap {
    let mut map = WorldMap::new();
    for dy in -3..=3 {
        for dx in -3..=3 {
            let c = map.get_cell_mut(p(spot.x + dx, spot.y + dy)).unwrap();
            c.take_type(CellType::Rock);
            c.take_type(CellType::Food);
        }
    }
    map
}

fn ready(insect: &mut Insect) {
    insect.base.speed = 0;
}

#[test]
fn an_egg_hatches_after_its_ticks() {
    let spot = p(20, 20);
    let mut map = world_around(spot);
    let mut egg = Egg::new(spot, Spider::new(spot), 2);
    assert_eq!(egg.base.faction, FACTION_SPIDER);
    ready(&mut egg);
    assert!(egg.update(&mut map).is_none());
    ready(&mut egg);
    match egg.update(&mut map) {
        Some(Event::Rebirth(young)) => assert_eq!(young.base.faction, FACTION_SPIDER),
        _ => panic!("the spider hatches"),
    }
    ready(&mut egg);
    assert!(egg.update(&mut map).is_none());
}

#[test]
fn an_egg_at_zero_hatches_at_once() {
    let spot = p(20, 20);
    let mut map = world_around(spot);
    let mut egg = Egg::new(spot, Spider::new(spot), 0);
    ready(&mut egg);
    assert!(matches!(egg.update(&mut map), Some(Event::Rebirth(_))));
    for _ in 0..3 {
        ready(&mut egg);
        assert!(egg.update(&mut map).is_none());
    }
}

#[test]
fn a_well_fed_queen_lays_a_worker() {
    let spot = p(20, 20);
    let mut map = world_around(spot);
    let mut queen = AntQueen::new(spot, 1);
    queen.base.id = 4;
    queen.base.hunger = 2 * ANT_FOOD_HUNGER + 2;
    ready(&mut queen);
    match queen.update(&mut map) {
        Some(Event::Birth(young)) => {
            assert_eq!(young.base.pos, spot);
            assert_eq!(young.base.faction, 1);
            match &young.spec {
                Behaviour::Ant(a) => assert_eq!(a.queen, 4),
                _ => panic!("a worker"),
            }
        },
        _ => panic!("a birth"),
    }
    // one lost to the tick itself, then one ration spent
    assert_eq!(queen.base.hunger, ANT_FOOD_HUNGER + 1);
    ready(&mut queen);
    assert!(queen.update(&mut map).is_none());
}

#[test]
fn a_well_fed_pillbug_splits() {
    let spot = p(30, 30);
    let mut map = world_around(spot);
    let mut bug = Pillbug::new(spot);
    bug.base.hunger = 600;
    ready(&mut bug);
    match bug.update(&mut map) {
        Some(Event::Birth(young)) => assert_eq!(young.base.pos, spot),
        other => panic!("a birth, not {}", other.is_some()),
    }
    assert_eq!(bug.base.hunger, 600 - 1 - 255);
}

#[test]
fn a_hungry_pillbug_eats() {
    let spot = p(30, 30);
    let mut map = world_around(spot);
    map.get_cell_mut(spot).unwrap().set_type(CellType::Food);
    let mut bug = Pillbug::new(spot);
    bug.base.hunger = 200;
    ready(&mut bug);
    assert!(bug.update(&mut map).is_none());
    assert_eq!(bug.base.hunger, 199 + 255);
    assert!(map.get_cell(spot).unwrap().is_type(CellType::Empty));
}

#[test]
fn a_centipede_grows_on_the_players_word() {
    let spot = p(40, 40);
    let mut map = world_around(spot);
    let mut c = InsectPlayer::new(Centipede::new(spot));
    c.base.id = 2;
    c.base.health = 3;
    c.base.hunger = 600;
    assert!(c.player_action(&mut map, Action::ActionA).is_none());
    assert_eq!(c.base.health, 4);
    assert_eq!(c.base.hunger, 600 - 256);
    match &c.spec {
        Behaviour::Player(pl) => match &*pl.sub_insect {
            Behaviour::Centipede(body) => assert_eq!(body.length(), 3),
            _ => panic!("a centipede"),
        },
        _ => panic!("the player's insect"),
    }
}

#[test]
fn a_long_centipede_lays_a_young_one() {
    let spot = p(40, 40);
    let mut map = world_around(spot);
    let mut c = Centipede::new(spot);
    c.base.id = 2;
    c.base.health = 8;
    c.base.hunger = 1000;
    match c.player_action(&mut map, Action::ActionA) {
        Some(Event::Birth(young)) => assert_eq!(young.base.pos, spot),
        _ => panic!("a young centipede"),
    }
    assert_eq!(c.base.hunger, 1000 - 256 - 512);
    match &c.spec {
        Behaviour::Centipede(body) => {
            assert_eq!(body.length(), 4);
            assert_eq!(body.segment(0), spot);
        },
        _ => panic!("a centipede"),
    }
}

#[test]
fn a_fed_spider_lays() {
    let spot = p(25, 25);
    let mut map = world_around(spot);
    let mut s = Spider::new(spot);
    s.base.hunger = 700;
    ready(&mut s);
    match s.update(&mut map) {
        Some(Event::Birth(young)) => assert_eq!(young.base.pos, spot),
        _ => panic!("a young spider"),
    }
    assert_eq!(s.base.hunger, 699 - 512);
}

#[test]
fn a_worker_lays_scent_and_moves() {
    let spot = p(50, 50);
    let mut map = world_around(spot);
    let mut ant = Ant::new(spot, 1, 9);
    ant.base.id = 3;
    map.occupy(spot, (1, 3)).unwrap();
    let before = ant.base.pos;
    ready(&mut ant);
    let _ = ant.update(&mut map);
    let grid: &ScentGrid = map.get_scent_grid(1);
    assert!(grid.get(before).unwrap().get_scent(Scents::Nest) > 0);
    let step = ant.base.pos.sub(before);
    assert!(step == dirs::none() || dirs::is_direction(step));
}
