use ant_io::draw::{name, scent_marks};
use ant_io::insect::ant::{ant_info, Ant, AntQueen, ScentCell, ScentGrid, Scents};
use ant_io::insect::centipede::{centipede_info, Centipede};
use ant_io::insect::pillbug::Pillbug;
use ant_io::insect::player::InsectPlayer;
use ant_io::insect::spider::{spider_info, Spider};
use ant_io::insect::{Action, BaseInsect, Behaviour, Event, Insect, Interact};
use ant_io::map::{
    Cell, CellType, OccupyError, Sight, WorldMap, FACTION_CENTIPEDE, FACTION_NONE, FACTION_PILLBUG,
    FACTION_SPIDER, MAP_SIZE,
};
use ant_io::pos::dirs;
use ant_io::pos::Pos;
use ant_io::tileset::{DataTileset, Sprite};

fn p(x: i16, y: i16) -> Pos {
    Pos::new(x, y)
}

/// Makes the cell at `pos` bare ground.
fn clear(map: &mut WorldMap, pos: Pos) {
    let c = map.get_cell_mut(pos).unwrap();
    c.take_type(CellType::Rock);
    c.take_type(CellType::Food);
}

#[test]
fn positions_add_and_subtract() {
    assert_eq!(p(3, 4).add(p(-1, 2)), p(2, 6));
    assert_eq!(p(3, 4).sub(p(-1, 2)), p(4, 2));
    let t: Pos = (7, -8).into();
    assert_eq!(t, p(7, -8));
}

#[test]
fn step_back_law() {
    let start = p(10, 20);
    for i in 0..8 {
        let d = dirs::all(i);
        assert_eq!(start.add(d).sub(d), start);
    }
}

#[test]
fn random_positions_stay_in_bounds() {
    for _ in 0..200 {
        let r = Pos::rand(p(5, 9));
        assert!(0 <= r.x && r.x < 5);
        assert!(0 <= r.y && r.y < 9);
    }
    assert_eq!(Pos::rand(p(0, 0)), p(0, 0));
}

#[test]
fn the_eight_directions_clockwise() {
    let expected = [p(-1, -1), p(0, -1), p(1, -1), p(1, 0), p(1, 1), p(0, 1), p(-1, 1), p(-1, 0)];
    for (i, e) in expected.iter().enumerate() {
        assert_eq!(dirs::all(i), *e);
        assert!(dirs::is_direction(*e));
    }
    assert_eq!(dirs::up_left(), p(-1, -1));
    assert_eq!(dirs::up(), p(0, -1));
    assert_eq!(dirs::up_right(), p(1, -1));
    assert_eq!(dirs::right(), p(1, 0));
    assert_eq!(dirs::down_right(), p(1, 1));
    assert_eq!(dirs::down(), p(0, 1));
    assert_eq!(dirs::down_left(), p(-1, 1));
    assert_eq!(dirs::left(), p(-1, 0));
    assert_eq!(dirs::none(), p(0, 0));
    assert!(!dirs::is_direction(dirs::none()));
    assert!(!dirs::is_direction(p(2, 0)));
}

#[test]
fn dir_for_picks_by_remainder() {
    assert_eq!(dirs::dir_for(0), p(-1, -1));
    assert_eq!(dirs::dir_for(11), p(1, 0));
    assert_eq!(dirs::dir_for(u32::MAX), p(-1, 0));
    for _ in 0..50 {
        assert!(dirs::is_direction(dirs::rand()));
    }
}

#[test]
fn rotations_undo_each_other_law() {
    for i in 0..8 {
        let d = dirs::all(i);
        assert_eq!(dirs::rotate_left(dirs::rotate_right(d)), d);
        assert_eq!(dirs::rotate_right(dirs::rotate_left(d)), d);
        assert_eq!(dirs::rotate_right(d), dirs::all((i + 1) % 8));
    }
}

#[test]
fn eight_rotations_law() {
    for i in 0..8 {
        let mut d = dirs::all(i);
        for _ in 0..8 {
            d = dirs::rotate_right(d);
        }
        assert_eq!(d, dirs::all(i));
    }
}

#[test]
fn invert_law() {
    for i in 0..8 {
        let d = dirs::all(i);
        assert_eq!(dirs::invert(d), p(-d.x, -d.y));
        assert_eq!(dirs::invert(dirs::invert(d)), d);
    }
    assert_eq!(dirs::invert(dirs::up()), dirs::down());
}

#[test]
fn cell_types_and_occupants() {
    let mut c = Cell::default();
    assert!(c.is_type(CellType::Empty));
    assert_eq!(c.occupied_faction(), FACTION_NONE);
    assert_eq!(c.occupied_id(), 0);
    c.set_type(CellType::Food);
    assert!(c.is_type(CellType::Food));
    assert_eq!(c.take_type(CellType::Food), Some(()));
    assert!(c.is_type(CellType::Empty));
    assert_eq!(c.take_type(CellType::Food), None);
    assert_eq!(CellType::default(), CellType::Empty);
}

#[test]
fn occupying_and_fighting() {
    let mut c = Cell::default();
    assert_eq!(c.try_occupy(3, 7), Ok(()));
    assert_eq!(c.occupied_faction(), 3);
    assert_eq!(c.occupied_id(), 7);
    // the same faction shares the cell, the first occupant stays
    assert_eq!(c.try_occupy(3, 8), Ok(()));
    assert_eq!(c.occupied_id(), 7);
    // another faction fights the occupant
    assert_eq!(c.try_occupy(4, 9), Err(OccupyError::Fight(7)));
    let mut rock = Cell::default();
    rock.set_type(CellType::Rock);
    assert_eq!(rock.try_occupy(1, 1), Err(OccupyError::Solid));
    assert_eq!(rock.occupied_faction(), FACTION_NONE);
}

#[test]
fn occupy_then_free_law() {
    let mut c = Cell::default();
    c.set_type(CellType::Food);
    assert_eq!(c.try_occupy(2, 5), Ok(()));
    assert_eq!(c.free(2, 5), Ok(()));
    assert!(c.is_type(CellType::Food));
    assert_eq!(c.occupied_faction(), FACTION_NONE);
    assert_eq!(c.occupied_id(), 0);
}

#[test]
fn only_the_holder_frees_law() {
    let mut c = Cell::default();
    c.try_occupy(2, 5).unwrap();
    assert_eq!(c.free(2, 6), Ok(()));
    assert_eq!(c.occupied_id(), 5);
    assert_eq!(c.free(1, 5), Ok(()));
    assert_eq!(c.occupied_faction(), 2);
}

#[test]
fn new_map_is_fresh() {
    let map = WorldMap::new();
    assert_eq!(map.size, p(MAP_SIZE, MAP_SIZE));
    assert_eq!(map.occupied.len(), MAP_SIZE as usize);
    assert_eq!(map.scent_grids.len(), 3);
    for row in &map.occupied {
        assert_eq!(row.len(), MAP_SIZE as usize);
        for c in row {
            assert_eq!(c.occupied_faction(), FACTION_NONE);
            assert!(c.is_type(CellType::Empty) || c.is_type(CellType::Rock) || c.is_type(CellType::Food));
        }
    }
    for g in 0..3 {
        let grid = map.get_scent_grid(g);
        for i in 0..MAP_SIZE {
            let cell = grid.get(p(i, i)).unwrap();
            assert_eq!(cell.get_scent(Scents::Food), 0);
            assert_eq!(cell.get_scent(Scents::Nest), 0);
            assert_eq!(cell.get_scent(Scents::Attack), 0);
        }
    }
}

#[test]
fn map_edges_and_sight() {
    let mut map = WorldMap::new();
    assert!(map.is_valid(p(0, 0)));
    assert!(!map.is_valid(p(-1, 0)));
    assert!(!map.is_valid(p(0, MAP_SIZE)));
    assert!(map.get_cell(p(MAP_SIZE, 0)).is_none());
    assert_eq!(map.sight(p(-1, -1)), Sight::new(CellType::Wall, FACTION_NONE));
    let spot = p(5, 5);
    clear(&mut map, spot);
    map.get_cell_mut(spot).unwrap().set_type(CellType::Food);
    assert_eq!(map.occupy(spot, (FACTION_SPIDER, 42)), Ok(()));
    assert_eq!(map.sight(spot), Sight::new(CellType::Food, FACTION_SPIDER));
    assert_eq!(map.occupy(spot, (FACTION_PILLBUG, 1)), Err(OccupyError::Fight(42)));
    assert_eq!(map.free(spot, (FACTION_SPIDER, 42)), Ok(()));
    assert_eq!(map.sight(spot).faction, FACTION_NONE);
    assert_eq!(map.occupy(p(-3, 2), (1, 1)), Err(OccupyError::Solid));
    assert_eq!(map.free(p(-3, 2), (1, 1)), Err(OccupyError::Solid));
    for _ in 0..100 {
        assert!(map.is_valid(map.rand_pos()));
    }
}

#[test]
fn map_update_only_fades_and_adds_food() {
    let mut map = WorldMap::new();
    let spot = p(9, 9);
    map.get_scent_grid_mut(1).get_mut(spot).unwrap().drop_scent(Scents::Food, 10);
    map.get_scent_grid_mut(1).get_mut(spot).unwrap().drop_scent(Scents::Nest, 10);
    let before: Vec<Vec<CellType>> = map
        .occupied
        .iter()
        .map(|row| row.iter().map(|c| if c.is_type(CellType::Food) { CellType::Food } else { CellType::Empty }).collect())
        .collect();
    map.update();
    let cell = map.get_scent_grid(1).get(spot).unwrap();
    assert_eq!(cell.get_scent(Scents::Food), 9);
    assert_eq!(cell.get_scent(Scents::Nest), 10);
    for (y, row) in map.occupied.iter().enumerate() {
        for (x, c) in row.iter().enumerate() {
            if before[y][x] == CellType::Food {
                assert!(c.is_type(CellType::Food));
            }
        }
    }
}

#[test]
fn dropping_food_bunches() {
    let mut map = WorldMap::new();
    for y in 0..MAP_SIZE {
        for x in 0..MAP_SIZE {
            clear(&mut map, p(x, y));
        }
    }
    map.drop_rand_bunch(CellType::Rock);
    assert_eq!(map.size, p(MAP_SIZE, MAP_SIZE));
    let rocks: Vec<Pos> = (0..MAP_SIZE)
        .flat_map(|y| (0..MAP_SIZE).map(move |x| p(x, y)))
        .filter(|q| map.get_cell(*q).unwrap().is_type(CellType::Rock))
        .collect();
    // a walk of 20 to 69 cells, some of them visited twice
    assert!(!rocks.is_empty());
    assert!(rocks.len() < 70);
    // every rock but a lone one has a rock next to it
    if rocks.len() > 1 {
        for r in &rocks {
            assert!((0..8).any(|d| rocks.contains(&r.add(dirs::all(d)))));
        }
    }
}

#[test]
fn scent_cells_drop_and_fade() {
    let mut c = ScentCell::new();
    assert_eq!(c.drop_scent(Scents::Food, 5), 4);
    assert_eq!(c.get_scent(Scents::Food), 5);
    // a weaker scent leaves the stronger one
    assert_eq!(c.drop_scent(Scents::Food, 2), 4);
    assert_eq!(c.get_scent(Scents::Food), 5);
    assert_eq!(c.drop_scent(Scents::Attack, 0), 0);
    c.drop_scent(Scents::Nest, 7);
    c.drop_scent(Scents::Attack, 1);
    c.update();
    assert_eq!(c.get_scent(Scents::Food), 4);
    assert_eq!(c.get_scent(Scents::Nest), 7);
    assert_eq!(c.get_scent(Scents::Attack), 0);
    c.update();
    assert_eq!(c.get_scent(Scents::Attack), 0);
}

#[test]
fn scent_fades_law() {
    let mut c = ScentCell::new();
    c.drop_scent(Scents::Food, 3);
    c.drop_scent(Scents::Nest, 200);
    for _ in 0..5 {
        let food = c.get_scent(Scents::Food);
        c.update();
        assert!(c.get_scent(Scents::Food) <= food);
        assert_eq!(c.get_scent(Scents::Nest), 200);
    }
    assert_eq!(c.get_scent(Scents::Food), 0);
}

#[test]
fn drop_strengthens_law() {
    let mut c = ScentCell::new();
    for v in [4u8, 1, 9, 0, 9, 3] {
        let before = c.get_scent(Scents::Attack);
        c.drop_scent(Scents::Attack, v);
        let after = c.get_scent(Scents::Attack);
        assert!(after >= before && after >= v);
    }
    assert_eq!(c.get_scent(Scents::Attack), 9);
}

#[test]
fn scent_grid_slots() {
    let mut g = ScentGrid::new(p(4, 3));
    assert!(g.get(p(-1, 0)).is_none());
    assert!(g.get(p(4, 0)).is_none());
    assert!(g.get(p(0, 3)).is_none());
    g.get_mut(p(1, 2)).unwrap().drop_scent(Scents::Nest, 8);
    assert_eq!(g.get(p(1, 2)).unwrap().get_scent(Scents::Nest), 8);
    assert_eq!(g.cell_at(1 + 2 * 4).get_scent(Scents::Nest), 8);
    g.get_mut(p(3, 0)).unwrap().drop_scent(Scents::Food, 2);
    g.update_cells();
    assert_eq!(g.get(p(3, 0)).unwrap().get_scent(Scents::Food), 1);
    assert_eq!(g.get(p(1, 2)).unwrap().get_scent(Scents::Nest), 8);
}

#[test]
fn smelling_reads_the_grid() {
    let mut g = ScentGrid::new(p(4, 4));
    g.get_mut(p(2, 2)).unwrap().drop_scent(Scents::Food, 6);
    assert_eq!(Ant::smell(&g, p(2, 2), Scents::Food), 6);
    assert_eq!(Ant::smell(&g, p(1, 2), Scents::Food), 0);
    assert_eq!(Ant::smell(&g, p(-1, 2), Scents::Food), 0);
}

#[test]
fn interactions_fight_and_feed() {
    let f = Interact::fight(1, 2, 3);
    assert_eq!(f, Interact { src: 1, dst: 2, amt: -3 });
    let g = Interact::feed(1, 2, 127);
    assert_eq!(g.amt, 127);
    // strengths beyond an i8 saturate: an attack stays an attack, food stays food
    let h = Interact::feed(1, 2, 200);
    assert_eq!(h.amt, 127);
    assert_eq!(Interact::fight(1, 2, 200).amt, -128);
    assert_eq!(Interact::fight(1, 2, 128).amt, -128);
    assert_eq!(Interact::fight(1, 2, 127).amt, -127);
    assert_eq!(Interact::feed(1, 2, 255).amt, 127);
    assert_eq!(Interact::fight(1, 2, 0).amt, 0);
}

#[test]
fn interaction_direction_law() {
    let mut bug = Spider::new(p(3, 3));
    let health = bug.base.health;
    let hunger = bug.base.hunger;
    bug.interact(Interact::fight(9, 0, 2));
    assert_eq!(bug.base.health, health.saturating_sub(2));
    assert_eq!(bug.base.hunger, hunger);
    bug.interact(Interact::feed(9, 0, 100));
    assert_eq!(bug.base.hunger, hunger + 100);
    bug.interact(Interact::fight(9, 0, 127));
    assert_eq!(bug.base.health, 0);
    bug.base.health = 200;
    bug.interact(Interact::fight(9, 0, 255));
    assert_eq!(bug.base.health, 72);
    bug.base.hunger = u16::MAX - 1;
    bug.interact(Interact::feed(9, 0, 100));
    assert_eq!(bug.base.hunger, u16::MAX);
}

#[test]
fn new_insects_are_fresh() {
    let base = BaseInsect::new(p(1, 2), 7, ant_info());
    assert_eq!(base.pos, p(1, 2));
    assert!(dirs::is_direction(base.dir));
    assert!(127 <= base.hunger && base.hunger < 255);
    assert_eq!(base.health, ant_info().max_health);
    assert_eq!(base.faction, 7);
    assert_eq!(base.id, 0);
    // workers have no waiting time
    assert_eq!(ant_info().max_speed, 0);
    assert_eq!(base.speed, 0);
    for _ in 0..20 {
        let b = BaseInsect::new(p(1, 2), 7, spider_info());
        assert!(b.speed < spider_info().max_speed);
    }

    let s = Spider::new(p(4, 4));
    assert_eq!(s.base.faction, FACTION_SPIDER);
    assert_eq!(s.base.info, spider_info());
    let c = Centipede::new(p(4, 4));
    assert_eq!(c.base.faction, FACTION_CENTIPEDE);
    assert_eq!(c.base.info, centipede_info());
    match &c.spec {
        Behaviour::Centipede(body) => assert_eq!(body.length(), 3),
        _ => panic!("a centipede"),
    }
    let pb = Pillbug::new(p(4, 4));
    assert_eq!(pb.base.faction, FACTION_PILLBUG);
    let q = AntQueen::new(p(4, 4), 2);
    assert_eq!(q.base.faction, 2);
    let a = Ant::new(p(4, 4), 2, 17);
    match &a.spec {
        Behaviour::Ant(ant) => {
            assert_eq!(ant.queen, 17);
            assert!(ant.food.is_none());
        },
        _ => panic!("an ant"),
    }
}

#[test]
fn will_move_counts_down_the_speed() {
    let mut base = BaseInsect::new(p(1, 1), 1, ant_info());
    base.speed = 2;
    assert!(!base.will_move());
    assert_eq!(base.speed, 1);
    assert!(!base.will_move());
    assert!(base.will_move());
    assert_eq!(base.speed, base.info.max_speed);
}

#[test]
fn reproducing_costs_food() {
    let mut base = BaseInsect::new(p(1, 1), 1, ant_info());
    base.hunger = 700;
    assert!(base.update_reproduce(512));
    assert_eq!(base.hunger, 188);
    assert!(!base.update_reproduce(512));
    assert_eq!(base.hunger, 188);
    base.hunger = 612;
    assert!(!base.update_reproduce(512));
}

#[test]
fn random_moves_go_to_a_neighbour() {
    let mut base = BaseInsect::new(p(10, 10), 1, ant_info());
    base.dir = dirs::up();
    assert_eq!(base.move_random_with(0), p(9, 9));
    assert_eq!(base.move_random_with(u32::MAX / 4), p(11, 9));
    assert_eq!(base.move_random_with(u32::MAX), p(10, 9));
    for _ in 0..50 {
        let t = base.move_random();
        assert!(dirs::is_direction(t.sub(base.pos)));
    }
}

#[test]
fn ticking_counts_down_and_dies_of_hunger() {
    let mut map = WorldMap::new();
    let spot = p(30, 30);
    clear(&mut map, spot);
    let mut bug = Pillbug::new(spot);
    bug.base.speed = 1;
    assert!(bug.update(&mut map).is_none());
    assert_eq!(bug.base.speed, 0);
    bug.base.hunger = 1;
    match bug.update(&mut map) {
        Some(Event::Death()) => {},
        _ => panic!("starved"),
    }
    assert_eq!(bug.base.hunger, 0);
    let mut hurt = Spider::new(spot);
    hurt.base.speed = 0;
    hurt.base.health = 0;
    assert!(matches!(hurt.update(&mut map), Some(Event::Death())));
}

#[test]
fn dying_leaves_food() {
    let mut map = WorldMap::new();
    let spot = p(40, 40);
    clear(&mut map, spot);
    let mut bug = Spider::new(spot);
    bug.base.id = 5;
    map.occupy(spot, (FACTION_SPIDER, 5)).unwrap();
    bug.die(&mut map);
    let cell = map.get_cell(spot).unwrap();
    assert!(cell.is_type(CellType::Food));
    assert_eq!(cell.occupied_faction(), FACTION_NONE);
}

#[test]
fn fits_and_answers() {
    let map = WorldMap::new();
    let c = Centipede::new(p(5, 5));
    assert!(c.fits_map(&map));
    assert!(c.can_answer(Action::ActionA));
    let off = Centipede::new(p(-5, 5));
    assert!(!off.fits_map(&map));
    let s = Spider::new(p(5, 5));
    assert!(s.can_answer(Action::ActionA));
    assert!(!s.can_answer(Action::ActionB));
    let pb = Pillbug::new(p(5, 5));
    assert!(!pb.can_answer(Action::ActionA));
    let player = InsectPlayer::new(Centipede::new(p(5, 5)));
    assert!(player.fits_map(&map));
    assert!(player.can_answer(Action::Move(dirs::up())));
    assert!(!player.can_answer(Action::Move(p(0, 0))));
}

#[test]
fn player_steps_and_acts() {
    let mut map = WorldMap::new();
    let spot = p(50, 50);
    for d in 0..8 {
        clear(&mut map, spot.add(dirs::all(d)));
    }
    clear(&mut map, spot);
    let mut player = InsectPlayer::new(Spider::new(spot));
    player.base.id = 3;
    map.occupy(spot, (FACTION_SPIDER, 3)).unwrap();
    let r = player.player_action(&mut map, Action::Move(dirs::right()));
    assert!(r.is_none());
    assert_eq!(player.base.pos, p(51, 50));
    assert_eq!(map.get_cell(p(51, 50)).unwrap().occupied_id(), 3);
    assert_eq!(map.get_cell(spot).unwrap().occupied_faction(), FACTION_NONE);
    player.base.hunger = 700;
    match player.player_action(&mut map, Action::ActionA) {
        Some(Event::Birth(young)) => assert_eq!(young.base.pos, p(51, 50)),
        _ => panic!("a young spider"),
    }
    assert_eq!(player.base.hunger, 188);
}

#[test]
fn names_of_factions() {
    assert_eq!(name(0), "UNKNOWN");
    assert_eq!(name(1), "BLUE ANTS");
    assert_eq!(name(2), "RED ANTS");
    assert_eq!(name(FACTION_PILLBUG), "PILLBUGS");
    assert_eq!(name(FACTION_SPIDER), "SPIDERS");
    assert_eq!(name(FACTION_CENTIPEDE), "CENTIPEDE");
}

#[test]
fn sprite_sheet_entries() {
    let sheet = DataTileset {
        path: "tiles.png".to_string(),
        sprites: vec![
            vec!["grass".to_string(), "".to_string(), "rock".to_string()],
            vec![],
            vec!["".to_string(), "grass".to_string()],
        ],
    };
    let entries = sheet.sprite_entries();
    let expected = vec![
        ("grass".to_string(), Sprite::new(0, 0)),
        ("rock".to_string(), Sprite::new(0, 2)),
        ("grass".to_string(), Sprite::new(2, 1)),
    ];
    assert_eq!(entries, expected);
    assert!(entries.iter().all(|(n, _)| !n.is_empty()));
    assert_eq!(Sprite::new(3, 4), Sprite { row: 3, col: 4 });
}

#[test]
fn random_draws_vary() {
    let xs: Vec<i16> = (0..200).map(|_| Pos::rand(p(100, 100)).x).collect();
    assert!(xs.iter().any(|x| *x != xs[0]));
    assert!(xs.iter().any(|x| *x != 0));
    let hungers: Vec<u16> = (0..200).map(|_| BaseInsect::new(p(1, 1), 1, spider_info()).hunger).collect();
    assert!(hungers.iter().any(|h| *h != 127));
    assert!(hungers.iter().any(|h| *h != hungers[0]));
    let dirs_seen: Vec<Pos> = (0..200).map(|_| dirs::rand()).collect();
    assert!(dirs_seen.iter().any(|d| *d != dirs_seen[0]));
}

#[test]
fn scent_marks_show_the_strongest_kind() {
    let mut map = WorldMap::new();
    assert!(scent_marks(&map, 2).is_empty());
    {
        let grid = map.get_scent_grid_mut(2);
        grid.get_mut(p(0, 0)).unwrap().drop_scent(Scents::Nest, 9);
        grid.get_mut(p(5, 1)).unwrap().drop_scent(Scents::Food, 4);
        grid.get_mut(p(5, 1)).unwrap().drop_scent(Scents::Nest, 200);
        grid.get_mut(p(MAP_SIZE - 1, 3)).unwrap().drop_scent(Scents::Attack, 7);
        grid.get_mut(p(MAP_SIZE - 1, 3)).unwrap().drop_scent(Scents::Food, 70);
    }
    let marks = scent_marks(&map, 2);
    // each cell is shown at its own place
    assert_eq!(
        marks,
        vec![
            (p(0, 0), Scents::Nest, 9),
            (p(5, 1), Scents::Food, 4),
            (p(MAP_SIZE - 1, 3), Scents::Attack, 7),
        ]
    );
    assert!(scent_marks(&map, 1).is_empty());
}

#[test]
fn a_move_can_target_any_cell() {
    let mut map = WorldMap::new();
    assert!(matches!(
        map.get_cell(p(0, 0)).unwrap().cell_type(),
        CellType::Empty | CellType::Rock | CellType::Food
    ));
    let start = p(10, 10);
    let far = p(13, 10);
    clear(&mut map, start);
    clear(&mut map, far);
    let mut bug = BaseInsect::new(start, 7, spider_info());
    bug.id = 5;
    assert!(map.occupy(start, (7, 5)).is_ok());
    assert!(bug.try_move(far, &mut map).is_none());
    assert_eq!(bug.pos, far);
    // it faces along the offset it moved by
    assert_eq!(bug.dir, p(3, 0));
    assert_eq!(map.get_cell(far).unwrap().occupied_id(), 5);
    assert_eq!(map.get_cell(start).unwrap().occupied_id(), 0);
}

#[test]
fn a_move_onto_its_own_cell_frees_it() {
    let mut map = WorldMap::new();
    let start = p(10, 10);
    clear(&mut map, start);
    let mut bug = BaseInsect::new(start, 7, spider_info());
    bug.id = 5;
    assert!(map.occupy(start, (7, 5)).is_ok());
    assert!(bug.try_move(start, &mut map).is_none());
    assert_eq!(bug.pos, start);
    assert_eq!(bug.dir, p(0, 0));
    assert_eq!(map.get_cell(start).unwrap().occupied_id(), 0);
}

#[test]
fn a_worker_follows_the_food_scent() {
    let ant = Ant::new(p(10, 10), 1, 3);
    let base = ant.base;
    let mut worker = match ant.spec {
        Behaviour::Ant(a) => a,
        _ => panic!("a worker"),
    };
    worker.timeout = 50;
    let mut grid = ScentGrid::new(p(32, 32));
    grid.get_mut(p(11, 9)).unwrap().drop_scent(Scents::Food, 9);
    grid.get_mut(p(9, 9)).unwrap().drop_scent(Scents::Food, 4);
    let blank = Sight { cell_type: CellType::Empty, faction: FACTION_NONE };
    let view = [
        (p(9, 11), blank),
        (p(9, 9), blank),
        (p(10, 9), blank),
        (p(11, 9), blank),
        (p(11, 11), blank),
    ];
    // a draw in the upper three quarters follows the strongest scent
    let mut seen = view;
    assert_eq!(worker.update_movement_with(&base, &mut seen, &grid, u32::MAX), Some(p(11, 9)));
    assert_eq!(worker.timeout, 49);
    assert_eq!(seen[3].1.faction, 9);
    assert_eq!(seen[1].1.faction, 4);
    // a draw in the lowest quarter wanders to a neighbouring cell
    let mut seen = view;
    let next = worker.update_movement_with(&base, &mut seen, &grid, 0).unwrap();
    assert!(dirs::is_direction(next.sub(base.pos)));
    assert_eq!(seen, view);
}

#[test]
fn a_new_world_holds_rock_and_food() {
    let map = WorldMap::new();
    let mut rock = 0;
    let mut food = 0;
    for y in 0..MAP_SIZE {
        for x in 0..MAP_SIZE {
            match map.get_cell(p(x, y)).unwrap().cell_type() {
                CellType::Rock => rock += 1,
                CellType::Food => food += 1,
                _ => {},
            }
        }
    }
    // ten walks of at least twenty cells each
    assert!(rock >= 1 && rock <= 10 * 69);
    assert!(food <= 10 * 69);
}

#[test]
fn a_world_tick_drops_food_only_on_a_zero_draw() {
    let mut map = WorldMap::new();
    let count = |m: &WorldMap| {
        let mut n = 0;
        for y in 0..MAP_SIZE {
            for x in 0..MAP_SIZE {
                if m.get_cell(p(x, y)).unwrap().cell_type() == CellType::Food {
                    n += 1;
                }
            }
        }
        n
    };
    let before = count(&map);
    map.update_with(3);
    assert_eq!(count(&map), before);
    map.update_with(0);
    assert!(count(&map) >= before);
}

#[test]
fn a_bunch_follows_its_walk() {
    let mut map = WorldMap::new();
    // clear a corner, then walk right, right, down and into the edge
    for y in 0..4 {
        for x in 0..4 {
            clear(&mut map, p(x, y));
        }
    }
    let steps = vec![p(1, 0), p(1, 0), p(0, 1), p(0, -1), p(0, -1), p(-1, -1), p(1, 1)];
    map.drop_bunch_along(CellType::Rock, p(0, 0), &steps);
    // cells: (0,0) (1,0) (2,0) (2,1) (2,0) (2,0): the step up from row 0 leaves the map
    //        then (-1,-1) also leaves it, so the walk stays at (2,0)
    for q in [p(0, 0), p(1, 0), p(2, 0), p(2, 1)] {
        assert_eq!(map.get_cell(q).unwrap().cell_type(), CellType::Rock);
    }
    for q in [p(3, 0), p(0, 1), p(1, 1), p(3, 1), p(3, 3)] {
        assert_eq!(map.get_cell(q).unwrap().cell_type(), CellType::Empty);
    }
}

#[test]
fn waiting_insects_move_once_per_period() {
    let mut bug = BaseInsect::new(p(1, 2), 7, spider_info());
    let m = spider_info().max_speed as usize;
    bug.speed = 1;
    let moves: Vec<bool> = (0..12).map(|_| bug.will_move()).collect();
    for (i, moved) in moves.iter().enumerate() {
        assert_eq!(*moved, i == 1 || (i > 1 && (i - 1) % (m + 1) == 0));
    }
}
