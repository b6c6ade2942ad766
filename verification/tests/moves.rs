use tile_world::entities::{
    get_effective_tile, get_effective_tile_custom, Entities, Entity, NO_MOBS,
};
use tile_world::map::{GameMap, Label, MapData};
use tile_world::movement::{
    allowed_to, move_entity, move_entity_custom, perform, plan, plan_custom, xy_in_dir,
    xy_in_dir_on, Allowed, Dir, Plan, Planned, PASS_THROUGH,
};
use tile_world::tile::{
    TileKind, BUTTON_DARK, BUTTON_LIT, FLOOR, KEY, LARGE_POT, PERSON_0, PERSON_5, TURTLE, WALL_0,
};
use tile_world::xy::{h, w, x, y, X, Y};

fn cell(column: u8, row: u8) -> (X, Y) {
    (x(column), y(row))
}

/// A map of bare floor, twelve by twelve, with the four buttons in the row before the last.
fn floor_data() -> MapData {
    let mut tiles = vec![FLOOR; 12 * 12];
    for column in 1..5 {
        tiles[10 * 12 + column] = BUTTON_LIT;
    }
    MapData {
        width: w(12),
        height: h(12),
        tiles,
        player_x: x(5),
        player_y: y(5),
        turtle_x: x(1),
        turtle_y: y(1),
        crab_x: x(3),
        crab_y: y(1),
        ghost_x: x(5),
        ghost_y: y(1),
        panoptikhan_x: x(7),
        panoptikhan_y: y(1),
        large_pot_x: x(9),
        large_pot_y: y(9),
        zombie_x: x(9),
        zombie_y: y(1),
        dogs: [cell(0, 0); 22],
        buttons: [
            (x(1), y(10), Label::North),
            (x(2), y(10), Label::East),
            (x(3), y(10), Label::South),
            (x(4), y(10), Label::West),
        ],
        key_x: x(6),
        key_y: y(10),
        locked_door_x: x(7),
        locked_door_y: y(10),
        special_grave_x: x(10),
        special_grave_y: y(5),
    }
}

fn set_tile(data: &mut MapData, column: usize, row: usize, kind: TileKind) {
    let width = data.width.usize();
    data.tiles[row * width + column] = kind;
}

fn map_of(data: MapData) -> GameMap {
    GameMap::new(data).expect("the map is sound")
}

/// A roster that stands out of the way, in the corner (11, 0), with the player at `at`.
fn roster(at: (X, Y)) -> Entities {
    let mut entities = Entities::default();
    let aside = cell(11, 0);
    entities.player = Entity { kind: PERSON_5, x: at.0, y: at.1 };
    for mob in [
        &mut entities.turtle,
        &mut entities.crab,
        &mut entities.phantom,
        &mut entities.large_pot,
        &mut entities.panoptikhan,
        &mut entities.zombie,
    ] {
        mob.x = aside.0;
        mob.y = aside.1;
    }
    entities.turtle.kind = TURTLE;
    entities.large_pot.kind = LARGE_POT;
    for dog in entities.dogs.iter_mut() {
        dog.x = aside.0;
        dog.y = aside.1;
    }
    entities
}

fn plans_of(planned: &Planned) -> Vec<Plan> {
    (0..planned.len()).map(|i| planned.get(i).unwrap()).collect()
}

fn same_plan(plan: &Plan, from: (X, Y), to: (X, Y)) -> bool {
    let expected = Plan::new(from.0, from.1, to.0, to.1);
    format!("{:?}", plan) == format!("{:?}", expected)
}

#[test]
fn steps_lead_one_cell_on() {
    assert_eq!(xy_in_dir(Dir::Up, x(5), y(5)), cell(5, 4));
    assert_eq!(xy_in_dir(Dir::Down, x(5), y(5)), cell(5, 6));
    assert_eq!(xy_in_dir(Dir::Left, x(5), y(5)), cell(4, 5));
    assert_eq!(xy_in_dir(Dir::Right, x(5), y(5)), cell(6, 5));
    assert_eq!(xy_in_dir(Dir::Up, x(5), y(0)), cell(5, 0));
    assert_eq!(xy_in_dir(Dir::Left, x(0), y(5)), cell(0, 5));
    assert_eq!(xy_in_dir(Dir::Right, x(240), y(5)), cell(240, 5));
    assert_eq!(xy_in_dir(Dir::Down, x(5), y(240)), cell(5, 240));
    assert_eq!(!Dir::Up, Dir::Down);
    assert_eq!(!Dir::Down, Dir::Up);
    assert_eq!(!Dir::Left, Dir::Right);
    assert_eq!(!Dir::Right, Dir::Left);
}

#[test]
fn a_step_on_open_floor_moves_one_cell() {
    let map = map_of(floor_data());
    for (dir, to) in [
        (Dir::Up, cell(5, 4)),
        (Dir::Down, cell(5, 6)),
        (Dir::Left, cell(4, 5)),
        (Dir::Right, cell(6, 5)),
    ] {
        let mut entities = roster(cell(5, 5));
        let planned = plan(x(5), y(5), &map, &entities, dir);
        assert_eq!(planned.len(), 1);
        assert!(same_plan(&planned.get(0).unwrap(), cell(5, 5), to));
        perform(&mut entities, &map, planned);
        assert_eq!((entities.player.x, entities.player.y), to);
        assert_eq!((entities.turtle.x, entities.turtle.y), cell(11, 0));
        assert!(entities.dynamic.is_empty());
    }
}

#[test]
fn a_blocked_step_moves_nothing() {
    let mut data = floor_data();
    set_tile(&mut data, 6, 5, WALL_0);
    set_tile(&mut data, 5, 4, PERSON_0);
    let map = map_of(data);
    let mut entities = roster(cell(5, 5));
    assert_eq!(allowed_to(&map, &entities, x(6), y(5), 0), Allowed::Not);
    assert_eq!(allowed_to(&map, &entities, x(5), y(4), 0), Allowed::Not);
    assert_eq!(allowed_to(&map, &entities, x(4), y(5), 0), Allowed::Move);
    assert_eq!(plan(x(5), y(5), &map, &entities, Dir::Right).len(), 0);
    move_entity(x(5), y(5), &mut entities, &map, Dir::Right);
    assert_eq!((entities.player.x, entities.player.y), cell(5, 5));
    move_entity(x(5), y(5), &mut entities, &map, Dir::Up);
    assert_eq!((entities.player.x, entities.player.y), cell(5, 5));
}

#[test]
fn a_step_at_the_near_edge_plans_nothing() {
    let map = map_of(floor_data());
    let entities = roster(cell(0, 5));
    assert_eq!(plan(x(0), y(5), &map, &entities, Dir::Left).len(), 0);
    assert_eq!(plan(x(5), y(0), &map, &entities, Dir::Up).len(), 0);
    assert_eq!(plan_custom(x(0), y(5), &map, &entities, Dir::Left, PASS_THROUGH).len(), 0);
}

#[test]
fn a_step_across_the_edge_of_the_map_plans_nothing() {
    let map = map_of(floor_data());
    let mut entities = roster(cell(11, 11));
    // No tile lies beyond the last row, so the cell there would be free to step on.
    assert_eq!(allowed_to(&map, &entities, x(11), y(12), 0), Allowed::Move);
    assert_eq!(xy_in_dir_on(&map, Dir::Right, x(11), y(11)), cell(11, 11));
    assert_eq!(xy_in_dir_on(&map, Dir::Down, x(11), y(11)), cell(11, 11));
    assert_eq!(xy_in_dir_on(&map, Dir::Left, x(11), y(11)), cell(10, 11));
    assert_eq!(xy_in_dir_on(&map, Dir::Up, x(0), y(0)), cell(0, 0));
    assert_eq!(plan(x(11), y(11), &map, &entities, Dir::Right).len(), 0);
    assert_eq!(plan(x(11), y(11), &map, &entities, Dir::Down).len(), 0);
    assert_eq!(plan(x(11), y(5), &map, &entities, Dir::Right).len(), 0);
    assert_eq!(plan(x(5), y(11), &map, &entities, Dir::Down).len(), 0);
    assert_eq!(plan_custom(x(11), y(5), &map, &entities, Dir::Right, PASS_THROUGH).len(), 0);
    assert_eq!(plan_custom(x(5), y(11), &map, &entities, Dir::Down, PASS_THROUGH).len(), 0);
    assert_eq!(plan(x(11), y(11), &map, &entities, Dir::Left).len(), 1);
    move_entity(x(11), y(11), &mut entities, &map, Dir::Down);
    assert_eq!((entities.player.x, entities.player.y), cell(11, 11));
    // One that stands beyond the map steps back onto it.
    entities.player.x = x(20);
    entities.player.y = y(5);
    assert_eq!(xy_in_dir_on(&map, Dir::Right, x(20), y(5)), cell(11, 5));
    move_entity(x(20), y(5), &mut entities, &map, Dir::Right);
    assert_eq!((entities.player.x, entities.player.y), cell(11, 5));
}

#[test]
fn a_pot_at_the_edge_of_the_map_is_not_pushed() {
    let map = map_of(floor_data());
    let mut entities = roster(cell(10, 5));
    entities.large_pot.x = x(11);
    entities.large_pot.y = y(5);
    assert_eq!(plan(x(10), y(5), &map, &entities, Dir::Right).len(), 0);
    move_entity(x(10), y(5), &mut entities, &map, Dir::Right);
    assert_eq!((entities.player.x, entities.player.y), cell(10, 5));
    assert_eq!((entities.large_pot.x, entities.large_pot.y), cell(11, 5));
}

#[test]
fn pushing_a_pot_with_room_behind_moves_both() {
    let map = map_of(floor_data());
    for (dir, pot, beyond) in [
        (Dir::Up, cell(5, 4), cell(5, 3)),
        (Dir::Down, cell(5, 6), cell(5, 7)),
        (Dir::Left, cell(4, 5), cell(3, 5)),
        (Dir::Right, cell(6, 5), cell(7, 5)),
    ] {
        let mut entities = roster(cell(5, 5));
        entities.large_pot.x = pot.0;
        entities.large_pot.y = pot.1;
        assert_eq!(allowed_to(&map, &entities, pot.0, pot.1, 0), Allowed::Push);
        let planned = plan(x(5), y(5), &map, &entities, dir);
        let plans = plans_of(&planned);
        assert_eq!(plans.len(), 2);
        // The far end of the chain moves first.
        assert!(same_plan(&plans[0], pot, beyond));
        assert!(same_plan(&plans[1], cell(5, 5), pot));
        perform(&mut entities, &map, planned);
        assert_eq!((entities.player.x, entities.player.y), pot);
        assert_eq!((entities.large_pot.x, entities.large_pot.y), beyond);
    }
}

#[test]
fn pushing_a_pot_against_a_wall_moves_neither() {
    let mut data = floor_data();
    set_tile(&mut data, 7, 5, WALL_0);
    let map = map_of(data);
    let mut entities = roster(cell(5, 5));
    entities.large_pot.x = x(6);
    entities.large_pot.y = y(5);
    assert_eq!(plan(x(5), y(5), &map, &entities, Dir::Right).len(), 0);
    move_entity(x(5), y(5), &mut entities, &map, Dir::Right);
    assert_eq!((entities.player.x, entities.player.y), cell(5, 5));
    assert_eq!((entities.large_pot.x, entities.large_pot.y), cell(6, 5));
}

#[test]
fn pushing_a_pot_against_a_stuck_pot_moves_neither() {
    let mut data = floor_data();
    // A pot drawn on the map, with a wall behind it.
    set_tile(&mut data, 7, 5, LARGE_POT);
    set_tile(&mut data, 8, 5, WALL_0);
    let map = map_of(data);
    let mut entities = roster(cell(5, 5));
    entities.large_pot.x = x(6);
    entities.large_pot.y = y(5);
    assert_eq!(plan(x(5), y(5), &map, &entities, Dir::Right).len(), 0);
    move_entity(x(5), y(5), &mut entities, &map, Dir::Right);
    assert_eq!((entities.player.x, entities.player.y), cell(5, 5));
    assert_eq!((entities.large_pot.x, entities.large_pot.y), cell(6, 5));
}

#[test]
fn a_chain_of_pots_with_room_behind_moves_as_a_whole() {
    let map = map_of(floor_data());
    let mut entities = roster(cell(5, 5));
    entities.large_pot.x = x(6);
    entities.large_pot.y = y(5);
    entities.dynamic.insert(5 * 12 + 7, Entity { kind: LARGE_POT, x: x(7), y: y(5) });
    let planned = plan(x(5), y(5), &map, &entities, Dir::Right);
    let plans = plans_of(&planned);
    assert_eq!(plans.len(), 3);
    assert!(same_plan(&plans[0], cell(7, 5), cell(8, 5)));
    assert!(same_plan(&plans[1], cell(6, 5), cell(7, 5)));
    assert!(same_plan(&plans[2], cell(5, 5), cell(6, 5)));
    perform(&mut entities, &map, planned);
    assert_eq!((entities.player.x, entities.player.y), cell(6, 5));
    assert_eq!((entities.large_pot.x, entities.large_pot.y), cell(7, 5));
    // The overlay's pot has moved, and keeps its index.
    let moved = entities.dynamic.get(&(5 * 12 + 7)).unwrap();
    assert_eq!((moved.x, moved.y), cell(8, 5));
}

#[test]
fn a_plan_holds_no_more_than_fifteen_moves() {
    let mut data = floor_data();
    data.width = w(40);
    data.height = h(4);
    data.tiles = vec![FLOOR; 160];
    data.player_x = x(1);
    data.player_y = y(1);
    data.large_pot_x = x(2);
    data.large_pot_y = y(2);
    data.buttons = [
        (x(0), y(3), Label::North),
        (x(1), y(3), Label::East),
        (x(2), y(3), Label::South),
        (x(3), y(3), Label::West),
    ];
    data.key_x = x(0);
    data.key_y = y(0);
    data.locked_door_x = x(0);
    data.locked_door_y = y(0);
    data.special_grave_x = x(0);
    data.special_grave_y = y(0);
    // Twenty pots in a row, drawn on the map, in front of the player.
    for column in 2..22 {
        data.tiles[40 + column] = LARGE_POT;
    }
    let map = map_of(data);
    let mut entities = roster(cell(1, 1));
    let planned = plan(x(1), y(1), &map, &entities, Dir::Right);
    let plans = plans_of(&planned);
    assert_eq!(plans.len(), 15);
    assert!(same_plan(&plans[0], cell(21, 1), cell(22, 1)));
    assert!(same_plan(&plans[14], cell(7, 1), cell(8, 1)));
    // The player's own move found no room in the plan, and nothing stands in the cells planned
    // for, so nothing moves.
    perform(&mut entities, &map, planned);
    assert_eq!((entities.player.x, entities.player.y), cell(1, 1));
}

#[test]
fn a_move_whose_mover_is_gone_is_passed_over() {
    let map = map_of(floor_data());
    let mut entities = roster(cell(5, 5));
    let planned = plan(x(5), y(5), &map, &entities, Dir::Right);
    entities.player.x = x(2);
    perform(&mut entities, &map, planned);
    assert_eq!((entities.player.x, entities.player.y), cell(2, 5));
    assert!(entities.dynamic.is_empty());
}

#[test]
fn passing_through_ignores_what_is_in_the_way() {
    let mut data = floor_data();
    set_tile(&mut data, 6, 5, WALL_0);
    let map = map_of(data);
    let mut entities = roster(cell(5, 5));
    assert_eq!(allowed_to(&map, &entities, x(6), y(5), PASS_THROUGH), Allowed::Move);
    move_entity_custom(x(5), y(5), &mut entities, &map, Dir::Right, PASS_THROUGH);
    assert_eq!((entities.player.x, entities.player.y), cell(6, 5));
}

#[test]
fn whoever_stands_on_a_cell_hides_the_overlay_until_looked_through() {
    let map = map_of(floor_data());
    let mut entities = roster(cell(5, 5));
    entities.turtle.x = x(1);
    entities.turtle.y = y(10);
    entities.dynamic.insert(10 * 12 + 1, Entity { kind: BUTTON_DARK, x: x(1), y: y(10) });
    assert_eq!(get_effective_tile(&map, &entities, x(1), y(10)), Some(TURTLE));
    assert_eq!(get_effective_tile_custom(&map, &entities, x(1), y(10), 0), Some(TURTLE));
    assert_eq!(get_effective_tile_custom(&map, &entities, x(1), y(10), NO_MOBS), Some(BUTTON_DARK));
    // Without an overlay entry the map's tile shows through.
    entities.dynamic.clear();
    assert_eq!(get_effective_tile_custom(&map, &entities, x(1), y(10), NO_MOBS), Some(BUTTON_LIT));
    // Of two on one cell, the one earlier in the roster shows.
    entities.player.x = x(1);
    entities.player.y = y(10);
    assert_eq!(get_effective_tile(&map, &entities, x(1), y(10)), Some(PERSON_5));
}

#[test]
fn the_overlay_hides_the_map_and_beyond_the_map_is_nothing() {
    let map = map_of(floor_data());
    let mut entities = roster(cell(5, 5));
    assert_eq!(get_effective_tile(&map, &entities, x(3), y(3)), Some(FLOOR));
    entities.put(&map, Entity { kind: KEY, x: x(3), y: y(3) });
    assert_eq!(get_effective_tile(&map, &entities, x(3), y(3)), Some(KEY));
    let taken = entities.take(&map, x(3), y(3));
    assert_eq!(taken.map(|e| e.kind), Some(KEY));
    assert_eq!(get_effective_tile(&map, &entities, x(3), y(3)), Some(FLOOR));
    assert!(entities.take(&map, x(3), y(3)).is_none());
    assert_eq!(get_effective_tile(&map, &entities, x(0), y(12)), None);
    assert_eq!(get_effective_tile(&map, &entities, x(240), y(240)), None);
}

#[test]
fn the_roster_is_found_by_slot() {
    let entities = roster(cell(5, 5));
    assert_eq!(entities.find_mob(x(5), y(5)), Some(0));
    assert_eq!(entities.find_mob(x(11), y(0)), Some(1));
    assert_eq!(entities.find_mob(x(4), y(4)), None);
    assert_eq!(entities.mob(4).kind, LARGE_POT);
    assert!(entities.get_dog(21).is_some());
    assert!(entities.get_dog(22).is_none());
}
