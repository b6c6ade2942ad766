use tile_world::entities::{Entities, Entity};
use tile_world::map::{GameMap, Label, MapData};
use tile_world::movement::{Dir, Plan, Planned};
use tile_world::path::{
    first_step, manhattan, move_entity_on_path_towards, open_neighbors, plan_along,
    plan_entity_on_path_towards, same_cell,
};
use tile_world::tile::{TileKind, BUTTON_LIT, FLOOR, PERSON_0, PERSON_5, WALL_0};
use tile_world::xy::{h, w, x, y, X, Y};

fn cell(column: u8, row: u8) -> (X, Y) {
    (x(column), y(row))
}

/// A map of bare floor, twelve by twelve, with the four buttons in the row before the last.
fn floor_data() -> MapData {
    let mut tiles = vec![FLOOR; 12 * 12];
    for column in 1..5 {
        tiles[10 * 12 + column] = BUTTON_LIT;
    }
    MapData {
        width: w(12),
        height: h(12),
        tiles,
        player_x: x(5),
        player_y: y(5),
        turtle_x: x(1),
        turtle_y: y(1),
        crab_x: x(3),
        crab_y: y(1),
        ghost_x: x(5),
        ghost_y: y(1),
        panoptikhan_x: x(7),
        panoptikhan_y: y(1),
        large_pot_x: x(9),
        large_pot_y: y(9),
        zombie_x: x(9),
        zombie_y: y(1),
        dogs: [cell(0, 0); 22],
        buttons: [
            (x(1), y(10), Label::North),
            (x(2), y(10), Label::East),
            (x(3), y(10), Label::South),
            (x(4), y(10), Label::West),
        ],
        key_x: x(6),
        key_y: y(10),
        locked_door_x: x(7),
        locked_door_y: y(10),
        special_grave_x: x(10),
        special_grave_y: y(5),
    }
}

fn set_tile(data: &mut MapData, column: usize, row: usize, kind: TileKind) {
    let width = data.width.usize();
    data.tiles[row * width + column] = kind;
}

fn map_of(data: MapData) -> GameMap {
    GameMap::new(data).expect("the map is sound")
}

/// A roster that stands out of the way, in the corner (11, 0), with the player at `at`.
fn roster(at: (X, Y)) -> Entities {
    let mut entities = Entities::default();
    let aside = cell(11, 0);
    entities.player = Entity { kind: PERSON_5, x: at.0, y: at.1 };
    for mob in [
        &mut entities.turtle,
        &mut entities.crab,
        &mut entities.phantom,
        &mut entities.large_pot,
        &mut entities.panoptikhan,
        &mut entities.zombie,
    ] {
        mob.x = aside.0;
        mob.y = aside.1;
    }
    for dog in entities.dogs.iter_mut() {
        dog.x = aside.0;
        dog.y = aside.1;
    }
    entities
}

fn only_move(planned: &Planned) -> String {
    assert_eq!(planned.len(), 1);
    format!("{:?}", planned.get(0).unwrap())
}

fn move_of(from: (X, Y), to: (X, Y)) -> String {
    format!("{:?}", Plan::new(from.0, from.1, to.0, to.1))
}

fn steps_between(a: (X, Y), b: (X, Y)) -> usize {
    manhattan(a.0, a.1, b.0, b.1)
}

#[test]
fn the_distance_counts_steps_along_rows_and_columns() {
    assert_eq!(manhattan(x(2), y(3), x(8), y(1)), 8);
    assert_eq!(manhattan(x(8), y(1), x(2), y(3)), 8);
    assert_eq!(manhattan(x(4), y(4), x(4), y(4)), 0);
    assert_eq!(manhattan(x(0), y(0), x(240), y(240)), 480);
    assert!(same_cell(x(4), y(4), x(4), y(4)));
    assert!(!same_cell(x(4), y(4), x(4), y(5)));
}

#[test]
fn the_ways_on_are_left_right_up_down_where_free() {
    let mut data = floor_data();
    set_tile(&mut data, 6, 5, WALL_0);
    let map = map_of(data);
    let entities = roster(cell(5, 5));
    let ways = open_neighbors(&map, &entities, x(5), y(5));
    assert_eq!(ways, vec![(cell(4, 5), 1), (cell(5, 4), 1), (cell(5, 6), 1)]);
    // At the edge of the range a cell is beside itself; the player stands there.
    let ways = open_neighbors(&map, &entities, x(0), y(0));
    assert_eq!(ways, vec![(cell(0, 0), 1), (cell(1, 0), 1), (cell(0, 0), 1), (cell(0, 1), 1)]);
    // A cell that one of the roster stands on may not be entered.
    let ways = open_neighbors(&map, &entities, x(5), y(4));
    assert_eq!(ways, vec![(cell(4, 4), 1), (cell(6, 4), 1), (cell(5, 3), 1)]);
}

#[test]
fn the_first_step_is_read_from_the_first_two_cells() {
    assert_eq!(first_step(&vec![cell(5, 5), cell(5, 6)]), Some(Dir::Down));
    assert_eq!(first_step(&vec![cell(5, 5), cell(5, 4), cell(5, 3)]), Some(Dir::Up));
    assert_eq!(first_step(&vec![cell(5, 5), cell(6, 5)]), Some(Dir::Right));
    assert_eq!(first_step(&vec![cell(5, 5), cell(4, 5)]), Some(Dir::Left));
    assert_eq!(first_step(&vec![cell(5, 5), cell(6, 6)]), None);
    assert_eq!(first_step(&vec![cell(5, 5), cell(5, 5)]), None);
    assert_eq!(first_step(&vec![cell(5, 5)]), None);
    assert_eq!(first_step(&vec![]), None);
}

#[test]
fn a_step_along_a_given_route_follows_the_usual_rules() {
    let mut data = floor_data();
    set_tile(&mut data, 5, 6, WALL_0);
    let map = map_of(data);
    let entities = roster(cell(5, 5));
    let right = Some(vec![cell(5, 5), cell(6, 5)]);
    let planned = plan_along(&right, x(5), y(5), &entities, &map);
    assert_eq!(only_move(&planned), move_of(cell(5, 5), cell(6, 5)));
    let into_wall = Some(vec![cell(5, 5), cell(5, 6)]);
    assert_eq!(plan_along(&into_wall, x(5), y(5), &entities, &map).len(), 0);
    assert_eq!(plan_along(&None, x(5), y(5), &entities, &map).len(), 0);
    assert_eq!(plan_along(&Some(vec![cell(5, 5)]), x(5), y(5), &entities, &map).len(), 0);
}

#[test]
fn on_open_floor_the_step_comes_closer() {
    let map = map_of(floor_data());
    for (start, target) in [
        (cell(2, 2), cell(8, 6)),
        (cell(8, 6), cell(2, 2)),
        (cell(5, 5), cell(5, 9)),
        (cell(5, 5), cell(1, 5)),
        (cell(3, 7), cell(4, 7)),
    ] {
        let entities = roster(start);
        let planned = plan_entity_on_path_towards(start.0, start.1, &entities, &map, target.0, target.1);
        assert_eq!(planned.len(), 1);
        let text = only_move(&planned);
        let closer: Vec<(X, Y)> = [cell(1, 0), cell(0, 1)]
            .iter()
            .flat_map(|_| {
                let (sx, sy) = (start.0.get(), start.1.get());
                vec![cell(sx + 1, sy), cell(sx - 1, sy), cell(sx, sy + 1), cell(sx, sy - 1)]
            })
            .filter(|&to| steps_between(to, target) + 1 == steps_between(start, target))
            .collect();
        assert!(closer.iter().any(|&to| move_of(start, to) == text));
    }
}

#[test]
fn a_target_that_is_walled_in_is_not_walked_to() {
    let mut data = floor_data();
    for (column, row) in [(7, 6), (9, 6), (8, 5), (8, 7)] {
        set_tile(&mut data, column, row, WALL_0);
    }
    let map = map_of(data);
    let entities = roster(cell(2, 2));
    let planned = plan_entity_on_path_towards(x(2), y(2), &entities, &map, x(8), y(6));
    assert_eq!(planned.len(), 0);
}

#[test]
fn a_target_that_may_not_be_entered_is_not_walked_to() {
    let mut data = floor_data();
    set_tile(&mut data, 8, 6, PERSON_0);
    let map = map_of(data);
    let entities = roster(cell(2, 2));
    let planned = plan_entity_on_path_towards(x(2), y(2), &entities, &map, x(8), y(6));
    assert_eq!(planned.len(), 0);
}

#[test]
fn a_walker_at_its_target_plans_nothing() {
    let map = map_of(floor_data());
    let entities = roster(cell(2, 2));
    let planned = plan_entity_on_path_towards(x(2), y(2), &entities, &map, x(2), y(2));
    assert_eq!(planned.len(), 0);
}

#[test]
fn the_walk_leads_round_a_wall() {
    let mut data = floor_data();
    // A wall across the map in row 4, with a gap in column 10.
    for column in 0..12 {
        if column != 10 {
            set_tile(&mut data, column, 4, WALL_0);
        }
    }
    let map = map_of(data);
    let mut entities = roster(cell(2, 6));
    // Walk to (2, 2), step by step.
    let mut steps = 0;
    while (entities.player.x, entities.player.y) != cell(2, 2) {
        let planned = plan_entity_on_path_towards(
            entities.player.x,
            entities.player.y,
            &entities,
            &map,
            x(2),
            y(2),
        );
        assert_eq!(planned.len(), 1);
        tile_world::movement::perform(&mut entities, &map, planned);
        steps += 1;
        assert!(steps <= 20);
        assert!(entities.player.y != y(4) || entities.player.x == x(10));
    }
    // Eight columns to the gap, four rows up, eight columns back.
    assert_eq!(steps, 20);
}

#[test]
fn a_walker_is_moved_one_step_along_its_walk() {
    let map = map_of(floor_data());
    let mut entities = roster(cell(5, 5));
    move_entity_on_path_towards(x(5), y(5), &mut entities, &map, x(5), y(8));
    assert_eq!((entities.player.x, entities.player.y), cell(5, 6));
    move_entity_on_path_towards(x(5), y(6), &mut entities, &map, x(5), y(6));
    assert_eq!((entities.player.x, entities.player.y), cell(5, 6));
}

#[test]
fn a_walker_surrounded_by_free_cells_plans_the_one_step_closer() {
    let map = map_of(floor_data());
    // The walker stands on its own start, which nothing else may enter.
    let entities = roster(cell(3, 3));
    let planned = plan_entity_on_path_towards(x(3), y(3), &entities, &map, x(3), y(7));
    assert_eq!(only_move(&planned), move_of(cell(3, 3), cell(3, 4)));
    let planned = plan_entity_on_path_towards(x(3), y(3), &entities, &map, x(0), y(3));
    assert_eq!(only_move(&planned), move_of(cell(3, 3), cell(2, 3)));
}
