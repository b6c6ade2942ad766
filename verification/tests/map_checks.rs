use tile_world::map::{
    i_to_xy, is_away_from, is_xy_landmark, random_landmark, xy_to_i, GameMap, Label, MapData,
};
use tile_world::rng::Xs;
use tile_world::tile::{TileKind, BUTTON_LIT, FLOOR, LARGE_POT, PERSON_0, WALL_0};
use tile_world::xy::{h, w, x, y, X, Y};

fn cell(column: u8, row: u8) -> (X, Y) {
    (x(column), y(row))
}

/// A map of bare floor, twelve by twelve, with the four buttons in the row before the last.
fn floor_data() -> MapData {
    let mut tiles = vec![FLOOR; 12 * 12];
    for column in 1..5 {
        tiles[10 * 12 + column] = BUTTON_LIT;
    }
    MapData {
        width: w(12),
        height: h(12),
        tiles,
        player_x: x(5),
        player_y: y(5),
        turtle_x: x(1),
        turtle_y: y(1),
        crab_x: x(3),
        crab_y: y(1),
        ghost_x: x(5),
        ghost_y: y(1),
        panoptikhan_x: x(7),
        panoptikhan_y: y(1),
        large_pot_x: x(9),
        large_pot_y: y(9),
        zombie_x: x(9),
        zombie_y: y(1),
        dogs: [cell(0, 0); 22],
        buttons: [
            (x(1), y(10), Label::North),
            (x(2), y(10), Label::East),
            (x(3), y(10), Label::South),
            (x(4), y(10), Label::West),
        ],
        key_x: x(6),
        key_y: y(10),
        locked_door_x: x(7),
        locked_door_y: y(10),
        special_grave_x: x(10),
        special_grave_y: y(5),
    }
}

fn set_tile(data: &mut MapData, column: usize, row: usize, kind: TileKind) {
    let width = data.width.usize();
    data.tiles[row * width + column] = kind;
}

fn map_of(data: MapData) -> GameMap {
    GameMap::new(data).expect("the map is sound")
}

#[test]
fn a_sound_map_is_accepted() {
    let map = GameMap::new(floor_data());
    assert!(map.is_some());
    let map = map.unwrap();
    assert_eq!(map.data().width, w(12));
    assert_eq!(map.data().tiles.len(), 144);
}

#[test]
fn a_map_must_cover_its_grid() {
    let mut data = floor_data();
    data.tiles.pop();
    assert!(GameMap::new(data).is_none());
    let mut data = floor_data();
    data.tiles.push(FLOOR);
    assert!(GameMap::new(data).is_none());
    let mut data = floor_data();
    data.width = w(0);
    data.tiles.clear();
    assert!(GameMap::new(data).is_none());
}

#[test]
fn named_cells_must_be_inside() {
    let mut data = floor_data();
    data.player_x = x(12);
    assert!(GameMap::new(data).is_none());
    let mut data = floor_data();
    data.key_y = y(200);
    assert!(GameMap::new(data).is_none());
    let mut data = floor_data();
    data.dogs[21] = cell(3, 12);
    assert!(GameMap::new(data).is_none());
    let mut data = floor_data();
    data.buttons[2].0 = x(40);
    assert!(GameMap::new(data).is_none());
    let mut data = floor_data();
    data.special_grave_x = x(11);
    data.special_grave_y = y(11);
    assert!(GameMap::new(data).is_some());
}

#[test]
fn buttons_must_lie_apart() {
    let mut data = floor_data();
    data.buttons[3] = (x(1), y(10), Label::West);
    assert!(GameMap::new(data).is_none());
    let mut data = floor_data();
    data.buttons[3] = (x(1), y(9), Label::North);
    assert!(GameMap::new(data).is_some());
}

#[test]
fn cells_have_their_index_row_by_row() {
    let map = map_of(floor_data());
    assert_eq!(xy_to_i(&map, x(0), y(0)), 0);
    assert_eq!(xy_to_i(&map, x(11), y(0)), 11);
    assert_eq!(xy_to_i(&map, x(3), y(2)), 27);
    assert_eq!(xy_to_i(&map, x(240), y(240)), 240 * 12 + 240);
    assert_eq!(i_to_xy(&map, 0), cell(0, 0));
    assert_eq!(i_to_xy(&map, 27), cell(3, 2));
    assert_eq!(i_to_xy(&map, 143), cell(11, 11));
    // Row 250 lies beyond the largest row.
    assert_eq!(i_to_xy(&map, 250 * 12 + 5), cell(5, 240));
    // Rows are taken modulo 256 before they are held in the range.
    assert_eq!(i_to_xy(&map, 258 * 12 + 5), cell(5, 2));
}

#[test]
fn landmarks_are_read_from_the_map_alone() {
    let mut data = floor_data();
    set_tile(&mut data, 4, 4, PERSON_0);
    set_tile(&mut data, 5, 4, WALL_0);
    let map = map_of(data);
    assert!(is_xy_landmark(&map, x(4), y(4)));
    assert!(!is_xy_landmark(&map, x(5), y(4)));
    assert!(!is_xy_landmark(&map, x(6), y(4)));
    assert!(is_xy_landmark(&map, x(1), y(10)));
    assert!(!is_xy_landmark(&map, x(0), y(12)));
}

#[test]
fn away_means_more_than_one_cell_off() {
    assert!(!is_away_from(x(5), y(5), x(5), y(5)));
    assert!(!is_away_from(x(5), y(5), x(6), y(6)));
    assert!(!is_away_from(x(5), y(5), x(4), y(5)));
    assert!(is_away_from(x(5), y(5), x(7), y(5)));
    assert!(is_away_from(x(5), y(5), x(5), y(3)));
}

#[test]
fn the_drawn_cell_is_picked_when_it_is_a_landmark_away() {
    let mut data = floor_data();
    // 8229 % 144 = 21: the cell (9, 1).
    set_tile(&mut data, 9, 1, LARGE_POT);
    let map = map_of(data);
    let mut rng = Xs { a: 1, b: 2, c: 3, d: 4 };
    assert_eq!(random_landmark(&mut rng, &map, x(0), y(0)), cell(9, 1));
    assert_eq!(rng, Xs { a: 8229, b: 1, c: 2, d: 3 });
}

#[test]
fn the_search_stops_at_the_first_landmark_that_is_away() {
    let map = map_of(floor_data());
    let mut rng = Xs { a: 1, b: 2, c: 3, d: 4 };
    // The drawn cell (9, 1) is floor; the first landmark after it is the button at (1, 10).
    assert_eq!(random_landmark(&mut rng, &map, x(0), y(0)), cell(1, 10));
    assert_eq!(rng, Xs { a: 8229, b: 1, c: 2, d: 3 });
    let mut data = floor_data();
    set_tile(&mut data, 11, 1, PERSON_0);
    set_tile(&mut data, 3, 0, PERSON_0);
    let map = map_of(data);
    // A landmark beside the one who asks is passed over.
    let mut rng = Xs { a: 1, b: 2, c: 3, d: 4 };
    assert_eq!(random_landmark(&mut rng, &map, x(10), y(1)), cell(1, 10));
    // One that is away is taken.
    let mut rng = Xs { a: 1, b: 2, c: 3, d: 4 };
    assert_eq!(random_landmark(&mut rng, &map, x(0), y(5)), cell(11, 1));
    // The search goes on around the end of the map: for one who stands among the buttons,
    // the first landmark away is in the first row.
    let mut rng = Xs { a: 1, b: 2, c: 3, d: 4 };
    assert_eq!(random_landmark(&mut rng, &map, x(11), y(2)), cell(1, 10));
    let mut data = floor_data();
    set_tile(&mut data, 3, 0, PERSON_0);
    for column in 1..5 {
        set_tile(&mut data, column, 10, FLOOR);
    }
    let map = map_of(data);
    let mut rng = Xs { a: 1, b: 2, c: 3, d: 4 };
    assert_eq!(random_landmark(&mut rng, &map, x(0), y(5)), cell(3, 0));
}

#[test]
fn without_a_landmark_away_the_drawn_cell_is_picked() {
    let mut data = floor_data();
    for column in 1..5 {
        set_tile(&mut data, column, 10, FLOOR);
    }
    set_tile(&mut data, 1, 1, PERSON_0);
    let map = map_of(data);
    let mut rng = Xs { a: 1, b: 2, c: 3, d: 4 };
    // The one landmark lies beside the one who asks: the cell drawn, (9, 1), is handed back.
    assert_eq!(random_landmark(&mut rng, &map, x(0), y(0)), cell(9, 1));
    assert_eq!(rng, Xs { a: 8229, b: 1, c: 2, d: 3 });
}
