use tile_world::lock::{Outcome, PasswordLock, Press};
use tile_world::map::{GameMap, Label, MapData};
use tile_world::platform::SFX;
use tile_world::rng::Xs;
use tile_world::state::State;
use tile_world::tile::{TileKind, BUTTON_DARK, BUTTON_LIT, FLOOR, KEY};
use tile_world::xy::{h, w, x, y, X, Y};

fn cell(column: u8, row: u8) -> (X, Y) {
    (x(column), y(row))
}

/// A map of bare floor, twelve by twelve, with the four buttons in the row before the last.
fn floor_data() -> MapData {
    let mut tiles = vec![FLOOR; 12 * 12];
    for column in 1..5 {
        tiles[10 * 12 + column] = BUTTON_LIT;
    }
    MapData {
        width: w(12),
        height: h(12),
        tiles,
        player_x: x(5),
        player_y: y(5),
        turtle_x: x(1),
        turtle_y: y(1),
        crab_x: x(3),
        crab_y: y(1),
        ghost_x: x(5),
        ghost_y: y(1),
        panoptikhan_x: x(7),
        panoptikhan_y: y(1),
        large_pot_x: x(9),
        large_pot_y: y(9),
        zombie_x: x(9),
        zombie_y: y(1),
        dogs: [cell(0, 0); 22],
        buttons: [
            (x(1), y(10), Label::North),
            (x(2), y(10), Label::East),
            (x(3), y(10), Label::South),
            (x(4), y(10), Label::West),
        ],
        key_x: x(6),
        key_y: y(10),
        locked_door_x: x(7),
        locked_door_y: y(10),
        special_grave_x: x(10),
        special_grave_y: y(5),
    }
}

fn set_tile(data: &mut MapData, column: usize, row: usize, kind: TileKind) {
    let width = data.width.usize();
    data.tiles[row * width + column] = kind;
}

fn map_of(data: MapData) -> GameMap {
    GameMap::new(data).expect("the map is sound")
}

/// The generator whose draws leave four items in their order.
fn in_order() -> Xs {
    Xs { a: 5, b: 2, c: 0, d: 0 }
}

fn buttons() -> [(X, Y, Label); 4] {
    floor_data().buttons
}

fn index_of(at: (X, Y)) -> usize {
    at.1.usize() * 12 + at.0.usize()
}

fn world(map: &GameMap) -> State<'_> {
    let mut state = State::new(map, [3; 16]);
    state.password_lock = PasswordLock::new(buttons(), &mut in_order());
    state
}

fn open_flags(lock: &PasswordLock<4>) -> [bool; 4] {
    [lock.is_open(0), lock.is_open(1), lock.is_open(2), lock.is_open(3)]
}

#[test]
fn a_new_lock_has_its_buttons_in_the_drawn_order() {
    let lock = PasswordLock::new(buttons(), &mut in_order());
    assert_eq!(lock.button_count(), 4);
    assert_eq!(lock.press_count(), 0);
    assert_eq!(open_flags(&lock), [false; 4]);
    assert_eq!(
        [lock.name(0), lock.name(1), lock.name(2), lock.name(3)],
        [Label::North, Label::East, Label::South, Label::West]
    );
    for i in 0..4 {
        assert_eq!(lock.button_xy(i), cell(i as u8 + 1, 10));
    }
    let mut rng = Xs { a: 1, b: 2, c: 3, d: 4 };
    let lock = PasswordLock::new(buttons(), &mut rng);
    assert_eq!(
        [lock.name(0), lock.name(1), lock.name(2), lock.name(3)],
        [Label::West, Label::South, Label::East, Label::North]
    );
    assert_eq!(lock.button_xy(0), cell(4, 10));
    assert_eq!(lock.button_xy(3), cell(1, 10));
    // Three draws were taken.
    let mut other = Xs { a: 1, b: 2, c: 3, d: 4 };
    for _ in 0..3 {
        tile_world::rng::xorshift(&mut other);
    }
    assert_eq!(rng, other);
}

#[test]
fn a_press_in_turn_opens_the_button() {
    let mut lock = PasswordLock::new(buttons(), &mut in_order());
    let press = lock.press(x(1), y(10));
    assert_eq!(press, Press { found: true, outcome: Outcome::Pending });
    assert_eq!(open_flags(&lock), [true, false, false, false]);
    assert_eq!(lock.press_count(), 1);
    // The open button is not pressed again.
    let press = lock.press(x(1), y(10));
    assert_eq!(press, Press { found: false, outcome: Outcome::Pending });
    assert_eq!(lock.press_count(), 1);
    // A cell without a button presses nothing.
    let press = lock.press(x(7), y(7));
    assert_eq!(press, Press { found: false, outcome: Outcome::Pending });
    assert_eq!(lock.press_count(), 1);
}

#[test]
fn a_press_out_of_turn_counts_and_opens_nothing() {
    let mut lock = PasswordLock::new(buttons(), &mut in_order());
    let press = lock.press(x(4), y(10));
    assert_eq!(press, Press { found: true, outcome: Outcome::Pending });
    assert_eq!(open_flags(&lock), [false; 4]);
    assert_eq!(lock.press_count(), 1);
    // The same closed button can be pressed until the attempt is used up.
    lock.press(x(4), y(10));
    lock.press(x(4), y(10));
    assert_eq!(lock.press_count(), 3);
    assert_eq!(open_flags(&lock), [false; 4]);
    // The fourth press is in the turn of the last button, but the others are closed.
    let press = lock.press(x(4), y(10));
    assert_eq!(press, Press { found: true, outcome: Outcome::Failed });
    assert_eq!(lock.press_count(), 0);
    assert_eq!(open_flags(&lock), [false; 4]);
}

#[test]
fn reset_closes_the_buttons_and_keeps_them_in_place() {
    let mut lock = PasswordLock::new(buttons(), &mut in_order());
    lock.press(x(1), y(10));
    lock.press(x(2), y(10));
    assert_eq!(open_flags(&lock), [true, true, false, false]);
    lock.reset();
    assert_eq!(open_flags(&lock), [false; 4]);
    assert_eq!(lock.press_count(), 0);
    assert_eq!(lock.button_xy(1), cell(2, 10));
    assert_eq!(lock.name(1), Label::East);
    assert!(!lock.is_unlocked());
}

#[test]
fn the_buttons_in_their_turn_open_the_lock_and_bring_the_key() {
    let map = map_of(floor_data());
    let mut state = world(&map);
    for i in 0..4 {
        assert!(!state.password_lock.is_unlocked());
        assert!(!state.entities.dynamic.contains_key(&index_of(cell(6, 10))));
        let at = cell(i + 1, 10);
        assert_eq!(state.entity_on_button(at.0, at.1), Some(SFX::ButtonPress));
        assert_eq!(state.entities.dynamic.get(&index_of(at)).map(|e| e.kind), Some(BUTTON_DARK));
    }
    assert_eq!(open_flags(&state.password_lock), [true; 4]);
    assert!(state.password_lock.is_unlocked());
    let key = state.entities.dynamic.get(&index_of(cell(6, 10))).unwrap();
    assert_eq!((key.kind, key.x, key.y), (KEY, x(6), y(10)));
    let keys = state.entities.dynamic.values().filter(|e| e.kind == KEY).count();
    assert_eq!(keys, 1);
    // Another step on a button changes nothing and leaves one key.
    assert_eq!(state.entity_on_button(x(1), y(10)), Some(SFX::ButtonPress));
    assert!(state.password_lock.is_unlocked());
    let keys = state.entities.dynamic.values().filter(|e| e.kind == KEY).count();
    assert_eq!(keys, 1);
}

#[test]
fn the_first_two_buttons_the_wrong_way_round_clear_the_attempt() {
    let map = map_of(floor_data());
    let mut state = world(&map);
    for at in [cell(2, 10), cell(1, 10), cell(3, 10)] {
        let _ = state.entity_on_button(at.0, at.1);
        assert_eq!(state.entities.dynamic.get(&index_of(at)).map(|e| e.kind), Some(BUTTON_DARK));
    }
    assert_eq!(open_flags(&state.password_lock), [false, false, true, false]);
    assert_eq!(state.password_lock.press_count(), 3);
    let _ = state.entity_on_button(x(4), y(10));
    assert_eq!(open_flags(&state.password_lock), [false; 4]);
    assert_eq!(state.password_lock.press_count(), 0);
    for column in 1..5 {
        assert!(!state.entities.dynamic.contains_key(&index_of(cell(column, 10))));
    }
    assert!(!state.entities.dynamic.contains_key(&index_of(cell(6, 10))));
    assert!(state.entities.dynamic.is_empty());
    // The buttons show lit again, and the next attempt can succeed.
    assert_eq!(state.get_effective_tile(x(1), y(10)), Some(BUTTON_LIT));
    for column in 1..5 {
        let _ = state.entity_on_button(x(column), y(10));
    }
    assert!(state.password_lock.is_unlocked());
}

#[test]
fn every_order_but_the_right_one_clears_the_attempt() {
    let map = map_of(floor_data());
    let mut wrong = 0;
    for a in 0..4u8 {
        for b in 0..4u8 {
            for c in 0..4u8 {
                for d in 0..4u8 {
                    let order = [a, b, c, d];
                    let mut seen = [false; 4];
                    for &i in order.iter() {
                        seen[i as usize] = true;
                    }
                    if seen != [true; 4] || order == [0, 1, 2, 3] {
                        continue;
                    }
                    wrong += 1;
                    let mut state = world(&map);
                    for &i in order.iter() {
                        let _ = state.entity_on_button(x(i + 1), y(10));
                    }
                    assert_eq!(open_flags(&state.password_lock), [false; 4]);
                    assert_eq!(state.password_lock.press_count(), 0);
                    assert!(state.entities.dynamic.is_empty());
                }
            }
        }
    }
    assert_eq!(wrong, 23);
}

#[test]
fn a_step_beside_the_buttons_presses_nothing() {
    let map = map_of(floor_data());
    let mut state = world(&map);
    assert_eq!(state.entity_on_button(x(7), y(7)), Some(SFX::ButtonPress));
    assert_eq!(state.password_lock.press_count(), 0);
    assert!(state.entities.dynamic.is_empty());
}
