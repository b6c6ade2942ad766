use tile_world::entities::{Entity, Tile};
use tile_world::lock::PasswordLock;
use tile_world::map::{GameMap, Label, MapData};
use tile_world::rng::Xs;
use tile_world::state::{DogState, MessageInfo, Screen, State};
use tile_world::text::Segment;
use tile_world::tile::{
    TileKind, BUTTON_LIT, CRAB, EXCLAMATION_BUBBLE, FLOOR, PERSON_5, TURTLE, WALL_0,
};
use tile_world::xy::{h, w, x, y, X, Y};

fn cell(column: u8, row: u8) -> (X, Y) {
    (x(column), y(row))
}

/// A map of bare floor, twelve by twelve, with the four buttons in the row before the last.
fn floor_data() -> MapData {
    let mut tiles = vec![FLOOR; 12 * 12];
    for column in 1..5 {
        tiles[10 * 12 + column] = BUTTON_LIT;
    }
    MapData {
        width: w(12),
        height: h(12),
        tiles,
        player_x: x(5),
        player_y: y(5),
        turtle_x: x(1),
        turtle_y: y(1),
        crab_x: x(3),
        crab_y: y(1),
        ghost_x: x(5),
        ghost_y: y(1),
        panoptikhan_x: x(7),
        panoptikhan_y: y(1),
        large_pot_x: x(9),
        large_pot_y: y(9),
        zombie_x: x(9),
        zombie_y: y(1),
        dogs: [cell(0, 0); 22],
        buttons: [
            (x(1), y(10), Label::North),
            (x(2), y(10), Label::East),
            (x(3), y(10), Label::South),
            (x(4), y(10), Label::West),
        ],
        key_x: x(6),
        key_y: y(10),
        locked_door_x: x(7),
        locked_door_y: y(10),
        special_grave_x: x(10),
        special_grave_y: y(5),
    }
}

fn set_tile(data: &mut MapData, column: usize, row: usize, kind: TileKind) {
    let width = data.width.usize();
    data.tiles[row * width + column] = kind;
}

fn map_of(data: MapData) -> GameMap {
    GameMap::new(data).expect("the map is sound")
}

/// The floor map with the dogs penned in the last corner, where they cannot get away.
fn penned_data() -> MapData {
    let mut data = floor_data();
    data.dogs = [cell(11, 11); 22];
    set_tile(&mut data, 10, 11, WALL_0);
    set_tile(&mut data, 11, 10, WALL_0);
    data
}

/// The generator whose draws leave four items in their order.
fn in_order() -> Xs {
    Xs { a: 5, b: 2, c: 0, d: 0 }
}

fn world(map: &GameMap) -> State<'_> {
    let mut state = State::new(map, [3; 16]);
    state.password_lock = PasswordLock::new(map.data().buttons, &mut in_order());
    state
}

fn index_of(at: (X, Y)) -> usize {
    at.1.usize() * 12 + at.0.usize()
}

fn place(state: &State) -> [(X, Y); 7] {
    let e = &state.entities;
    [
        (e.player.x, e.player.y),
        (e.turtle.x, e.turtle.y),
        (e.crab.x, e.crab.y),
        (e.phantom.x, e.phantom.y),
        (e.large_pot.x, e.large_pot.y),
        (e.panoptikhan.x, e.panoptikhan.y),
        (e.zombie.x, e.zombie.y),
    ]
}

fn tiles_of(state: &State) -> Vec<(TileKind, u8, u8)> {
    let mut info = state.render_info();
    let mut tiles = Vec::new();
    while let Some(Tile { kind, x, y }) = info.tiles.next() {
        tiles.push((kind, x.get(), y.get()));
        assert!(tiles.len() < 10_000);
    }
    // Once at its end it stays there.
    assert!(info.tiles.next().is_none());
    tiles
}

fn lines_of(segments: &[Segment]) -> Vec<(Vec<u8>, u8, u8)> {
    segments.iter().map(|s| (s.as_slice().to_vec(), s.x.get(), s.y.get())).collect()
}

/// A map of forty columns and thirty rows of floor.
fn wide_data() -> MapData {
    let mut data = penned_data();
    data.width = w(40);
    data.height = h(30);
    data.tiles = vec![FLOOR; 40 * 30];
    data.dogs = [cell(39, 29); 22];
    data
}

#[test]
fn a_small_map_is_drawn_whole_and_the_player_after_it() {
    let map = map_of(penned_data());
    let state = world(&map);
    let tiles = tiles_of(&state);
    assert_eq!(tiles.len(), 12 * 12 + 1);
    assert_eq!(tiles[0], (FLOOR, 0, 0));
    assert_eq!(tiles[1], (FLOOR, 1, 0));
    assert_eq!(tiles[12], (FLOOR, 0, 1));
    assert_eq!(tiles[13], (TURTLE, 1, 1));
    assert_eq!(tiles[15], (CRAB, 3, 1));
    assert_eq!(tiles[5 * 12 + 5], (PERSON_5, 5, 5));
    assert_eq!(tiles[10 * 12 + 1], (BUTTON_LIT, 1, 10));
    assert_eq!(tiles[143], (tile_world::tile::DOG, 11, 11));
    assert_eq!(tiles[144], (PERSON_5, 5, 5));
    let info = state.render_info();
    assert!(info.text_boxes.is_none());
    assert!(info.message_segments.is_empty());
    assert_eq!(info.hud.prints.len(), 1);
    assert_eq!(info.hud.prints[0].text, [0u8; 16]);
}

#[test]
fn the_view_follows_the_player_and_stops_at_the_edges() {
    let map = map_of(wide_data());
    let mut state = world(&map);
    state.entities.player = Entity { kind: PERSON_5, x: x(20), y: y(15) };
    state.entities.turtle = Entity { kind: TURTLE, x: x(4), y: y(3) };
    let tiles = tiles_of(&state);
    assert_eq!(tiles.len(), 32 * 24 + 1);
    // The view begins at column 20 - 16 and row 15 - 12.
    assert_eq!(tiles[0], (TURTLE, 0, 0));
    assert_eq!(tiles[31], (FLOOR, 31, 0));
    assert_eq!(tiles[32], (FLOOR, 0, 1));
    assert_eq!(tiles[12 * 32 + 16], (PERSON_5, 16, 12));
    assert_eq!(tiles[32 * 24], (PERSON_5, 16, 12));
    // Near the first corner the view stays on the map.
    state.entities.player = Entity { kind: PERSON_5, x: x(3), y: y(2) };
    let tiles = tiles_of(&state);
    assert_eq!(tiles[3 * 32 + 4], (TURTLE, 4, 3));
    assert_eq!(tiles[32 * 24], (PERSON_5, 3, 2));
    // Near the last corner it begins at column 40 - 32 and row 30 - 24.
    state.entities.player = Entity { kind: PERSON_5, x: x(38), y: y(29) };
    state.entities.turtle = Entity { kind: TURTLE, x: x(8), y: y(6) };
    let tiles = tiles_of(&state);
    assert_eq!(tiles[0], (TURTLE, 0, 0));
    assert_eq!(tiles[32 * 24], (PERSON_5, 30, 23));
}

#[test]
fn a_message_comes_in_a_box_below_the_view() {
    let map = map_of(penned_data());
    let mut state = world(&map);
    state.message_info = MessageInfo::PasswordReveal { index: 1 };
    let info = state.render_info();
    let rect = info.text_boxes.unwrap();
    assert_eq!(
        (rect.min_x.get(), rect.min_y.get(), rect.max_x.get(), rect.max_y.get()),
        (0, 12, 12, 19)
    );
    assert_eq!(
        lines_of(&info.message_segments),
        vec![(b"push the east button second".to_vec(), 1, 25)]
    );
    let map = map_of(wide_data());
    let mut state = world(&map);
    state.message_info = MessageInfo::GhostOoo;
    let info = state.render_info();
    let rect = info.text_boxes.unwrap();
    assert_eq!(
        (rect.min_x.get(), rect.min_y.get(), rect.max_x.get(), rect.max_y.get()),
        (0, 24, 32, 31)
    );
    assert_eq!(
        lines_of(&info.message_segments),
        vec![
            (b"... Ooooo ... ooooo .. ooooo!".to_vec(), 1, 25),
            (b"...".to_vec(), 1, 26)
        ]
    );
}

#[test]
fn each_message_has_its_text() {
    let map = map_of(penned_data());
    let mut state = world(&map);
    let mut text_of = |message: MessageInfo| -> Vec<u8> {
        state.message_info = message;
        let segments = state.message_segments();
        let lines: Vec<Vec<u8>> = segments.iter().map(|s| s.as_slice().to_vec()).collect();
        lines.join(&b' ')
    };
    assert_eq!(text_of(MessageInfo::NoMessage), b"".to_vec());
    assert_eq!(
        text_of(MessageInfo::PasswordReveal { index: 0 }),
        b"push the north button first".to_vec()
    );
    assert_eq!(
        text_of(MessageInfo::PasswordReveal { index: 2 }),
        b"push the south button third".to_vec()
    );
    assert_eq!(
        text_of(MessageInfo::PasswordReveal { index: 3 }),
        b"push the west button fourth".to_vec()
    );
    assert_eq!(
        text_of(MessageInfo::PasswordReveal { index: 4 }),
        b"missing_password_reveal_message".to_vec()
    );
    assert_eq!(
        text_of(MessageInfo::PasswordRevealRefused),
        b"someone else told already. i won't.".to_vec()
    );
    assert_eq!(text_of(MessageInfo::ForgotPassword), b"i forgot my part of the password".to_vec());
    assert_eq!(
        text_of(MessageInfo::Ramble(0)),
        b"let me tell you a story from my childhood.".to_vec()
    );
    assert_eq!(
        text_of(MessageInfo::Ramble(6)),
        b"well blair ended up pushing the bloody thing out of its proper place!".to_vec()
    );
    assert_eq!(text_of(MessageInfo::Ramble(10)), b"... blah ... blah ... blah ...".to_vec());
    assert_eq!(text_of(MessageInfo::GhostOoo), b"... Ooooo ... ooooo .. ooooo! ...".to_vec());
}

#[test]
fn the_names_of_the_buttons_follow_the_lock() {
    let map = map_of(penned_data());
    let mut state = world(&map);
    state.password_lock = PasswordLock::new(map.data().buttons, &mut Xs { a: 1, b: 2, c: 3, d: 4 });
    state.message_info = MessageInfo::PasswordReveal { index: 0 };
    let info = state.render_info();
    assert_eq!(
        lines_of(&info.message_segments),
        vec![(b"push the west button first".to_vec(), 1, 25)]
    );
}

#[test]
fn the_last_screen_shows_its_lines_and_no_map() {
    let map = map_of(penned_data());
    let mut state = world(&map);
    state.screen = Screen::Congraturation;
    state.message_info = MessageInfo::GhostOoo;
    assert_eq!(tiles_of(&state), vec![(PERSON_5, 5, 5)]);
    let info = state.render_info();
    assert!(info.text_boxes.is_none());
    assert_eq!(
        lines_of(&info.message_segments),
        vec![
            (b"congraturation".to_vec(), 12, 4),
            (b"this story is happy end".to_vec(), 4, 8)
        ]
    );
}

#[test]
fn a_sniffing_dog_has_a_bubble_that_goes_round_it() {
    let map = map_of(penned_data());
    let mut state = world(&map);
    state.entities.dogs[3] = Entity { kind: tile_world::tile::DOG, x: x(4), y: y(7) };
    state.dog_states[3] = DogState::Sniffing;
    state.dog_states[5] = DogState::Sniffing;
    state.frame_count = 0;
    let tiles = tiles_of(&state);
    // The dog in the last corner has its bubble beyond the map, out of view.
    assert_eq!(tiles.len(), 146);
    assert_eq!(tiles[144], (PERSON_5, 5, 5));
    assert_eq!(tiles[145], (EXCLAMATION_BUBBLE, 5, 7));
    // In the phase after the next, that bubble is above its dog.
    state.dog_states[3] = DogState::PreSniffing;
    assert_eq!(tiles_of(&state).len(), 145);
    state.frame_count = 2 * 8 + 3;
    let tiles = tiles_of(&state);
    assert_eq!(tiles[145], (EXCLAMATION_BUBBLE, 11, 10));
    state.dog_states[3] = DogState::Sniffing;
    state.frame_count = 5 * 8;
    let tiles = tiles_of(&state);
    assert_eq!(tiles[145], (EXCLAMATION_BUBBLE, 3, 8));
    assert_eq!(tiles.len(), 146);
}

#[test]
fn a_bubble_is_placed_by_the_view() {
    let map = map_of(wide_data());
    let mut state = world(&map);
    state.entities.player = Entity { kind: PERSON_5, x: x(38), y: y(29) };
    state.entities.dogs[0] = Entity { kind: tile_world::tile::DOG, x: x(20), y: y(20) };
    state.entities.dogs[1] = Entity { kind: tile_world::tile::DOG, x: x(3), y: y(20) };
    state.dog_states[0] = DogState::Sniffing;
    state.dog_states[1] = DogState::Sniffing;
    state.frame_count = 0;
    let tiles = tiles_of(&state);
    // The view begins at (8, 6): the first bubble is at (21, 20), the second out of view.
    assert_eq!(tiles.len(), 32 * 24 + 2);
    assert_eq!(tiles[32 * 24 + 1], (EXCLAMATION_BUBBLE, 13, 14));
}

#[test]
fn an_overlay_entry_is_drawn_in_place_of_the_map() {
    let map = map_of(penned_data());
    let mut state = world(&map);
    state.add_entity(Entity { kind: WALL_0, x: x(0), y: y(0) });
    let tiles = tiles_of(&state);
    assert_eq!(tiles[0], (WALL_0, 0, 0));
    assert_eq!(tiles.len(), 145);
}
