use tile_world::gfx::{id_to_xy, Command, Rect, Sheet, SpriteXY};
use tile_world::lock::PasswordLock;
use tile_world::rng::Xs;
use tile_world::map::{GameMap, Label, MapData};
use tile_world::platform::{A, RIGHT, SFX, UP};
use tile_world::session::{render, to_x, to_y, State};
use tile_world::state::MessageInfo;
use tile_world::tile::{TileKind, BUTTON_LIT, FLOOR, PERSON_0, PERSON_5, PORTAL, TURTLE, WALL_0};
use tile_world::xy::{h, w, x, y, X, Y};

fn cell(column: u8, row: u8) -> (X, Y) {
    (x(column), y(row))
}

/// A map of bare floor, twelve by twelve, with the four buttons in the row before the last.
fn floor_data() -> MapData {
    let mut tiles = vec![FLOOR; 12 * 12];
    for column in 1..5 {
        tiles[10 * 12 + column] = BUTTON_LIT;
    }
    MapData {
        width: w(12),
        height: h(12),
        tiles,
        player_x: x(5),
        player_y: y(5),
        turtle_x: x(1),
        turtle_y: y(1),
        crab_x: x(3),
        crab_y: y(1),
        ghost_x: x(5),
        ghost_y: y(1),
        panoptikhan_x: x(7),
        panoptikhan_y: y(1),
        large_pot_x: x(9),
        large_pot_y: y(9),
        zombie_x: x(9),
        zombie_y: y(1),
        dogs: [cell(0, 0); 22],
        buttons: [
            (x(1), y(10), Label::North),
            (x(2), y(10), Label::East),
            (x(3), y(10), Label::South),
            (x(4), y(10), Label::West),
        ],
        key_x: x(6),
        key_y: y(10),
        locked_door_x: x(7),
        locked_door_y: y(10),
        special_grave_x: x(10),
        special_grave_y: y(5),
    }
}

fn set_tile(data: &mut MapData, column: usize, row: usize, kind: TileKind) {
    let width = data.width.usize();
    data.tiles[row * width + column] = kind;
}

fn map_of(data: MapData) -> GameMap {
    GameMap::new(data).expect("the map is sound")
}

/// The floor map with the dogs penned in the last corner, where they cannot get away.
fn penned_data() -> MapData {
    let mut data = floor_data();
    data.dogs = [cell(11, 11); 22];
    set_tile(&mut data, 10, 11, WALL_0);
    set_tile(&mut data, 11, 10, WALL_0);
    data
}

fn sheet() -> Sheet {
    Sheet {
        screen_width: 480,
        screen_height: 270,
        font_base_y: 100,
        font_width: 128,
        palette: vec![0, 1, 2, 3, 4, 5, 0xFFEE_EEEE, 7],
    }
}

fn tile(id: u16, x: u16, y: u16) -> Command {
    Command { sprite_xy: id_to_xy(id), rect: Rect { x, y, w: 8, h: 8 }, colour_override: 0 }
}

fn letter(character: u8, x: u16, y: u16) -> Command {
    let character = character as u16;
    Command {
        sprite_xy: SpriteXY { x: (character % 16) * 8, y: 100 + (character / 16) * 8 },
        rect: Rect { x, y, w: 8, h: 8 },
        colour_override: 0xFFEE_EEEE,
    }
}

#[test]
fn the_grid_sits_in_the_middle_of_the_screen() {
    let sheet = sheet();
    assert_eq!(to_x(&sheet, x(0)), 120);
    assert_eq!(to_x(&sheet, x(5)), 160);
    assert_eq!(to_x(&sheet, x(240)), 2040);
    assert_eq!(to_y(&sheet, y(0)), 15);
    assert_eq!(to_y(&sheet, y(12)), 111);
}

#[test]
fn a_frame_draws_the_world_it_has_moved_to() {
    let map = map_of(penned_data());
    let mut state = State::new(&map, [3; 16], sheet());
    state.game_state.frame_count = 1;
    state.press(RIGHT);
    let (commands, sounds) = state.frame();
    let (commands, sounds) = (commands.to_vec(), sounds.to_vec());
    assert!(sounds.is_empty());
    // The map, the player, and the eight characters of the head-up display.
    assert_eq!(commands.len(), 144 + 1 + 16);
    assert_eq!(commands[0], tile(FLOOR, 120, 15));
    assert_eq!(commands[13], tile(TURTLE, 128, 23));
    assert_eq!(commands[5 * 12 + 6], tile(PERSON_5, 168, 55));
    assert_eq!(commands[5 * 12 + 5], tile(FLOOR, 160, 55));
    assert_eq!(commands[144], tile(PERSON_5, 168, 55));
    let hud: Vec<Command> =
        b"2 (6, 5)".iter().enumerate().map(|(i, &c)| letter(c, 8 * i as u16, 0)).collect();
    assert_eq!(&commands[145..153], hud.as_slice());
    assert_eq!(commands[153], letter(0, 64, 0));
    assert_eq!(commands[160], letter(0, 120, 0));
    assert_eq!(state.input.previous_gamepad, RIGHT);
    assert_eq!(state.input.gamepad, RIGHT);
    // Held down, the button does not move the player again.
    state.frame();
    assert_eq!(state.game_state.entities.player.x, x(6));
    // Let go and pressed again, it does.
    state.release(RIGHT);
    state.frame();
    state.press(RIGHT);
    state.frame();
    assert_eq!(state.game_state.entities.player.x, x(7));
    // Pressed again while down, it counts again.
    state.press(RIGHT);
    state.frame();
    assert_eq!(state.game_state.entities.player.x, x(8));
}

#[test]
fn each_frame_starts_its_lists_anew() {
    let mut data = penned_data();
    set_tile(&mut data, 6, 5, PORTAL);
    let map = map_of(data);
    let mut state = State::new(&map, [3; 16], sheet());
    state.game_state.frame_count = 1;
    state.press(RIGHT);
    let (commands, sounds) = state.frame();
    assert_eq!(sounds, &[SFX::CardPlace]);
    let drawn = commands.len();
    let (commands, sounds) = state.frame();
    assert!(sounds.is_empty());
    assert_eq!(commands.len(), drawn);
}

#[test]
fn a_message_is_drawn_in_its_box() {
    let mut data = penned_data();
    set_tile(&mut data, 5, 4, PERSON_0);
    let map = map_of(data);
    let mut state = State::new(&map, [3; 16], sheet());
    state.game_state.password_lock =
        PasswordLock::new(map.data().buttons, &mut Xs { a: 5, b: 2, c: 0, d: 0 });
    state.game_state.frame_count = 1;
    state.press(UP);
    state.frame();
    state.press(A);
    let commands = state.frame().0.to_vec();
    assert!(matches!(state.game_state.message_info, MessageInfo::PasswordReveal { index: 0 }));
    // The box lies below the twelve rows of the view: 12 columns wide, 7 rows tall.
    let box_from = 145;
    let inside = 10 * 5;
    let edges = 10 * 2 + 5 * 2;
    assert_eq!(commands[box_from], tile(155, 128, 119));
    assert_eq!(commands[box_from + inside + edges], tile(140, 120, 111));
    assert_eq!(commands[box_from + inside + edges + 3], tile(170, 208, 159));
    let text_from = box_from + inside + edges + 4;
    // The line begins in column 1 of row 25.
    assert_eq!(commands[text_from], letter(b'p', 128, 215));
    assert_eq!(commands[text_from + 1], letter(b'u', 136, 215));
    let text: Vec<Command> = b"push the north button first"
        .iter()
        .enumerate()
        .map(|(i, &c)| letter(c, 128 + 8 * i as u16, 215))
        .collect();
    assert_eq!(&commands[text_from..text_from + 27], text.as_slice());
    assert_eq!(commands.len(), text_from + 27 + 16);
    let mut rendered = tile_world::gfx::Commands::default();
    render(&mut rendered, &state.sheet, &state.game_state);
    assert_eq!(rendered.slice(), commands.as_slice());
}

#[test]
fn a_sheet_must_fit() {
    assert!(sheet().is_fit());
    let mut narrow = sheet();
    narrow.screen_width = 239;
    assert!(!narrow.is_fit());
    let mut low = sheet();
    low.screen_height = 100;
    assert!(!low.is_fit());
    let mut pale = sheet();
    pale.palette.truncate(6);
    assert!(!pale.is_fit());
    let mut thin = sheet();
    thin.font_width = 7;
    assert!(!thin.is_fit());
    let mut deep = sheet();
    // Sixteen characters to a row: fifteen rows of eight below the first.
    deep.font_base_y = 65535 - 120;
    assert!(deep.is_fit());
    deep.font_base_y = 65535 - 119;
    assert!(!deep.is_fit());
}
