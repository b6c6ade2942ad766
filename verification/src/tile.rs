use vstd::prelude::*;

verus! {

/// Names what is drawn in a cell, and with it how the cell behaves.
pub type TileKind = u16;

pub const WALL_0: TileKind = 0;
pub const WALL_1: TileKind = 1;
pub const WALL_2: TileKind = 3;
pub const WALL_3: TileKind = 14;
pub const WALL_4: TileKind = 17;
pub const WALL_5: TileKind = 28;
pub const WALL_6: TileKind = 39;
pub const WALL_7: TileKind = 31;
pub const WALL_8: TileKind = 42;
pub const WALL_9: TileKind = 43;
pub const WALL_10: TileKind = 44;
pub const WALL_11: TileKind = 45;
pub const WALL_12: TileKind = 56;
pub const WALL_13: TileKind = 57;
pub const WALL_14: TileKind = 58;
pub const WALL_15: TileKind = 59;
pub const WALL_16: TileKind = 70;
pub const WALL_17: TileKind = 71;
pub const WALL_18: TileKind = 72;
pub const WALL_19: TileKind = 73;
pub const WALL_20: TileKind = 126;
pub const WALL_21: TileKind = 127;
pub const WALL_22: TileKind = 129;
pub const WALL_23: TileKind = 130;
pub const WALL_24: TileKind = 132;
pub const WALL_25: TileKind = 133;
pub const WALL_26: TileKind = 135;
pub const DOOR_0: TileKind = 2;
pub const DOOR_1: TileKind = 30;
pub const DOOR_2: TileKind = 33;
pub const DOOR_3: TileKind = 128;
pub const DOOR_4: TileKind = 134;
pub const CLOSED_DOOR: TileKind = 32;
pub const OPEN_DOOR: TileKind = DOOR_2;
pub const PERSON_0: TileKind = 4;
pub const PERSON_1: TileKind = 5;
pub const PERSON_2: TileKind = 6;
pub const PERSON_3: TileKind = 7;
pub const PERSON_4: TileKind = 8;
pub const PERSON_5: TileKind = 9;
pub const ZOMBIE: TileKind = 11;
/// The floating eyeball.
pub const PANOPTIKHAN: TileKind = 13;
pub const FLOOR: TileKind = 15;
pub const DOG: TileKind = 19;
pub const CRAB: TileKind = 21;
pub const GHOST_1: TileKind = 22;
pub const TURTLE: TileKind = 24;
pub const LARGE_POT: TileKind = 36;
pub const STAIRS_DOWN: TileKind = 46;
pub const GROUND: TileKind = 60;
pub const GRASS_GROUND: TileKind = 61;
pub const KEY: TileKind = 80;
pub const BUTTON_LIT: TileKind = 84;
pub const BUTTON_DARK: TileKind = 85;
pub const BUTTON_PRESSED: TileKind = 16;
pub const EXCLAMATION_BUBBLE: TileKind = 102;
pub const GRAVE_1: TileKind = 106;
pub const GRAVE_2: TileKind = 107;
pub const SPECIAL_GRAVE: TileKind = GRAVE_2;
pub const PORTAL: TileKind = 113;

/// Whether `kind` is one of the wall tiles.
pub open spec fn wall(kind: TileKind) -> bool {
    kind == WALL_0 || kind == WALL_1 || kind == WALL_2 || kind == WALL_3 || kind == WALL_4
        || kind == WALL_5 || kind == WALL_6 || kind == WALL_7 || kind == WALL_8 || kind == WALL_9
        || kind == WALL_10 || kind == WALL_11 || kind == WALL_12 || kind == WALL_13
        || kind == WALL_14 || kind == WALL_15 || kind == WALL_16 || kind == WALL_17
        || kind == WALL_18 || kind == WALL_19 || kind == WALL_20 || kind == WALL_21
        || kind == WALL_22 || kind == WALL_23 || kind == WALL_24 || kind == WALL_25
        || kind == WALL_26
}

/// Whether `kind` is a doorway that stands open.
pub open spec fn doorway(kind: TileKind) -> bool {
    kind == DOOR_0 || kind == DOOR_1 || kind == DOOR_2 || kind == DOOR_3 || kind == DOOR_4
}

/// Whether `kind` is bare ground of some sort.
pub open spec fn bare(kind: TileKind) -> bool {
    kind == FLOOR || kind == GROUND || kind == GRASS_GROUND
}

/// Whether a creature may step onto a cell that shows `kind`.
pub open spec fn walkable(kind: TileKind) -> bool {
    bare(kind) || doorway(kind) || kind == STAIRS_DOWN || kind == KEY || kind == BUTTON_LIT
        || kind == BUTTON_DARK || kind == BUTTON_PRESSED || kind == PORTAL
}

/// Whether `kind` marks a place worth walking up to: anything but bare ground, doors, walls and
/// the speech bubble.
pub open spec fn landmark(kind: TileKind) -> bool {
    !(bare(kind) || kind == EXCLAMATION_BUBBLE || doorway(kind) || kind == CLOSED_DOOR || wall(kind))
}

pub fn is_wall(kind: TileKind) -> (r: bool)
    ensures
        r == wall(kind),
{
    kind == WALL_0 || kind == WALL_1 || kind == WALL_2 || kind == WALL_3 || kind == WALL_4
        || kind == WALL_5 || kind == WALL_6 || kind == WALL_7 || kind == WALL_8 || kind == WALL_9
        || kind == WALL_10 || kind == WALL_11 || kind == WALL_12 || kind == WALL_13
        || kind == WALL_14 || kind == WALL_15 || kind == WALL_16 || kind == WALL_17
        || kind == WALL_18 || kind == WALL_19 || kind == WALL_20 || kind == WALL_21
        || kind == WALL_22 || kind == WALL_23 || kind == WALL_24 || kind == WALL_25
        || kind == WALL_26
}

pub fn is_doorway(kind: TileKind) -> (r: bool)
    ensures
        r == doorway(kind),
{
    kind == DOOR_0 || kind == DOOR_1 || kind == DOOR_2 || kind == DOOR_3 || kind == DOOR_4
}

pub fn is_bare(kind: TileKind) -> (r: bool)
    ensures
        r == bare(kind),
{
    kind == FLOOR || kind == GROUND || kind == GRASS_GROUND
}

pub fn is_walkable(kind: TileKind) -> (r: bool)
    ensures
        r == walkable(kind),
{
    is_bare(kind) || is_doorway(kind) || kind == STAIRS_DOWN || kind == KEY || kind == BUTTON_LIT
        || kind == BUTTON_DARK || kind == BUTTON_PRESSED || kind == PORTAL
}

pub fn is_landmark(kind: TileKind) -> (r: bool)
    ensures
        r == landmark(kind),
{
    !(is_bare(kind) || kind == EXCLAMATION_BUBBLE || is_doorway(kind) || kind == CLOSED_DOOR
        || is_wall(kind))
}

/// How many tile kinds a dog may be drawn with.
pub const DOG_KIND_COUNT: u32 = 1;

/// The tile kind a dog is drawn with, by the number of the choice.
pub open spec fn dog_kind_of(choice: u32) -> TileKind {
    DOG
}

pub fn dog_kind(choice: u32) -> (r: TileKind)
    ensures
        r == dog_kind_of(choice),
{
    DOG
}

} // verus!
