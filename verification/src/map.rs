use vstd::prelude::*;
use crate::rng::{range, ranged, stepped, Xs};
use crate::tile::{is_landmark, landmark, TileKind};
use crate::xy::{clamped, eight_neighbors, neighbors_of, x as x_of, y as y_of, H, W, X, Y};

verus! {

/// Which dog of the roster.
pub type DogIndex = u8;

/// How many dogs a world holds.
pub const DOG_COUNT: DogIndex = 22;

/// How many dogs a world holds, as a length.
pub const DOG_SLOTS: usize = 22;

/// How many buttons the lock of a map has.
pub const BUTTON_COUNT: usize = 4;

/// What a button of the lock is called.
#[derive(Clone, Copy, Debug, PartialEq, Eq, Structural)]
pub enum Label {
    North,
    East,
    South,
    West,
    Unlabeled,
}

/// The parts of a map, as they are handed over: any values at all.
pub struct MapData {
    pub width: W,
    pub height: H,
    /// The tile of cell `(x, y)` stands at index `y * width + x`.
    pub tiles: Vec<TileKind>,
    pub player_x: X,
    pub player_y: Y,
    pub turtle_x: X,
    pub turtle_y: Y,
    pub crab_x: X,
    pub crab_y: Y,
    pub ghost_x: X,
    pub ghost_y: Y,
    pub panoptikhan_x: X,
    pub panoptikhan_y: Y,
    pub large_pot_x: X,
    pub large_pot_y: Y,
    pub zombie_x: X,
    pub zombie_y: Y,
    pub dogs: [(X, Y); 22],
    pub buttons: [(X, Y, Label); 4],
    pub key_x: X,
    pub key_y: Y,
    pub locked_door_x: X,
    pub locked_door_y: Y,
    pub special_grave_x: X,
    pub special_grave_y: Y,
}

/// A map as the contracts see it.
pub struct MapView {
    pub width: int,
    pub height: int,
    pub tiles: Seq<TileKind>,
    pub player_cell: (int, int),
    pub turtle_cell: (int, int),
    pub crab_cell: (int, int),
    pub ghost_cell: (int, int),
    pub panoptikhan_cell: (int, int),
    pub large_pot_cell: (int, int),
    pub zombie_cell: (int, int),
    pub dogs: Seq<(int, int)>,
    pub buttons: Seq<(int, int, Label)>,
    pub key: (int, int),
    pub locked_door: (int, int),
    pub special_grave: (int, int),
}

impl MapView {
    /// Whether `cell` lies inside the grid.
    pub open spec fn inside(self, cell: (int, int)) -> bool {
        0 <= cell.0 < self.width && 0 <= cell.1 < self.height
    }

    /// The index of the tile of cell `(x, y)`.
    pub open spec fn index_of(self, x: int, y: int) -> int {
        y * self.width + x
    }

    /// The cell that index `index` is decoded to: the row is taken modulo 256 and held in the
    /// coordinate range.
    pub open spec fn cell_of(self, index: int) -> (int, int) {
        (clamped(index % self.width), clamped((index / self.width) % 256))
    }

    /// Whether the cell `(x, y)` has a tile, and that tile is a landmark.
    pub open spec fn landmark_at(self, x: int, y: int) -> bool {
        let index = self.index_of(x, y);
        0 <= index < self.tiles.len() && landmark(self.tiles[index])
    }

    /// What makes a map: at least one cell, a tile for each cell and no others, every named cell
    /// inside the grid, and no two buttons in one cell.
    pub open spec fn valid(self) -> bool {
        &&& 1 <= self.width <= 240
        &&& 1 <= self.height <= 240
        &&& self.tiles.len() == self.width * self.height
        &&& self.inside(self.player_cell)
        &&& self.inside(self.turtle_cell)
        &&& self.inside(self.crab_cell)
        &&& self.inside(self.ghost_cell)
        &&& self.inside(self.panoptikhan_cell)
        &&& self.inside(self.large_pot_cell)
        &&& self.inside(self.zombie_cell)
        &&& self.inside(self.key)
        &&& self.inside(self.locked_door)
        &&& self.inside(self.special_grave)
        &&& self.dogs.len() == DOG_SLOTS
        &&& forall|i: int| 0 <= i < self.dogs.len() ==> self.inside(#[trigger] self.dogs[i])
        &&& self.buttons.len() == BUTTON_COUNT
        &&& forall|i: int|
            0 <= i < self.buttons.len() ==> self.inside(
                ((#[trigger] self.buttons[i]).0, self.buttons[i].1),
            )
        &&& forall|i: int, j: int|
            0 <= i < j < self.buttons.len() ==> !((#[trigger] self.buttons[i]).0 == (
            #[trigger] self.buttons[j]).0 && self.buttons[i].1 == self.buttons[j].1)
    }
}

impl View for MapData {
    type V = MapView;

    open spec fn view(&self) -> MapView {
        MapView {
            width: self.width@,
            height: self.height@,
            tiles: self.tiles@,
            player_cell: (self.player_x@, self.player_y@),
            turtle_cell: (self.turtle_x@, self.turtle_y@),
            crab_cell: (self.crab_x@, self.crab_y@),
            ghost_cell: (self.ghost_x@, self.ghost_y@),
            panoptikhan_cell: (self.panoptikhan_x@, self.panoptikhan_y@),
            large_pot_cell: (self.large_pot_x@, self.large_pot_y@),
            zombie_cell: (self.zombie_x@, self.zombie_y@),
            dogs: Seq::new(22, |i: int| (self.dogs[i].0@, self.dogs[i].1@)),
            buttons: Seq::new(4, |i: int| (self.buttons[i].0@, self.buttons[i].1@, self.buttons[i].2)),
            key: (self.key_x@, self.key_y@),
            locked_door: (self.locked_door_x@, self.locked_door_y@),
            special_grave: (self.special_grave_x@, self.special_grave_y@),
        }
    }
}

/// A map that has been checked: its view is always valid.
pub struct GameMap {
    data: MapData,
}

impl View for GameMap {
    type V = MapView;

    closed spec fn view(&self) -> MapView {
        self.data@
    }
}

fn is_inside(width: W, height: H, x: X, y: Y) -> (r: bool)
    ensures
        r == (0 <= x@ < width@ && 0 <= y@ < height@),
{
    x.get() < width.get() && y.get() < height.get()
}

fn dogs_inside(data: &MapData) -> (r: bool)
    ensures
        r == (forall|i: int| 0 <= i < data@.dogs.len() ==> data@.inside(#[trigger] data@.dogs[i])),
{
    let mut i: usize = 0;
    while i < 22
        invariant
            i <= 22,
            forall|k: int| 0 <= k < i ==> data@.inside(#[trigger] data@.dogs[k]),
        decreases 22 - i,
    {
        assert(data@.dogs[i as int] == (data.dogs[i as int].0@, data.dogs[i as int].1@));
        if !is_inside(data.width, data.height, data.dogs[i].0, data.dogs[i].1) {
            assert(!data@.inside(data@.dogs[i as int]));
            return false;
        }
        i += 1;
    }
    true
}

fn buttons_inside(data: &MapData) -> (r: bool)
    ensures
        r == (forall|i: int|
            0 <= i < data@.buttons.len() ==> data@.inside(
                ((#[trigger] data@.buttons[i]).0, data@.buttons[i].1),
            )),
{
    let mut i: usize = 0;
    while i < 4
        invariant
            i <= 4,
            forall|k: int|
                0 <= k < i ==> data@.inside(((#[trigger] data@.buttons[k]).0, data@.buttons[k].1)),
        decreases 4 - i,
    {
        assert(data@.buttons[i as int].0 == data.buttons[i as int].0@);
        assert(data@.buttons[i as int].1 == data.buttons[i as int].1@);
        if !is_inside(data.width, data.height, data.buttons[i].0, data.buttons[i].1) {
            assert(!data@.inside((data@.buttons[i as int].0, data@.buttons[i as int].1)));
            return false;
        }
        i += 1;
    }
    true
}

fn buttons_apart(data: &MapData) -> (r: bool)
    ensures
        r == (forall|i: int, j: int|
            0 <= i < j < data@.buttons.len() ==> !((#[trigger] data@.buttons[i]).0 == (
            #[trigger] data@.buttons[j]).0 && data@.buttons[i].1 == data@.buttons[j].1)),
{
    let mut j: usize = 0;
    while j < 4
        invariant
            j <= 4,
            forall|a: int, b: int|
                0 <= a < b < j ==> !((#[trigger] data@.buttons[a]).0 == (
                #[trigger] data@.buttons[b]).0 && data@.buttons[a].1 == data@.buttons[b].1),
        decreases 4 - j,
    {
        let mut i: usize = 0;
        while i < j
            invariant
                i <= j < 4,
                forall|a: int|
                    0 <= a < i ==> !((#[trigger] data@.buttons[a]).0 == data@.buttons[j as int].0
                        && data@.buttons[a].1 == data@.buttons[j as int].1),
            decreases j - i,
        {
            assert(data@.buttons[i as int].0 == data.buttons[i as int].0@);
            assert(data@.buttons[i as int].1 == data.buttons[i as int].1@);
            assert(data@.buttons[j as int].0 == data.buttons[j as int].0@);
            assert(data@.buttons[j as int].1 == data.buttons[j as int].1@);
            if data.buttons[i].0 == data.buttons[j].0 && data.buttons[i].1 == data.buttons[j].1 {
                return false;
            }
            i += 1;
        }
        j += 1;
    }
    true
}

impl GameMap {
    #[verifier::type_invariant]
    spec fn checked(self) -> bool {
        self.data@.valid()
    }

    /// A map of `data`, if `data` makes one.
    pub fn new(data: MapData) -> (r: Option<GameMap>)
        ensures
            r is Some == data@.valid(),
            r matches Some(map) ==> map@ == data@,
    {
        let w: usize = data.width.usize();
        let h: usize = data.height.usize();
        assert(w * h <= 240 * 240) by (nonlinear_arith)
            requires
                w <= 240,
                h <= 240,
        ;
        let sound = w >= 1 && h >= 1 && data.tiles.len() == w * h && is_inside(
            data.width,
            data.height,
            data.player_x,
            data.player_y,
        ) && is_inside(data.width, data.height, data.turtle_x, data.turtle_y) && is_inside(
            data.width,
            data.height,
            data.crab_x,
            data.crab_y,
        ) && is_inside(data.width, data.height, data.ghost_x, data.ghost_y) && is_inside(
            data.width,
            data.height,
            data.panoptikhan_x,
            data.panoptikhan_y,
        ) && is_inside(data.width, data.height, data.large_pot_x, data.large_pot_y) && is_inside(
            data.width,
            data.height,
            data.zombie_x,
            data.zombie_y,
        ) && is_inside(data.width, data.height, data.key_x, data.key_y) && is_inside(
            data.width,
            data.height,
            data.locked_door_x,
            data.locked_door_y,
        ) && is_inside(data.width, data.height, data.special_grave_x, data.special_grave_y)
            && dogs_inside(&data) && buttons_inside(&data) && buttons_apart(&data);
        if sound {
            Some(GameMap { data })
        } else {
            None
        }
    }

    /// The parts of the map.
    pub fn data(&self) -> (r: &MapData)
        ensures
            r@ == self@,
            self@.valid(),
    {
        proof {
            use_type_invariant(self);
        }
        &self.data
    }
}

/// The index of the tile of cell `(x, y)`.
pub fn xy_to_i(map: &GameMap, x: X, y: Y) -> (r: usize)
    ensures
        r == map@.index_of(x@, y@),
        r <= 240 * 240 + 240,
{
    let width: usize = map.data().width.usize();
    let row: usize = y.usize();
    assert(row * width <= 240 * 240) by (nonlinear_arith)
        requires
            row <= 240,
            width <= 240,
    ;
    row * width + x.usize()
}

/// The cell that `index` is decoded to.
pub fn i_to_xy(map: &GameMap, index: usize) -> (r: (X, Y))
    ensures
        (r.0@, r.1@) == map@.cell_of(index as int),
{
    let width: usize = map.data().width.usize();
    let column: usize = index % width;
    let row: usize = (index / width) % 256;
    (x_of(column as u8), y_of(row as u8))
}

/// Whether the cell `(x, y)` has a tile, and that tile is a landmark. What stands on the cell
/// does not count.
pub fn is_xy_landmark(map: &GameMap, x: X, y: Y) -> (r: bool)
    ensures
        r == map@.landmark_at(x@, y@),
{
    let index: usize = xy_to_i(map, x, y);
    let data = map.data();
    if index < data.tiles.len() {
        is_landmark(data.tiles[index])
    } else {
        false
    }
}

/// Whether `(x, y)` is neither the cell `(cx, cy)` nor one of the eight around it.
pub open spec fn away_from(cx: int, cy: int, x: int, y: int) -> bool {
    &&& !(cx == x && cy == y)
    &&& forall|i: int| 0 <= i < 8 ==> #[trigger] neighbors_of(cx, cy)[i] != (x, y)
}

/// Whether `(x, y)` is neither the cell `(cx, cy)` nor one of the eight around it.
pub fn is_away_from(cx: X, cy: Y, x: X, y: Y) -> (r: bool)
    ensures
        r == away_from(cx@, cy@, x@, y@),
{
    if cx == x && cy == y {
        return false;
    }
    let around = eight_neighbors(cx, cy);
    let mut i: usize = 0;
    while i < 8
        invariant
            i <= 8,
            forall|k: int| 0 <= k < 8 ==> (#[trigger] around[k]).0@ == neighbors_of(cx@, cy@)[k].0,
            forall|k: int| 0 <= k < 8 ==> (#[trigger] around[k]).1@ == neighbors_of(cx@, cy@)[k].1,
            forall|k: int| 0 <= k < i ==> #[trigger] neighbors_of(cx@, cy@)[k] != (x@, y@),
        decreases 8 - i,
    {
        if around[i].0 == x && around[i].1 == y {
            assert(neighbors_of(cx@, cy@)[i as int] == (x@, y@));
            return false;
        }
        i += 1;
    }
    true
}

/// Whether a search for a landmark away from `(cx, cy)` stops at `index`: the tile there is a
/// landmark, and the cell there is away from `(cx, cy)`.
pub open spec fn search_stops(map: MapView, cx: int, cy: int, index: int) -> bool {
    landmark(map.tiles[index]) && away_from(cx, cy, map.cell_of(index).0, map.cell_of(index).1)
}

/// Whether the map has a landmark away from `(cx, cy)`.
pub open spec fn has_landmark_away(map: MapView, cx: int, cy: int) -> bool {
    exists|index: int| 0 <= index < map.tiles.len() && #[trigger] search_stops(map, cx, cy, index)
}

/// Whether `cell` is the cell of a landmark of the map that is away from `(cx, cy)`.
pub open spec fn is_landmark_away(map: MapView, cx: int, cy: int, cell: (int, int)) -> bool {
    exists|index: int|
        0 <= index < map.tiles.len() && #[trigger] search_stops(map, cx, cy, index) && map.cell_of(
            index,
        ) == cell
}

/// The index `j` indices on from `start`, around the end of `len` indices.
pub open spec fn around(start: int, j: int, len: int) -> int {
    (start + j) % len
}

/// The index at which a search that began at `start` and has gone `steps` indices on, around
/// the end of the tiles, stops: the first at which `search_stops` holds, and `start` again if
/// there is none.
pub open spec fn search_end(map: MapView, cx: int, cy: int, start: int, steps: int) -> int
    decreases map.tiles.len() - steps,
{
    let index = (start + steps) % (map.tiles.len() as int);
    if steps >= map.tiles.len() || search_stops(map, cx, cy, index) {
        index
    } else {
        search_end(map, cx, cy, start, steps + 1)
    }
}

/// Whether a search that began at `start` and has gone `from` indices on ends after `k`
/// indices: none of those between stops it, and that one does, or is `start` again.
pub open spec fn search_ends_after(
    map: MapView,
    cx: int,
    cy: int,
    start: int,
    from: int,
    k: int,
) -> bool {
    let len = map.tiles.len() as int;
    &&& from <= k <= len
    &&& k == len || search_stops(map, cx, cy, (start + k) % len)
    &&& forall|j: int| from <= j < k ==> !search_stops(map, cx, cy, #[trigger] ((start + j) % len))
}

/// The search ends at the first index on its way round that stops it, and back at its start
/// if there is none: after the `k` indices that are handed back.
pub proof fn lemma_search_end(map: MapView, cx: int, cy: int, start: int, steps: int) -> (k: int)
    requires
        0 <= steps <= map.tiles.len(),
    ensures
        search_ends_after(map, cx, cy, start, steps, k),
        search_end(map, cx, cy, start, steps) == (start + k) % (map.tiles.len() as int),
    decreases map.tiles.len() - steps,
{
    let len = map.tiles.len() as int;
    let index = (start + steps) % len;
    if steps >= len || search_stops(map, cx, cy, index) {
        steps
    } else {
        lemma_search_end(map, cx, cy, start, steps + 1)
    }
}

/// The cell that `random_landmark` picks with the draw from `rng`: the drawn one, if its tile is
/// a landmark and it is away from `(cx, cy)`; else the one at which the search from there stops.
pub open spec fn picked_landmark(rng: Xs, map: MapView, cx: int, cy: int) -> (int, int) {
    let start = ranged(rng, 0, map.tiles.len() as u32) as int;
    if search_stops(map, cx, cy, start) {
        map.cell_of(start)
    } else {
        map.cell_of(search_end(map, cx, cy, start, 1))
    }
}

/// Picks a cell to walk to for one who stands at `(cx, cy)`, with one draw from `rng`: the cell
/// of a landmark that is away from there, the drawn one or the next after it, wherever the map
/// has such a landmark; else the drawn cell.
pub fn random_landmark(rng: &mut Xs, map: &GameMap, cx: X, cy: Y) -> (r: (X, Y))
    ensures
        *final(rng) == stepped(*old(rng)),
        (r.0@, r.1@) == picked_landmark(*old(rng), map@, cx@, cy@),
        has_landmark_away(map@, cx@, cy@) ==> is_landmark_away(map@, cx@, cy@, (r.0@, r.1@)),
        !has_landmark_away(map@, cx@, cy@) ==> (r.0@, r.1@) == map@.cell_of(
            ranged(*old(rng), 0, map@.tiles.len() as u32) as int,
        ),
{
    let data = map.data();
    let len: usize = data.tiles.len();
    assert(data@.width * data@.height <= 240 * 240 && data@.width * data@.height >= 1)
        by (nonlinear_arith)
        requires
            1 <= data@.width <= 240,
            1 <= data@.height <= 240,
    ;
    let start: usize = range(rng, 0, len as u32) as usize;
    if is_landmark(data.tiles[start]) {
        let cell = i_to_xy(map, start);
        if is_away_from(cx, cy, cell.0, cell.1) {
            assert(search_stops(map@, cx@, cy@, start as int));
            return cell;
        }
    }
    let mut index: usize = start;
    let mut steps: usize = 0;
    proof {
        vstd::arithmetic::div_mod::lemma_small_mod(start as nat, len as nat);
    }
    loop
        invariant
            *rng == stepped(*old(rng)),
            start == ranged(*old(rng), 0, len as u32),
            !search_stops(map@, cx@, cy@, start as int),
            len == map@.tiles.len(),
            data@ == map@,
            1 <= len <= 240 * 240,
            start < len,
            index < len,
            steps < len,
            index == (start + steps) % (len as int),
            forall|j: int|
                1 <= j <= steps ==> !search_stops(
                    map@,
                    cx@,
                    cy@,
                    #[trigger] around(start as int, j, len as int),
                ),
            search_end(map@, cx@, cy@, start as int, steps + 1) == search_end(
                map@,
                cx@,
                cy@,
                start as int,
                1,
            ),
        decreases len - steps,
    {
        index += 1;
        if index >= len {
            index = 0;
        }
        steps += 1;
        assert(index == around(start as int, steps as int, len as int)) by {
            lemma_next_around(start as int, steps as int, len as int);
        }
        let cell = i_to_xy(map, index);
        if (is_landmark(data.tiles[index]) && is_away_from(cx, cy, cell.0, cell.1)) || index
            == start {
            proof {
                if !search_stops(map@, cx@, cy@, index as int) {
                    lemma_back_at_start(start as int, steps as int, len as int);
                    assert forall|c: int| 0 <= c < len implies !#[trigger] search_stops(
                        map@,
                        cx@,
                        cy@,
                        c,
                    ) by {
                        if c != start {
                            let j = if c > start {
                                c - start
                            } else {
                                c - start + len
                            };
                            if c > start {
                                vstd::arithmetic::div_mod::lemma_small_mod(c as nat, len as nat);
                            } else {
                                lemma_mod_by_len(c, len as int);
                            }
                            assert(around(start as int, j, len as int) == c);
                        }
                    }
                }
            }
            return cell;
        }
        proof {
            if steps >= len {
                lemma_mod_by_len(start as int, len as int);
            }
        }
    }
}

/// One step on from `(start + steps - 1) % len`, around the end, is `(start + steps) % len`.
proof fn lemma_next_around(start: int, steps: int, len: int)
    requires
        0 <= start < len,
        1 <= steps,
    ensures
        (start + steps) % len == if (start + steps - 1) % len + 1 >= len {
            0
        } else {
            (start + steps - 1) % len + 1
        },
{
    let a = start + steps - 1;
    assert(a == len * (a / len) + a % len) by (nonlinear_arith)
        requires
            len > 0,
    ;
    let q = a / len;
    let r = a % len;
    assert(0 <= r < len) by (nonlinear_arith)
        requires
            len > 0,
            r == a % len,
    ;
    if r + 1 >= len {
        assert((len * (q + 1)) % len == 0) by (nonlinear_arith)
            requires
                len > 0,
        ;
        assert(a + 1 == len * (q + 1)) by (nonlinear_arith)
            requires
                a == len * q + r,
                r + 1 == len,
        ;
    } else {
        assert(a + 1 == q * len + (r + 1)) by (nonlinear_arith)
            requires
                a == len * q + r,
        ;
        vstd::arithmetic::div_mod::lemma_fundamental_div_mod_converse(a + 1, len, q, r + 1);
    }
}

/// A search that is back at its start after fewer than `len` steps has taken no step.
proof fn lemma_back_at_start(start: int, steps: int, len: int)
    requires
        0 <= start < len,
        1 <= steps <= len,
        (start + steps) % len == start,
    ensures
        steps == len,
{
    if steps < len {
        if start + steps < len {
            vstd::arithmetic::div_mod::lemma_small_mod((start + steps) as nat, len as nat);
        } else {
            vstd::arithmetic::div_mod::lemma_fundamental_div_mod_converse(
                start + steps,
                len,
                1,
                start + steps - len,
            );
        }
    }
}

/// `len` steps on from `start`, around the end, is `start`.
proof fn lemma_mod_by_len(start: int, len: int)
    requires
        0 <= start < len,
    ensures
        (start + len) % len == start,
{
    vstd::arithmetic::div_mod::lemma_fundamental_div_mod_converse(start + len, len, 1, start);
}

} // verus!
