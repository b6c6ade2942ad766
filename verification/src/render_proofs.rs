use vstd::prelude::*;
use vstd::arithmetic::div_mod::{lemma_fundamental_div_mod, lemma_fundamental_div_mod_converse};
use crate::entities::{EntitiesView, TileView, PLAYER};
use crate::map::MapView;
use crate::render::{CameraView, CurrentTilesView};
use crate::state::{Screen, StateView};

verus! {

impl CameraView {
    /// The camera after it has been asked for `k` tiles.
    pub open spec fn after(self, k: nat) -> CameraView
        decreases k,
    {
        if k == 0 {
            self
        } else {
            self.after((k - 1) as nat).next().0
        }
    }

    /// Whether the camera is at its beginning, with a view of at least one cell that lies on
    /// the map.
    pub open spec fn begins_on_map(self) -> bool {
        &&& self.map.valid()
        &&& !self.done
        &&& self.tile.x == 0
        &&& self.tile.y == 0
        &&& 1 <= self.output_width
        &&& 1 <= self.output_height
        &&& 0 <= self.offset_x
        &&& 0 <= self.offset_y
        &&& self.offset_x + self.output_width <= self.map.width
        &&& self.offset_y + self.output_height <= self.map.height
    }
}

impl CurrentTilesView {
    /// What is left after `k` tiles have been asked for.
    pub open spec fn after(self, k: nat) -> CurrentTilesView
        decreases k,
    {
        if k == 0 {
            self
        } else {
            self.after((k - 1) as nat).next().0
        }
    }

    /// The tile that is handed out after `k` others.
    pub open spec fn nth(self, k: nat) -> Option<TileView> {
        self.after(k).next().1
    }
}

/// Every cell of a map has something to show.
pub proof fn lemma_cell_on_map_has_a_tile(map: MapView, entities: EntitiesView, x: int, y: int)
    requires
        map.valid(),
        map.inside((x, y)),
    ensures
        entities.effective_tile(map, x, y, 0) is Some,
{
    assert(0 <= y * map.width + x < map.width * map.height) by (nonlinear_arith)
        requires
            0 <= x < map.width,
            0 <= y < map.height,
    ;
}

/// Counting on by one goes to the next column, or to the first column of the next row.
pub proof fn lemma_next_cell(k: int, w: int)
    requires
        0 <= k,
        1 <= w,
    ensures
        0 <= k % w < w,
        0 <= k / w,
        k % w + 1 < w ==> (k + 1) % w == k % w + 1 && (k + 1) / w == k / w,
        k % w + 1 >= w ==> (k + 1) % w == 0 && (k + 1) / w == k / w + 1,
        k == w * (k / w) + k % w,
{
    lemma_fundamental_div_mod(k, w);
    vstd::arithmetic::div_mod::lemma_mod_bound(k, w);
    vstd::arithmetic::div_mod::lemma_div_pos_is_pos(k, w);
    let q = k / w;
    let r = k % w;
    if r + 1 < w {
        assert(k + 1 == q * w + (r + 1)) by (nonlinear_arith)
            requires
                k == w * q + r,
        ;
        lemma_fundamental_div_mod_converse(k + 1, w, q, r + 1);
    } else {
        assert(k + 1 == (q + 1) * w + 0) by (nonlinear_arith)
            requires
                k == w * q + r,
                r + 1 == w,
        ;
        lemma_fundamental_div_mod_converse(k + 1, w, q + 1, 0);
    }
}

/// A camera whose view lies on the map goes through the view row by row: after `k` tiles it
/// is at column `k % w` of row `k / w` of the view, and after the last it is done.
pub proof fn lemma_camera_after(c: CameraView, k: nat)
    requires
        c.begins_on_map(),
        k <= c.output_width * c.output_height,
        c.output_width <= 240,
        c.output_height <= 240,
    ensures
        ({
            let w = c.output_width;
            let h = c.output_height;
            let at = c.after(k);
            &&& at.map == c.map
            &&& at.entities == c.entities
            &&& at.offset_x == c.offset_x
            &&& at.offset_y == c.offset_y
            &&& at.output_width == w
            &&& at.output_height == h
            &&& k < w * h ==> !at.done && at.tile.x == k as int % w && at.tile.y == k as int / w
            &&& k < w * h ==> at.next().1 == Some(
                TileView {
                    kind: c.entities.effective_tile(
                        c.map,
                        c.offset_x + k as int % w,
                        c.offset_y + k as int / w,
                        0,
                    )->0,
                    x: k as int % w,
                    y: k as int / w,
                },
            )
            &&& k == w * h ==> at.done
        }),
    decreases k,
{
    let w = c.output_width;
    let h = c.output_height;
    assert(w * h >= 1) by (nonlinear_arith)
        requires
            w >= 1,
            h >= 1,
    ;
    if k > 0 {
        let before = (k - 1) as nat;
        lemma_camera_after(c, before);
        lemma_next_cell(before as int, w);
        let at = c.after(before);
        let column = before as int % w;
        let row = before as int / w;
        assert(row < h) by (nonlinear_arith)
            requires
                before == w * row + column,
                0 <= column,
                before < w * h,
                w >= 1,
        ;
        lemma_cell_on_map_has_a_tile(c.map, c.entities, c.offset_x + column, c.offset_y + row);
        if column + 1 >= w && row + 1 >= h {
            assert(k == w * h) by (nonlinear_arith)
                requires
                    k - 1 == w * row + column,
                    column + 1 == w,
                    row + 1 == h,
            ;
        } else {
            assert(k < w * h) by (nonlinear_arith)
                requires
                    k - 1 == w * row + column,
                    column + 1 < w || row + 1 < h,
                    column + 1 <= w,
                    row + 1 <= h,
                    w >= 1,
            ;
        }
    }
    if k < w * h {
        lemma_next_cell(k as int, w);
        let column = k as int % w;
        let row = k as int / w;
        assert(row < h) by (nonlinear_arith)
            requires
                k == w * row + column,
                0 <= column,
                k < w * h,
                w >= 1,
        ;
        lemma_cell_on_map_has_a_tile(c.map, c.entities, c.offset_x + column, c.offset_y + row);
    }
}

/// While the camera has tiles to hand out, they are what is handed out, and the player and
/// the bubbles wait.
pub proof fn lemma_tiles_after(t: CurrentTilesView, k: nat)
    requires
        t.camera.begins_on_map(),
        k <= t.camera.output_width * t.camera.output_height,
        t.camera.output_width <= 240,
        t.camera.output_height <= 240,
    ensures
        t.after(k).camera == t.camera.after(k),
        t.after(k).player == t.player,
        t.after(k).bubbles == t.bubbles,
    decreases k,
{
    if k > 0 {
        lemma_tiles_after(t, (k - 1) as nat);
        lemma_camera_after(t.camera, (k - 1) as nat);
    }
}

impl StateView {
    /// How many cells of the map are in view.
    pub open spec fn cells_in_view(self) -> int {
        self.output_width() * self.output_height()
    }
}

/// The view of a world lies on its map.
pub proof fn lemma_view_on_map(s: StateView)
    requires
        s.map.valid(),
        s.screen == Screen::Gameplay,
    ensures
        s.rendered().tiles.camera.begins_on_map(),
        s.rendered().tiles.camera.output_width <= 240,
        s.rendered().tiles.camera.output_height <= 240,
        s.cells_in_view() >= 1,
{
    assert(s.output_width() * s.output_height() >= 1) by (nonlinear_arith)
        requires
            s.output_width() >= 1,
            s.output_height() >= 1,
    ;
}

/// The tiles to draw come row by row: the first `w * h` of them, for a view `w` cells wide
/// and `h` cells tall, are what the cells of the view hold, the one handed out after `k` others
/// at column `k % w` of row `k / w`.
pub proof fn tiles_come_row_by_row(s: StateView, k: nat)
    requires
        s.map.valid(),
        s.screen == Screen::Gameplay,
        k < s.cells_in_view(),
    ensures
        ({
            let column = k as int % s.output_width();
            let row = k as int / s.output_width();
            let shown = s.effective_tile(s.offset_x() + column, s.offset_y() + row, 0);
            &&& shown is Some
            &&& 0 <= column < s.output_width()
            &&& 0 <= row < s.output_height()
            &&& s.rendered().tiles.nth(k) == Some(TileView { kind: shown->0, x: column, y: row })
        }),
{
    let tiles = s.rendered().tiles;
    lemma_view_on_map(s);
    lemma_tiles_after(tiles, k);
    lemma_camera_after(tiles.camera, k);
    lemma_next_cell(k as int, s.output_width());
    let w = s.output_width();
    let h = s.output_height();
    let column = k as int % w;
    let row = k as int / w;
    assert(row < h) by (nonlinear_arith)
        requires
            k == w * row + column,
            0 <= column,
            k < w * h,
            w >= 1,
    ;
    lemma_cell_on_map_has_a_tile(s.map, s.entities, s.offset_x() + column, s.offset_y() + row);
}

/// After the cells of the view comes the player, at its place in the view.
pub proof fn player_comes_after_the_map(s: StateView)
    requires
        s.map.valid(),
        s.screen == Screen::Gameplay,
    ensures
        s.rendered().tiles.nth(s.cells_in_view() as nat) == s.rendered().tiles.player,
        s.rendered().tiles.player is Some,
        s.rendered().tiles.player->0.kind == s.entities.mobs[PLAYER as int].kind,
{
    let tiles = s.rendered().tiles;
    lemma_view_on_map(s);
    lemma_tiles_after(tiles, s.cells_in_view() as nat);
    lemma_camera_after(tiles.camera, s.cells_in_view() as nat);
}

/// On the last screen the player is the first tile to draw: the map is left out.
pub proof fn last_screen_leaves_the_map_out(s: StateView)
    requires
        s.screen == Screen::Congraturation,
    ensures
        s.rendered().tiles.nth(0) == s.rendered().tiles.player,
        s.rendered().tiles.player is Some,
{
}

} // verus!
