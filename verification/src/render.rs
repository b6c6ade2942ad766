use vstd::prelude::*;
use crate::entities::{
    get_effective_tile, Entities, EntitiesView, Tile, TileView, FIRST_DOG, PLAYER,
};
use crate::map::{GameMap, MapView};
use crate::messages::{
    congraturation_segments, message_lines, ramble_text, reveal_text,
};
use crate::state::{DogState, DogStateView, MessageInfo, Print, PrintView, Screen, State, StateView};
use crate::text::{
    fit_in_text_box, lines_of, lines_valid, Segment, SegmentView, TEXT_BOX_TOP_ROW,
};
use crate::tile::EXCLAMATION_BUBBLE;
use crate::xy::{
    clamped, eight_neighbors, h as h_of, held_between, neighbors_of, w as w_of, y as y_of, Rect,
    RectView, H, W, X, Y,
};

verus! {

/// How wide the view of the world is, in tiles, where the map is as wide.
pub const VIEW_WIDTH: u8 = 32;

/// How tall the text box is, in tiles.
pub const TEXT_BOX_HEIGHT: u8 = 7;

/// The head-up display.
pub struct Hud<'prints> {
    pub prints: &'prints [Print],
}

/// The text box to draw, if any.
pub type TextBoxes = Option<Rect>;

/// The lines of text to draw.
pub type MessageSegments = Vec<Segment>;

/// What there is to draw of a world.
pub struct RenderInfo<'state> {
    pub tiles: CurrentTiles<'state>,
    pub text_boxes: TextBoxes,
    pub message_segments: MessageSegments,
    pub hud: Hud<'state>,
}

/// Hands out the tiles of the map that are in view, row by row.
struct CameraIter<'entities> {
    tile: Tile,
    done: bool,
    map: &'entities GameMap,
    entities: &'entities Entities,
    offset_x: W,
    offset_y: H,
    output_width: W,
    output_height: H,
}

/// A `CameraIter` as the contracts see it.
pub struct CameraView {
    /// The place on the screen of the tile to hand out next, and the kind handed out last.
    pub tile: TileView,
    pub done: bool,
    pub map: MapView,
    pub entities: EntitiesView,
    pub offset_x: int,
    pub offset_y: int,
    pub output_width: int,
    pub output_height: int,
}

impl CameraView {
    /// The camera after it has handed out a tile, and the tile: the effective tile of the
    /// cell that the place on the screen shows. The place then moves on, to the next row at the
    /// end of a row. After the last row, and where a cell has no tile, nothing is handed out.
    pub open spec fn next(self) -> (CameraView, Option<TileView>) {
        if self.done {
            (self, None)
        } else {
            match self.entities.effective_tile(
                self.map,
                clamped(self.tile.x + self.offset_x),
                clamped(self.tile.y + self.offset_y),
                0,
            ) {
                Some(kind) => {
                    let shown = TileView { kind, x: self.tile.x, y: self.tile.y };
                    let next_x = clamped(self.tile.x + 1);
                    let next_y = clamped(self.tile.y + 1);
                    if next_x >= clamped(0 + self.output_width) {
                        (
                            CameraView {
                                tile: TileView { kind, x: 0, y: next_y },
                                done: next_y >= clamped(0 + self.output_height),
                                ..self
                            },
                            Some(shown),
                        )
                    } else {
                        (
                            CameraView { tile: TileView { kind, x: next_x, y: self.tile.y }, ..self },
                            Some(shown),
                        )
                    }
                },
                None => (self, None),
            }
        }
    }
}

impl CameraView {
    /// No more than this many tiles are still to come from the camera.
    pub open spec fn left(self) -> int {
        if self.done {
            0
        } else {
            (240 - self.tile.y) * 241 + (240 - self.tile.x) + 1
        }
    }

    /// Whether the place on the screen lies in the coordinate range, and the view is no taller
    /// than the range.
    pub open spec fn valid(self) -> bool {
        &&& 0 <= self.tile.x <= 240
        &&& 0 <= self.tile.y <= 240
        &&& 0 <= self.output_height <= 240
    }

    /// Each tile handed out leaves fewer to come.
    pub proof fn lemma_left(self)
        requires
            self.valid(),
        ensures
            0 <= self.left(),
            self.next().1 is Some ==> self.next().0.left() < self.left(),
            self.next().1 is None ==> self.next().0 == self,
            self.next().0.valid(),
    {
        assert((240 - self.tile.y) * 241 >= 0) by (nonlinear_arith)
            requires
                self.tile.y <= 240,
        ;
        if !self.done {
            let next_y = clamped(self.tile.y + 1);
            assert((240 - next_y) * 241 >= 0) by (nonlinear_arith)
                requires
                    next_y <= 240,
            ;
            assert(self.tile.y < 240 ==> (240 - next_y) * 241 + 241 == (240 - self.tile.y) * 241)
                by (nonlinear_arith)
                requires
                    self.tile.y < 240 ==> next_y == self.tile.y + 1,
            ;
        }
    }
}

impl<'entities> View for CameraIter<'entities> {
    type V = CameraView;

    closed spec fn view(&self) -> CameraView {
        CameraView {
            tile: self.tile@,
            done: self.done,
            map: self.map@,
            entities: self.entities@,
            offset_x: self.offset_x@,
            offset_y: self.offset_y@,
            output_width: self.output_width@,
            output_height: self.output_height@,
        }
    }
}

impl<'entities> CameraIter<'entities> {
    fn next(&mut self) -> (r: Option<Tile>)
        ensures
            final(self)@ == old(self)@.next().0,
            match r {
                Some(tile) => old(self)@.next().1 == Some(tile@),
                None => old(self)@.next().1 is None,
            },
    {
        if self.done {
            return None;
        }
        let x: X = self.tile.x + self.offset_x;
        let y: Y = self.tile.y + self.offset_y;
        match get_effective_tile(self.map, self.entities, x, y) {
            Some(tile_kind) => {
                self.tile.kind = tile_kind;
                let output = self.tile;
                self.tile.x = self.tile.x + W::one();
                let right_x: X = X::zero() + self.output_width;
                if self.tile.x.get() >= right_x.get() {
                    self.tile.x = X::zero();
                    self.tile.y = self.tile.y + H::one();
                    let bottom_y: Y = Y::zero() + self.output_height;
                    if self.tile.y.get() >= bottom_y.get() {
                        // The next call finds nothing left.
                        self.done = true;
                    }
                }
                Some(output)
            },
            None => None,
        }
    }
}

/// Hands out the speech bubbles that are in view.
struct BubbleIter {
    tile: Tile,
    speech_bubbles: [Option<Tile>; 22],
    index: usize,
    offset_x: W,
    offset_y: H,
    output_width: W,
    output_height: H,
}

/// A `BubbleIter` as the contracts see it.
pub struct BubblesView {
    /// The bubble handed out last, at its place on the screen.
    pub tile: TileView,
    /// The bubbles, each in its cell of the world; one that has been looked at is gone.
    pub speech_bubbles: Seq<Option<TileView>>,
    pub index: int,
    pub offset_x: int,
    pub offset_y: int,
    pub output_width: int,
    pub output_height: int,
}

impl BubblesView {
    /// Whether the cell of `bubble` is in view.
    pub open spec fn in_view(self, bubble: TileView) -> bool {
        let min_x = clamped(0 + self.offset_x);
        let min_y = clamped(0 + self.offset_y);
        &&& bubble.x >= min_x
        &&& bubble.y >= min_y
        &&& bubble.x < clamped(min_x + self.output_width)
        &&& bubble.y < clamped(min_y + self.output_height)
    }

    /// After the bubble at `index` has been looked at.
    pub open spec fn passed(self) -> BubblesView {
        BubblesView {
            speech_bubbles: self.speech_bubbles.update(self.index, None),
            index: self.index + 1,
            ..self
        }
    }

    /// `bubble` at its place on the screen.
    pub open spec fn on_screen(self, bubble: TileView) -> TileView {
        TileView {
            kind: bubble.kind,
            x: clamped(bubble.x - self.offset_x),
            y: clamped(bubble.y - self.offset_y),
        }
    }

    /// The bubbles after the next of them that is in view has been handed out, and that bubble
    /// at its place on the screen.
    pub open spec fn next(self) -> (BubblesView, Option<TileView>)
        decreases self.speech_bubbles.len() - self.index,
    {
        if self.index < 0 || self.index >= self.speech_bubbles.len() {
            (self, None)
        } else {
            match self.speech_bubbles[self.index] {
                Some(bubble) => if self.in_view(bubble) {
                    (
                        BubblesView { tile: self.on_screen(bubble), ..self.passed() },
                        Some(self.on_screen(bubble)),
                    )
                } else {
                    self.passed().next()
                },
                None => self.passed().next(),
            }
        }
    }
}

impl BubblesView {
    /// No more than this many bubbles are still to come.
    pub open spec fn left(self) -> int {
        if self.index >= self.speech_bubbles.len() {
            0
        } else if self.index < 0 {
            (self.speech_bubbles.len() + 1) as int
        } else {
            self.speech_bubbles.len() - self.index
        }
    }

    /// Each bubble handed out leaves fewer to come.
    pub proof fn lemma_left(self)
        ensures
            0 <= self.left(),
            self.next().1 is Some ==> self.next().0.left() < self.left(),
        decreases self.speech_bubbles.len() - self.index,
    {
        if 0 <= self.index < self.speech_bubbles.len() {
            self.passed().lemma_left();
        }
    }
}

/// The bubbles as the contracts see them.
pub open spec fn bubbles_of(bubbles: Seq<Option<Tile>>) -> Seq<Option<TileView>> {
    Seq::new(
        bubbles.len(),
        |i: int|
            match bubbles[i] {
                Some(tile) => Some(tile@),
                None => None,
            },
    )
}

impl View for BubbleIter {
    type V = BubblesView;

    closed spec fn view(&self) -> BubblesView {
        BubblesView {
            tile: self.tile@,
            speech_bubbles: bubbles_of(self.speech_bubbles@),
            index: self.index as int,
            offset_x: self.offset_x@,
            offset_y: self.offset_y@,
            output_width: self.output_width@,
            output_height: self.output_height@,
        }
    }
}

impl BubbleIter {
    fn next(&mut self) -> (r: Option<Tile>)
        ensures
            final(self)@ == old(self)@.next().0,
            match r {
                Some(tile) => old(self)@.next().1 == Some(tile@),
                None => old(self)@.next().1 is None,
            },
    {
        let min_x: X = X::zero() + self.offset_x;
        let min_y: Y = Y::zero() + self.offset_y;
        let max_x: X = min_x + self.output_width;
        let max_y: Y = min_y + self.output_height;
        while self.index < 22
            invariant
                self@.next() == old(self)@.next(),
                self@.speech_bubbles.len() == 22,
                self.offset_x == old(self).offset_x,
                self.offset_y == old(self).offset_y,
                self.output_width == old(self).output_width,
                self.output_height == old(self).output_height,
                min_x@ == clamped(0 + self.offset_x@),
                min_y@ == clamped(0 + self.offset_y@),
                max_x@ == clamped(min_x@ + self.output_width@),
                max_y@ == clamped(min_y@ + self.output_height@),
            decreases 22 - self.index,
        {
            let ghost before = self@;
            let index = self.index;
            self.index += 1;
            let looked_at = self.speech_bubbles[index];
            self.speech_bubbles[index] = None;
            assert(self@.speech_bubbles =~= before.speech_bubbles.update(index as int, None));
            assert(self@ == before.passed());
            match looked_at {
                Some(bubble_tile) => {
                    assert(before.speech_bubbles[index as int] == Some(bubble_tile@));
                    if bubble_tile.x.get() >= min_x.get() && bubble_tile.y.get() >= min_y.get()
                        && bubble_tile.x.get() < max_x.get() && bubble_tile.y.get() < max_y.get() {
                        // Taken off last: an earlier one would stop at zero too soon.
                        self.tile.x = bubble_tile.x - self.offset_x;
                        self.tile.y = bubble_tile.y - self.offset_y;
                        self.tile.kind = bubble_tile.kind;
                        return Some(self.tile);
                    }
                },
                None => {
                    assert(before.speech_bubbles[index as int] is None);
                },
            }
        }
        None
    }
}

/// Hands out, one by one, the tiles to draw: those of the map in view, then the player, then
/// the speech bubbles in view.
pub struct CurrentTiles<'camera> {
    camera: CameraIter<'camera>,
    player: Option<Tile>,
    bubbles: BubbleIter,
}

/// `CurrentTiles` as the contracts see them.
pub struct CurrentTilesView {
    pub camera: CameraView,
    pub player: Option<TileView>,
    pub bubbles: BubblesView,
}

impl CurrentTilesView {
    /// What is left after the next tile has been handed out, and that tile.
    pub open spec fn next(self) -> (CurrentTilesView, Option<TileView>) {
        let filmed = CurrentTilesView { camera: self.camera.next().0, ..self };
        if self.camera.next().1 is Some {
            (filmed, self.camera.next().1)
        } else if self.player is Some {
            (CurrentTilesView { player: None, ..filmed }, self.player)
        } else {
            (CurrentTilesView { bubbles: self.bubbles.next().0, ..filmed }, self.bubbles.next().1)
        }
    }
}

impl CurrentTilesView {
    /// Whether the camera is valid.
    pub open spec fn valid(self) -> bool {
        self.camera.valid()
    }

    /// No more than this many tiles are still to come.
    pub open spec fn left(self) -> int {
        self.camera.left() + (if self.player is Some {
            1int
        } else {
            0int
        }) + self.bubbles.left()
    }

    /// Each tile handed out leaves fewer to come, so that they come to an end.
    pub proof fn lemma_left(self)
        requires
            self.valid(),
        ensures
            0 <= self.left(),
            self.next().1 is Some ==> self.next().0.left() < self.left(),
            self.next().0.valid(),
    {
        self.camera.lemma_left();
        self.bubbles.lemma_left();
    }
}

impl<'camera> View for CurrentTiles<'camera> {
    type V = CurrentTilesView;

    closed spec fn view(&self) -> CurrentTilesView {
        CurrentTilesView {
            camera: self.camera@,
            player: match self.player {
                Some(tile) => Some(tile@),
                None => None,
            },
            bubbles: self.bubbles@,
        }
    }
}

impl<'camera> CurrentTiles<'camera> {
    /// Hands out the next tile to draw, and nothing when all have been handed out.
    pub fn next(&mut self) -> (r: Option<Tile>)
        ensures
            final(self)@ == old(self)@.next().0,
            match r {
                Some(tile) => old(self)@.next().1 == Some(tile@),
                None => old(self)@.next().1 is None,
            },
    {
        match self.camera.next() {
            Some(tile) => {
                return Some(tile);
            },
            None => {},
        }
        match self.player {
            Some(tile) => {
                self.player = None;
                return Some(tile);
            },
            None => {},
        }
        self.bubbles.next()
    }
}

/// What there is to draw of a world, as the contracts see it.
pub struct RenderView {
    pub tiles: CurrentTilesView,
    pub text_box: Option<RectView>,
    pub message_segments: Seq<SegmentView>,
    pub hud: Seq<PrintView>,
}

/// A `Print` slice as the contracts see it.
pub open spec fn prints_of(prints: Seq<Print>) -> Seq<PrintView> {
    Seq::new(prints.len(), |i: int| prints[i]@)
}

impl StateView {
    /// How many columns of the world are in view.
    pub open spec fn output_width(self) -> int {
        held_between(clamped(VIEW_WIDTH as int), 0, self.map.width)
    }

    /// How many rows of the world are in view.
    pub open spec fn output_height(self) -> int {
        held_between(clamped(clamped(TEXT_BOX_TOP_ROW as int) - 0), 0, self.map.height)
    }

    /// The column of the world at the left edge of the view: such that the player is in the
    /// middle, but for the edges of the map, which the view never goes beyond.
    pub open spec fn offset_x(self) -> int {
        held_between(
            clamped(self.entities.mobs[PLAYER as int].x - clamped(0 + self.output_width() / 2)),
            0,
            clamped(self.map.width - self.output_width()),
        )
    }

    /// The row of the world at the top edge of the view.
    pub open spec fn offset_y(self) -> int {
        held_between(
            clamped(self.entities.mobs[PLAYER as int].y - clamped(0 + self.output_height() / 2)),
            0,
            clamped(self.map.height - self.output_height()),
        )
    }

    /// The speech bubble of the dog `dog`: a dog that sniffs has one in one of the eight cells
    /// around it, a cell on every 8 frames.
    pub open spec fn speech_bubble(self, dog: int) -> Option<TileView> {
        match self.dog_states[dog] {
            DogStateView::Sniffing => {
                let cell = neighbors_of(
                    self.entities.mobs[FIRST_DOG + dog].x,
                    self.entities.mobs[FIRST_DOG + dog].y,
                )[((self.frame_count >> 3) & 0b111) as int];
                Some(TileView { kind: EXCLAMATION_BUBBLE, x: cell.0, y: cell.1 })
            },
            _ => None,
        }
    }

    /// The box behind the message, if there is a message: as wide as the view, below it.
    pub open spec fn text_box(self) -> Option<RectView> {
        if self.screen == Screen::Gameplay && self.message_info != MessageInfo::NoMessage {
            Some(
                RectView {
                    min_x: 0,
                    min_y: clamped(0 + self.output_height()),
                    max_x: clamped(0 + self.output_width()),
                    max_y: clamped(
                        clamped(0 + self.output_height()) + clamped(TEXT_BOX_HEIGHT as int),
                    ),
                },
            )
        } else {
            None
        }
    }

    /// What there is to draw of the world. The last screen shows no tiles of the map.
    pub open spec fn rendered(self) -> RenderView {
        RenderView {
            tiles: CurrentTilesView {
                camera: CameraView {
                    tile: TileView { kind: 0, x: 0, y: 0 },
                    done: self.screen == Screen::Congraturation,
                    map: self.map,
                    entities: self.entities,
                    offset_x: self.offset_x(),
                    offset_y: self.offset_y(),
                    output_width: self.output_width(),
                    output_height: self.output_height(),
                },
                player: Some(
                    TileView {
                        kind: self.entities.mobs[PLAYER as int].kind,
                        x: clamped(self.entities.mobs[PLAYER as int].x - self.offset_x()),
                        y: clamped(self.entities.mobs[PLAYER as int].y - self.offset_y()),
                    },
                ),
                bubbles: BubblesView {
                    tile: TileView { kind: 0, x: 0, y: 0 },
                    speech_bubbles: Seq::new(22, |dog: int| self.speech_bubble(dog)),
                    index: 0,
                    offset_x: self.offset_x(),
                    offset_y: self.offset_y(),
                    output_width: self.output_width(),
                    output_height: self.output_height(),
                },
            },
            text_box: self.text_box(),
            message_segments: message_lines(self.screen, self.message_info, self.lock.names),
            hud: seq![self.hud],
        }
    }
}

impl<'a> State<'a> {
    /// The lines of text on show.
    pub fn message_segments(&self) -> (r: MessageSegments)
        ensures
            lines_of(r@) == message_lines(self@.screen, self@.message_info, self@.lock.names),
            lines_valid(lines_of(r@)),
    {
        self.password_lock.validity();
        match self.screen {
            Screen::Congraturation => congraturation_segments(),
            Screen::Gameplay => {
                let text: &'static str = match self.message_info {
                    MessageInfo::NoMessage => {
                        let none: Vec<Segment> = Vec::new();
                        assert(lines_of(none@) =~= Seq::empty());
                        return none;
                    },
                    MessageInfo::PasswordReveal { index } => {
                        if index < self.password_lock.button_count() {
                            reveal_text(self.password_lock.name(index), index)
                        } else {
                            "missing_password_reveal_message"
                        }
                    },
                    MessageInfo::PasswordRevealRefused => "someone else told already. i won't.",
                    MessageInfo::ForgotPassword => "i forgot my part of the password",
                    MessageInfo::Ramble(index) => ramble_text(index),
                    MessageInfo::GhostOoo => "... Ooooo ... ooooo .. ooooo! ...",
                };
                fit_in_text_box(text.as_bytes()).into_vec()
            },
        }
    }

    /// What there is to draw.
    pub fn render_info(&self) -> (r: RenderInfo<'_>)
        ensures
            r.tiles@ == self@.rendered().tiles,
            r.tiles@.valid(),
            match r.text_boxes {
                Some(rect) => self@.rendered().text_box == Some(rect@),
                None => self@.rendered().text_box is None,
            },
            lines_of(r.message_segments@) == self@.rendered().message_segments,
            lines_valid(lines_of(r.message_segments@)),
            prints_of(r.hud.prints@) == self@.rendered().hud,
    {
        let data = self.map.data();
        let map_w: W = data.width;
        let map_h: H = data.height;
        let output_width: W = w_of(VIEW_WIDTH).clamp_to(W::zero(), map_w);
        let output_height: H = (y_of(TEXT_BOX_TOP_ROW) - Y::zero()).clamp_to(H::zero(), map_h);
        let player = self.entities.player;
        assert(player@ == self@.entities.mobs[PLAYER as int]);
        let mut offset_x: W = player.x - (X::zero() + output_width.halve());
        let mut offset_y: H = player.y - (Y::zero() + output_height.halve());
        // The view never shows what lies beyond the edge of the world.
        offset_x = offset_x.clamp_to(W::zero(), map_w - output_width);
        offset_y = offset_y.clamp_to(H::zero(), map_h - output_height);
        let mut camera = CameraIter {
            map: self.map,
            entities: &self.entities,
            offset_x,
            offset_y,
            output_width,
            output_height,
            done: false,
            tile: Tile::default(),
        };
        let message_segments = self.message_segments();
        let text_box: Option<Rect> = match self.screen {
            Screen::Gameplay => match self.message_info {
                MessageInfo::NoMessage => None,
                _ => {
                    let min_y: Y = Y::zero() + output_height;
                    Some(
                        Rect {
                            min_x: X::zero(),
                            min_y,
                            max_x: X::zero() + output_width,
                            max_y: min_y + h_of(TEXT_BOX_HEIGHT),
                        },
                    )
                },
            },
            Screen::Congraturation => {
                // No tiles of the map are wanted.
                camera.done = true;
                None
            },
        };
        let player_tile = Some(
            Tile { kind: player.kind, x: player.x - offset_x, y: player.y - offset_y },
        );
        let mut speech_bubbles: [Option<Tile>; 22] = [None; 22];
        let mut dog: usize = 0;
        while dog < 22
            invariant
                dog <= 22,
                forall|k: int|
                    0 <= k < dog ==> #[trigger] bubbles_of(speech_bubbles@)[k]
                        == self@.speech_bubble(k),
            decreases 22 - dog,
        {
            let ghost earlier = speech_bubbles@;
            assert(self@.dog_states[dog as int] == self.dog_states[dog as int]@);
            let bubble: Option<Tile> = match self.dog_states[dog] {
                DogState::Sniffing => {
                    let sniffer = self.entities.dogs[dog];
                    assert(sniffer@ == self@.entities.mobs[FIRST_DOG + dog]);
                    let xys = eight_neighbors(sniffer.x, sniffer.y);
                    let count: u16 = self.frame_count;
                    let phase: u16 = (count >> 3) & 0b111;
                    assert(phase < 8) by (bit_vector)
                        requires
                            phase == (count >> 3) & 0b111,
                    ;
                    let which: usize = phase as usize;
                    let (x, y) = xys[which];
                    assert(x@ == neighbors_of(sniffer.x@, sniffer.y@)[which as int].0);
                    assert(y@ == neighbors_of(sniffer.x@, sniffer.y@)[which as int].1);
                    Some(Tile { kind: EXCLAMATION_BUBBLE, x, y })
                },
                _ => None,
            };
            speech_bubbles[dog] = bubble;
            assert(bubbles_of(speech_bubbles@)[dog as int] == self@.speech_bubble(dog as int));
            assert forall|k: int| 0 <= k < dog implies #[trigger] bubbles_of(speech_bubbles@)[k]
                == self@.speech_bubble(k) by {
                assert(speech_bubbles@[k] == earlier[k]);
                assert(bubbles_of(earlier)[k] == self@.speech_bubble(k));
            }
            dog += 1;
        }
        let bubbles = BubbleIter {
            speech_bubbles,
            index: 0,
            offset_x,
            offset_y,
            output_width,
            output_height,
            tile: Tile::default(),
        };
        assert(bubbles@.speech_bubbles =~= self@.rendered().tiles.bubbles.speech_bubbles);
        // Reading the height brings its range into sight for the contract.
        let _ = output_height.get();
        let hud = Hud { prints: self.hud_prints.as_slice() };
        assert(prints_of(hud.prints@) =~= self@.rendered().hud);
        RenderInfo {
            tiles: CurrentTiles { camera, player: player_tile, bubbles },
            text_boxes: text_box,
            message_segments,
            hud,
        }
    }
}

} // verus!
