use vstd::prelude::*;
use crate::gfx::{
    CHAR_SIZE, text_box_commands, text_commands, tile_command, Command, Commands, PaletteIndex, Px, Sheet,
    TILE_HEIGHT, TILE_WIDTH,
};
use crate::map::GameMap;
use crate::platform::{Button, Input, Speaker, SFX};
use crate::render::{CurrentTilesView, RenderInfo, RenderView};
use crate::rng::{seeded, stepped_by, Seed};
use crate::state::{drawn_dog_kinds, fresh, PrintView};
use crate::text::SegmentView;
use crate::xy::{X, Y};

verus! {

/// The colour that text is printed in.
pub const TEXT_COLOUR: PaletteIndex = 6;

/// How wide and how tall the part of the screen is that the grid takes up at most, in tiles.
pub const GRID_SPAN: Px = 240;

impl Sheet {
    /// Whether the screen has room for the grid, the font for every character, and the palette
    /// a colour for text.
    pub open spec fn fits(self) -> bool {
        &&& self.valid()
        &&& self.screen_width >= GRID_SPAN
        &&& self.screen_height >= GRID_SPAN
        &&& TEXT_COLOUR < self.palette@.len()
    }

    /// Where on the screen the column `x` of the view begins.
    pub open spec fn column_px(self, x: int) -> Px {
        ((self.screen_width - GRID_SPAN) / 2 + x * TILE_WIDTH) as Px
    }

    /// Where on the screen the row `y` of the view begins.
    pub open spec fn row_px(self, y: int) -> Px {
        ((self.screen_height - GRID_SPAN) / 2 + y * TILE_HEIGHT) as Px
    }

    /// The commands that draw the tiles still to come from `tiles`.
    pub open spec fn tile_commands(self, tiles: CurrentTilesView) -> Seq<Command>
        decreases tiles.left(),
        when tiles.valid()
    {
        proof {
            tiles.lemma_left();
        }
        match tiles.next().1 {
            Some(tile) => seq![
                tile_command(tile.kind, self.column_px(tile.x), self.row_px(tile.y)),
            ] + self.tile_commands(tiles.next().0),
            None => Seq::empty(),
        }
    }

    /// The commands that print the lines of `segments` from index `from` on.
    pub open spec fn segment_commands(self, segments: Seq<SegmentView>, from: int) -> Seq<Command>
        decreases segments.len() - from,
    {
        if from < 0 || from >= segments.len() {
            Seq::empty()
        } else {
            text_commands(
                self,
                segments[from].line(),
                0,
                self.column_px(segments[from].x),
                self.row_px(segments[from].y),
                TEXT_COLOUR,
            ) + self.segment_commands(segments, from + 1)
        }
    }

    /// The commands that print the lines of the head-up display from index `from` on.
    pub open spec fn hud_commands(self, prints: Seq<PrintView>, from: int) -> Seq<Command>
        decreases prints.len() - from,
    {
        if from < 0 || from >= prints.len() {
            Seq::empty()
        } else {
            text_commands(self, prints[from].text, 0, prints[from].x, prints[from].y, TEXT_COLOUR)
                + self.hud_commands(prints, from + 1)
        }
    }

    /// The commands that draw `view`: the tiles, the text box, the lines of text, the head-up
    /// display.
    pub open spec fn commands_for(self, view: RenderView) -> Seq<Command> {
        self.tile_commands(view.tiles) + (match view.text_box {
            Some(rect) => text_box_commands(
                self.column_px(rect.min_x),
                self.row_px(rect.min_y),
                self.column_px(rect.max_x),
                self.row_px(rect.max_y),
            ),
            None => Seq::empty(),
        }) + self.segment_commands(view.message_segments, 0) + self.hud_commands(view.hud, 0)
    }
}

impl Sheet {
    /// Whether the sheet fits.
    pub fn is_fit(&self) -> (r: bool)
        ensures
            r == self.fits(),
    {
        let per_row: u16 = self.font_width / (CHAR_SIZE as u16);
        if per_row == 0 {
            return false;
        }
        let rows: u16 = 255 / per_row;
        assert(rows * 8 <= 255 * 8) by (nonlinear_arith)
            requires
                rows <= 255,
        ;
        let font_height: u16 = rows * (CHAR_SIZE as u16);
        font_height <= u16::MAX - self.font_base_y && self.screen_width >= GRID_SPAN
            && self.screen_height >= GRID_SPAN && (TEXT_COLOUR as usize) < self.palette.len()
    }
}

/// Where on the screen the column `x` of the view begins.
pub fn to_x(sheet: &Sheet, x: X) -> (r: Px)
    requires
        sheet.fits(),
    ensures
        r == sheet.column_px(x@),
{
    (sheet.screen_width - GRID_SPAN) / 2 + (x.get() as Px) * TILE_WIDTH
}

/// Where on the screen the row `y` of the view begins.
pub fn to_y(sheet: &Sheet, y: Y) -> (r: Px)
    requires
        sheet.fits(),
    ensures
        r == sheet.row_px(y@),
{
    (sheet.screen_height - GRID_SPAN) / 2 + (y.get() as Px) * TILE_HEIGHT
}

/// Adds to `commands` what draws the world of `state`.
pub fn render(commands: &mut Commands, sheet: &Sheet, state: &crate::state::State)
    requires
        sheet.fits(),
    ensures
        final(commands)@ == old(commands)@ + sheet.commands_for(state@.rendered()),
{
    let RenderInfo { tiles, text_boxes, message_segments, hud } = state.render_info();
    let mut tiles = tiles;
    let ghost view = state@.rendered();
    let ghost tiles_drawn = sheet.tile_commands(view.tiles);
    assert(commands@ =~= old(commands)@ + Seq::<Command>::empty());
    loop
        invariant_except_break
            sheet.fits(),
            tiles@.valid(),
            commands@ + sheet.tile_commands(tiles@) == old(commands)@ + tiles_drawn,
        ensures
            commands@ == old(commands)@ + tiles_drawn,
        decreases tiles@.left(),
    {
        let ghost before = commands@;
        let ghost coming = tiles@;
        proof {
            coming.lemma_left();
        }
        match tiles.next() {
            Some(tile) => {
                commands.draw_tile(tile.kind, to_x(sheet, tile.x), to_y(sheet, tile.y));
                assert(commands@ + sheet.tile_commands(tiles@) =~= before + (seq![
                    tile_command(tile.kind, sheet.column_px(tile.x@), sheet.row_px(tile.y@)),
                ] + sheet.tile_commands(tiles@)));
            },
            None => {
                assert(before + Seq::<Command>::empty() =~= before);
                break ;
            },
        }
    }
    let ghost box_drawn = match view.text_box {
        Some(rect) => text_box_commands(
            sheet.column_px(rect.min_x),
            sheet.row_px(rect.min_y),
            sheet.column_px(rect.max_x),
            sheet.row_px(rect.max_y),
        ),
        None => Seq::empty(),
    };
    match text_boxes {
        Some(text_box) => {
            commands.draw_text_box(
                to_x(sheet, text_box.min_x),
                to_y(sheet, text_box.min_y),
                to_x(sheet, text_box.max_x),
                to_y(sheet, text_box.max_y),
            );
        },
        None => {
            assert(commands@ + Seq::<Command>::empty() =~= commands@);
        },
    }
    assert(commands@ == old(commands)@ + tiles_drawn + box_drawn);
    let ghost lines_drawn = sheet.segment_commands(view.message_segments, 0);
    let mut i: usize = 0;
    while i < message_segments.len()
        invariant
            sheet.fits(),
            i <= message_segments@.len(),
            crate::text::lines_of(message_segments@) == view.message_segments,
            crate::text::lines_valid(view.message_segments),
            commands@ + sheet.segment_commands(view.message_segments, i as int) == old(commands)@
                + tiles_drawn + box_drawn + lines_drawn,
        decreases message_segments@.len() - i,
    {
        let ghost before = commands@;
        let ghost rest = sheet.segment_commands(view.message_segments, i + 1);
        let segment = &message_segments[i];
        assert(segment@ == view.message_segments[i as int]);
        commands.print(
            sheet,
            segment.as_slice(),
            to_x(sheet, segment.x),
            to_y(sheet, segment.y),
            TEXT_COLOUR,
        );
        assert(commands@ + rest =~= before + (text_commands(
            *sheet,
            segment@.line(),
            0,
            sheet.column_px(segment@.x),
            sheet.row_px(segment@.y),
            TEXT_COLOUR,
        ) + rest));
        i += 1;
    }
    assert(commands@ + Seq::<Command>::empty() =~= commands@);
    let ghost hud_drawn = sheet.hud_commands(view.hud, 0);
    let mut i: usize = 0;
    while i < hud.prints.len()
        invariant
            sheet.fits(),
            i <= hud.prints@.len(),
            crate::render::prints_of(hud.prints@) == view.hud,
            commands@ + sheet.hud_commands(view.hud, i as int) == old(commands)@ + tiles_drawn
                + box_drawn + lines_drawn + hud_drawn,
        decreases hud.prints@.len() - i,
    {
        let ghost before = commands@;
        let ghost rest = sheet.hud_commands(view.hud, i + 1);
        let print = &hud.prints[i];
        assert(print@ == view.hud[i as int]);
        commands.print(sheet, print.text.as_slice(), print.x, print.y, TEXT_COLOUR);
        assert(commands@ + rest =~= before + (text_commands(
            *sheet,
            print@.text,
            0,
            print.x,
            print.y,
            TEXT_COLOUR,
        ) + rest));
        i += 1;
    }
    assert(commands@ + Seq::<Command>::empty() =~= commands@);
    assert(commands@ =~= old(commands)@ + sheet.commands_for(view));
}

/// A game in progress, with what goes in and what comes out of each frame.
pub struct State<'a> {
    pub game_state: crate::state::State<'a>,
    pub commands: Commands,
    pub input: Input,
    pub speaker: Speaker,
    pub sheet: Sheet,
}

impl<'a> State<'a> {
    /// A game on `map`, made from `seed`, to be drawn by `sheet`.
    pub fn new(map: &'a GameMap, seed: Seed, sheet: Sheet) -> (r: State<'a>)
        ensures
            r.game_state@ == fresh(
                map@,
                stepped_by(seeded(seed@), 22),
                drawn_dog_kinds(seeded(seed@)),
            ),
            r.game_state@.valid(),
            r.commands@ == Seq::<Command>::empty(),
            r.speaker@ == Seq::<SFX>::empty(),
            r.input == (Input { gamepad: 0, previous_gamepad: 0 }),
            r.sheet == sheet,
    {
        State {
            game_state: crate::state::State::new(map, seed),
            commands: Commands::default(),
            input: Input::default(),
            speaker: Speaker::default(),
            sheet,
        }
    }

    /// One frame: the world moves on by the input, and what to draw and what to play are
    /// made anew.
    pub fn frame(&mut self) -> (r: (&[Command], &[SFX]))
        requires
            old(self).sheet.fits(),
        ensures
            r.0@ == final(self).commands@,
            r.1@ == final(self).speaker@,
            final(self).game_state.moment(&final(self).speaker) == old(self).game_state@.after_frame(
                old(self).input,
                Seq::empty(),
            ),
            final(self).game_state@.valid(),
            final(self).commands@ == final(self).sheet.commands_for(
                final(self).game_state@.rendered(),
            ),
            final(self).input == (Input {
                gamepad: old(self).input.gamepad,
                previous_gamepad: old(self).input.gamepad,
            }),
            final(self).sheet == old(self).sheet,
    {
        self.commands.clear();
        self.speaker.clear();
        update_and_render(
            &mut self.commands,
            &self.sheet,
            &mut self.game_state,
            self.input,
            &mut self.speaker,
        );
        self.input.end_frame();
        assert(Seq::<Command>::empty() + self.sheet.commands_for(self.game_state@.rendered())
            =~= self.sheet.commands_for(self.game_state@.rendered()));
        (self.commands.slice(), self.speaker.slice())
    }

    /// `button` has gone down.
    pub fn press(&mut self, button: Button)
        ensures
            final(self).input == old(self).input.with_press(button),
            final(self).game_state@ == old(self).game_state@,
            final(self).commands@ == old(self).commands@,
            final(self).speaker@ == old(self).speaker@,
            final(self).sheet == old(self).sheet,
    {
        self.input.press(button);
    }

    /// `button` has come up.
    pub fn release(&mut self, button: Button)
        ensures
            final(self).input == old(self).input.with_release(button),
            final(self).game_state@ == old(self).game_state@,
            final(self).commands@ == old(self).commands@,
            final(self).speaker@ == old(self).speaker@,
            final(self).sheet == old(self).sheet,
    {
        self.input.release(button);
    }
}

/// Moves the world on by one frame.
pub fn update(state: &mut crate::state::State, input: Input, speaker: &mut Speaker)
    ensures
        final(state).moment(final(speaker)) == old(state)@.after_frame(input, old(speaker)@),
        final(state)@.valid(),
{
    state.frame(input, speaker);
}

/// Moves the world on by one frame and adds to `commands` what draws it.
pub fn update_and_render(
    commands: &mut Commands,
    sheet: &Sheet,
    state: &mut crate::state::State,
    input: Input,
    speaker: &mut Speaker,
)
    requires
        sheet.fits(),
    ensures
        final(state).moment(final(speaker)) == old(state)@.after_frame(input, old(speaker)@),
        final(state)@.valid(),
        final(commands)@ == old(commands)@ + sheet.commands_for(final(state)@.rendered()),
{
    update(state, input, speaker);
    render(commands, sheet, state);
}

} // verus!
