use vstd::prelude::*;

verus! {

/// Names a tile of the sheet.
pub type TileId = u16;

/// A distance on the screen, in pixels; every sum of these stops at the largest.
pub type Px = u16;

/// A colour: alpha, red, green, blue. Zero stands for no colour.
pub type ARGB = u32;

/// Which colour of the palette.
pub type PaletteIndex = u8;

/// How wide and how tall a tile is drawn.
pub const TILE_WIDTH: Px = 8;
pub const TILE_HEIGHT: Px = 8;

/// How wide and how tall a character is drawn.
pub const CHAR_SIZE: u8 = 8;
pub const CHAR_W: Px = 8;
pub const CHAR_H: Px = 8;

/// The bit of a character that asks for it to be drawn flipped.
pub const FONT_FLIP: u8 = 128;

/// How many tiles lie in one row of the sheet.
pub const TILES_PER_ROW: TileId = 14;

/// How far apart the tiles lie in the sheet: each has an apron of one pixel.
pub const TILE_PITCH: u16 = 9;

/// Where the first tile lies in the sheet.
pub const TILE_BASE_X: u16 = 1;
pub const TILE_BASE_Y: u16 = 1;

/// The tiles that a text box is made of: three rows of three in the sheet, from its row 10 on.
pub const TOP_LEFT: TileId = 140;
pub const TOP: TileId = 141;
pub const TOP_RIGHT: TileId = 142;
pub const MIDDLE_LEFT: TileId = 154;
pub const MIDDLE: TileId = 155;
pub const MIDDLE_RIGHT: TileId = 156;
pub const BOTTOM_LEFT: TileId = 168;
pub const BOTTOM: TileId = 169;
pub const BOTTOM_RIGHT: TileId = 170;

/// A place in the sheet of sprites.
#[derive(Clone, Copy, Debug, PartialEq, Eq, Structural)]
pub struct SpriteXY {
    pub x: u16,
    pub y: u16,
}

/// A rectangle of the screen, by its first corner and its size.
#[derive(Clone, Copy, Debug, PartialEq, Eq, Structural)]
pub struct Rect {
    pub x: Px,
    pub y: Px,
    pub w: Px,
    pub h: Px,
}

/// One thing to draw: the sprite at `sprite_xy`, into `rect`, in the colour `colour_override`
/// if that is not zero.
#[derive(Clone, Copy, Debug, PartialEq, Eq, Structural)]
pub struct Command {
    pub sprite_xy: SpriteXY,
    pub rect: Rect,
    pub colour_override: ARGB,
}

/// What the drawing goes by: how large the screen is, where the font lies in the sheet of
/// sprites, and the colours to print in.
pub struct Sheet {
    /// How wide the screen is.
    pub screen_width: Px,
    /// How tall the screen is.
    pub screen_height: Px,
    /// The row of the sheet at which the font begins.
    pub font_base_y: u16,
    /// How wide the font's part of the sheet is.
    pub font_width: u16,
    pub palette: Vec<ARGB>,
}

impl Sheet {
    /// How many characters lie in one row of the font.
    pub open spec fn chars_per_row(self) -> int {
        self.font_width as int / CHAR_SIZE as int
    }

    /// Whether every character has a place in the sheet.
    pub open spec fn valid(self) -> bool {
        &&& self.chars_per_row() >= 1
        &&& self.font_base_y + (255int / self.chars_per_row()) * CHAR_SIZE <= u16::MAX
    }

    /// Where the character `character` lies in the sheet.
    pub open spec fn char_xy(self, character: u8) -> SpriteXY {
        SpriteXY {
            x: ((character as int % self.chars_per_row()) * CHAR_SIZE) as u16,
            y: (self.font_base_y + (character as int / self.chars_per_row()) * CHAR_SIZE) as u16,
        }
    }
}

/// `a + b`, or the largest distance where that is too large.
pub open spec fn px_sum(a: Px, b: Px) -> Px {
    if a + b > Px::MAX {
        Px::MAX
    } else {
        (a + b) as Px
    }
}

/// `a - b`, or zero where that is less.
pub open spec fn px_less(a: Px, b: Px) -> Px {
    if a < b {
        0
    } else {
        (a - b) as Px
    }
}

/// How far `from` lies before `until`; zero where it does not.
pub open spec fn gap(from: Px, until: Px) -> int {
    if from >= until {
        0
    } else {
        until - from
    }
}

/// Where the tile `tile_id` lies in the sheet.
pub open spec fn tile_xy(tile_id: TileId) -> SpriteXY {
    SpriteXY {
        x: (TILE_BASE_X + (tile_id % TILES_PER_ROW) * TILE_PITCH) as u16,
        y: (TILE_BASE_Y + (tile_id / TILES_PER_ROW) * TILE_PITCH) as u16,
    }
}

/// The command that draws the tile `tile_id` with its first corner at `(x, y)`.
pub open spec fn tile_command(tile_id: TileId, x: Px, y: Px) -> Command {
    Command {
        sprite_xy: tile_xy(tile_id),
        rect: Rect { x, y, w: TILE_WIDTH, h: TILE_HEIGHT },
        colour_override: 0,
    }
}

/// The command that prints `character` at `(x, y)` in the colour `colour`.
pub open spec fn char_command(sheet: Sheet, character: u8, x: Px, y: Px, colour: PaletteIndex) -> Command {
    Command {
        sprite_xy: sheet.char_xy(character),
        rect: Rect { x, y, w: CHAR_W, h: CHAR_H },
        colour_override: sheet.palette@[colour as int],
    }
}

/// The commands that print `characters` from index `from` on, side by side from `(x, y)` on.
pub open spec fn text_commands(
    sheet: Sheet,
    characters: Seq<u8>,
    from: int,
    x: Px,
    y: Px,
    colour: PaletteIndex,
) -> Seq<Command>
    decreases characters.len() - from,
{
    if from < 0 || from >= characters.len() {
        Seq::empty()
    } else {
        seq![char_command(sheet, characters[from], x, y, colour)] + text_commands(
            sheet,
            characters,
            from + 1,
            px_sum(x, CHAR_W),
            y,
            colour,
        )
    }
}

/// The commands that draw the tile `tile_id` side by side in row `y`, from `x` on, as long as
/// the first corner lies before `until`.
pub open spec fn row_commands(tile_id: TileId, x: Px, until: Px, y: Px) -> Seq<Command>
    decreases gap(x, until),
{
    if x >= until {
        Seq::empty()
    } else {
        seq![tile_command(tile_id, x, y)] + row_commands(tile_id, px_sum(x, TILE_WIDTH), until, y)
    }
}

/// The commands that fill the rows from `y` on, as long as `y` lies before `until_y`, each from
/// `x` to `until_x`, with the middle tile.
pub open spec fn fill_commands(x: Px, until_x: Px, y: Px, until_y: Px) -> Seq<Command>
    decreases gap(y, until_y),
{
    if y >= until_y {
        Seq::empty()
    } else {
        row_commands(MIDDLE, x, until_x, y) + fill_commands(
            x,
            until_x,
            px_sum(y, TILE_HEIGHT),
            until_y,
        )
    }
}

/// The commands that draw the top and the bottom edge, column by column.
pub open spec fn edge_row_commands(x: Px, until: Px, top: Px, bottom: Px) -> Seq<Command>
    decreases gap(x, until),
{
    if x >= until {
        Seq::empty()
    } else {
        seq![tile_command(TOP, x, top), tile_command(BOTTOM, x, bottom)] + edge_row_commands(
            px_sum(x, TILE_WIDTH),
            until,
            top,
            bottom,
        )
    }
}

/// The commands that draw the left and the right edge, row by row.
pub open spec fn edge_column_commands(y: Px, until: Px, left: Px, right: Px) -> Seq<Command>
    decreases gap(y, until),
{
    if y >= until {
        Seq::empty()
    } else {
        seq![tile_command(MIDDLE_LEFT, left, y), tile_command(MIDDLE_RIGHT, right, y)]
            + edge_column_commands(px_sum(y, TILE_HEIGHT), until, left, right)
    }
}

/// The commands that draw a text box between the corners `(min_x, min_y)` and `(max_x,
/// max_y)`: the inside, the top and bottom edges, the left and right edges, the four corners.
pub open spec fn text_box_commands(min_x: Px, min_y: Px, max_x: Px, max_y: Px) -> Seq<Command> {
    let after_left_corner = px_sum(min_x, TILE_WIDTH);
    let before_right_corner = px_less(max_x, TILE_WIDTH);
    let below_top_corner = px_sum(min_y, TILE_HEIGHT);
    let above_bottom_corner = px_less(max_y, TILE_HEIGHT);
    fill_commands(after_left_corner, before_right_corner, below_top_corner, above_bottom_corner)
        + edge_row_commands(after_left_corner, before_right_corner, min_y, above_bottom_corner)
        + edge_column_commands(below_top_corner, above_bottom_corner, min_x, before_right_corner)
        + seq![
        tile_command(TOP_LEFT, min_x, min_y),
        tile_command(TOP_RIGHT, before_right_corner, min_y),
        tile_command(BOTTOM_LEFT, min_x, above_bottom_corner),
        tile_command(BOTTOM_RIGHT, before_right_corner, above_bottom_corner),
    ]
}

/// `a + b`, or the largest distance where that is too large.
pub fn px_add(a: Px, b: Px) -> (r: Px)
    ensures
        r == px_sum(a, b),
{
    if a > Px::MAX - b {
        Px::MAX
    } else {
        a + b
    }
}

/// `a - b`, or zero where that is less.
pub fn px_sub(a: Px, b: Px) -> (r: Px)
    ensures
        r == px_less(a, b),
{
    if a < b {
        0
    } else {
        a - b
    }
}

/// Where the tile `tile_id` lies in the sheet.
pub fn id_to_xy(tile_id: TileId) -> (r: SpriteXY)
    ensures
        r == tile_xy(tile_id),
{
    let column: u16 = tile_id % TILES_PER_ROW;
    let row: u16 = tile_id / TILES_PER_ROW;
    SpriteXY { x: TILE_BASE_X + column * TILE_PITCH, y: TILE_BASE_Y + row * TILE_PITCH }
}

/// The list of what to draw in a frame.
pub struct Commands {
    commands: Vec<Command>,
}

impl View for Commands {
    type V = Seq<Command>;

    closed spec fn view(&self) -> Seq<Command> {
        self.commands@
    }
}

impl Default for Commands {
    fn default() -> (r: Commands)
        ensures
            r@ == Seq::<Command>::empty(),
    {
        Commands { commands: Vec::new() }
    }
}

impl Commands {
    /// The commands, in the order in which they are to be drawn.
    pub fn slice(&self) -> (r: &[Command])
        ensures
            r@ == self@,
    {
        self.commands.as_slice()
    }

    /// Forgets the commands.
    pub fn clear(&mut self)
        ensures
            final(self)@ == Seq::<Command>::empty(),
    {
        self.commands.clear();
    }

    /// Adds the command to draw the sprite at `sprite_xy` into `rect`, in its own colours.
    pub fn sspr(&mut self, sprite_xy: SpriteXY, rect: Rect)
        ensures
            final(self)@ == old(self)@.push(Command { sprite_xy, rect, colour_override: 0 }),
    {
        self.commands.push(Command { sprite_xy, rect, colour_override: 0 });
    }

    /// Adds the command to print `character` at `(x, y)` in the colour `colour`.
    pub fn print_char(&mut self, sheet: &Sheet, character: u8, x: Px, y: Px, colour: PaletteIndex)
        requires
            sheet.valid(),
            colour < sheet.palette@.len(),
        ensures
            final(self)@ == old(self)@.push(char_command(*sheet, character, x, y, colour)),
    {
        let per_row: u16 = sheet.font_width / (CHAR_SIZE as u16);
        let column: u16 = (character as u16) % per_row;
        let row: u16 = (character as u16) / per_row;
        assert(row * 8 <= (255int / per_row as int) * 8 && column * 8 <= 255 * 8) by (nonlinear_arith)
            requires
                per_row >= 1,
                row == (character as int) / (per_row as int),
                column == (character as int) % (per_row as int),
                character <= 255,
        ;
        let sprite_xy = SpriteXY {
            x: column * (CHAR_SIZE as u16),
            y: sheet.font_base_y + row * (CHAR_SIZE as u16),
        };
        self.commands.push(
            Command {
                sprite_xy,
                rect: Rect { x, y, w: CHAR_W, h: CHAR_H },
                colour_override: sheet.palette[colour as usize],
            },
        );
    }

    /// Adds the commands to print `characters` side by side from `(x, y)` on.
    pub fn print(&mut self, sheet: &Sheet, characters: &[u8], x: Px, y: Px, colour: PaletteIndex)
        requires
            sheet.valid(),
            colour < sheet.palette@.len(),
        ensures
            final(self)@ == old(self)@ + text_commands(*sheet, characters@, 0, x, y, colour),
    {
        let mut current_x: Px = x;
        let mut i: usize = 0;
        assert(self@ =~= old(self)@ + Seq::<Command>::empty());
        while i < characters.len()
            invariant
                i <= characters@.len(),
                sheet.valid(),
                colour < sheet.palette@.len(),
                self@ + text_commands(*sheet, characters@, i as int, current_x, y, colour)
                    == old(self)@ + text_commands(*sheet, characters@, 0, x, y, colour),
            decreases characters@.len() - i,
        {
            let ghost before = self@;
            let ghost rest = text_commands(
                *sheet,
                characters@,
                i + 1,
                px_sum(current_x, CHAR_W),
                y,
                colour,
            );
            self.print_char(sheet, characters[i], current_x, y, colour);
            assert(self@ + rest =~= before + (seq![
                char_command(*sheet, characters@[i as int], current_x, y, colour),
            ] + rest));
            current_x = px_add(current_x, CHAR_W);
            i += 1;
        }
        assert(self@ + Seq::<Command>::empty() =~= self@);
    }

    /// Adds the command to draw the tile `tile_id` with its first corner at `(x, y)`.
    pub fn draw_tile(&mut self, tile_id: TileId, x: Px, y: Px)
        ensures
            final(self)@ == old(self)@.push(tile_command(tile_id, x, y)),
    {
        self.sspr(id_to_xy(tile_id), Rect { x, y, w: TILE_WIDTH, h: TILE_HEIGHT });
    }

    fn draw_row(&mut self, tile_id: TileId, x: Px, until: Px, y: Px)
        ensures
            final(self)@ == old(self)@ + row_commands(tile_id, x, until, y),
    {
        let mut fill_x: Px = x;
        assert(self@ =~= old(self)@ + Seq::<Command>::empty());
        while fill_x < until
            invariant
                self@ + row_commands(tile_id, fill_x, until, y) == old(self)@ + row_commands(
                    tile_id,
                    x,
                    until,
                    y,
                ),
            decreases gap(fill_x, until),
        {
            let ghost before = self@;
            let ghost rest = row_commands(tile_id, px_sum(fill_x, TILE_WIDTH), until, y);
            self.draw_tile(tile_id, fill_x, y);
            assert(self@ + rest =~= before + (seq![tile_command(tile_id, fill_x, y)] + rest));
            fill_x = px_add(fill_x, TILE_WIDTH);
        }
        assert(self@ + Seq::<Command>::empty() =~= self@);
    }

    /// Adds the commands to draw a text box between the corners `(min_x, min_y)` and `(max_x,
    /// max_y)`.
    pub fn draw_text_box(&mut self, min_x: Px, min_y: Px, max_x: Px, max_y: Px)
        ensures
            final(self)@ == old(self)@ + text_box_commands(min_x, min_y, max_x, max_y),
    {
        let after_left_corner: Px = px_add(min_x, TILE_WIDTH);
        let before_right_corner: Px = px_sub(max_x, TILE_WIDTH);
        let below_top_corner: Px = px_add(min_y, TILE_HEIGHT);
        let above_bottom_corner: Px = px_sub(max_y, TILE_HEIGHT);
        let ghost fill = fill_commands(
            after_left_corner,
            before_right_corner,
            below_top_corner,
            above_bottom_corner,
        );
        let ghost edge_rows = edge_row_commands(
            after_left_corner,
            before_right_corner,
            min_y,
            above_bottom_corner,
        );
        let ghost edge_columns = edge_column_commands(
            below_top_corner,
            above_bottom_corner,
            min_x,
            before_right_corner,
        );
        assert(self@ =~= old(self)@ + Seq::<Command>::empty());
        let mut fill_y: Px = below_top_corner;
        while fill_y < above_bottom_corner
            invariant
                self@ + fill_commands(
                    after_left_corner,
                    before_right_corner,
                    fill_y,
                    above_bottom_corner,
                ) == old(self)@ + fill,
            decreases gap(fill_y, above_bottom_corner),
        {
            let ghost before = self@;
            let ghost rest = fill_commands(
                after_left_corner,
                before_right_corner,
                px_sum(fill_y, TILE_HEIGHT),
                above_bottom_corner,
            );
            self.draw_row(MIDDLE, after_left_corner, before_right_corner, fill_y);
            assert(self@ + rest =~= before + (row_commands(
                MIDDLE,
                after_left_corner,
                before_right_corner,
                fill_y,
            ) + rest));
            fill_y = px_add(fill_y, TILE_HEIGHT);
        }
        assert(self@ =~= old(self)@ + fill);
        let mut fill_x: Px = after_left_corner;
        while fill_x < before_right_corner
            invariant
                self@ + edge_row_commands(fill_x, before_right_corner, min_y, above_bottom_corner)
                    == old(self)@ + fill + edge_rows,
            decreases gap(fill_x, before_right_corner),
        {
            let ghost before = self@;
            let ghost rest = edge_row_commands(
                px_sum(fill_x, TILE_WIDTH),
                before_right_corner,
                min_y,
                above_bottom_corner,
            );
            self.draw_tile(TOP, fill_x, min_y);
            self.draw_tile(BOTTOM, fill_x, above_bottom_corner);
            assert(self@ + rest =~= before + (seq![
                tile_command(TOP, fill_x, min_y),
                tile_command(BOTTOM, fill_x, above_bottom_corner),
            ] + rest));
            fill_x = px_add(fill_x, TILE_WIDTH);
        }
        assert(self@ =~= old(self)@ + fill + edge_rows);
        let mut fill_y: Px = below_top_corner;
        while fill_y < above_bottom_corner
            invariant
                self@ + edge_column_commands(fill_y, above_bottom_corner, min_x, before_right_corner)
                    == old(self)@ + fill + edge_rows + edge_columns,
            decreases gap(fill_y, above_bottom_corner),
        {
            let ghost before = self@;
            let ghost rest = edge_column_commands(
                px_sum(fill_y, TILE_HEIGHT),
                above_bottom_corner,
                min_x,
                before_right_corner,
            );
            self.draw_tile(MIDDLE_LEFT, min_x, fill_y);
            self.draw_tile(MIDDLE_RIGHT, before_right_corner, fill_y);
            assert(self@ + rest =~= before + (seq![
                tile_command(MIDDLE_LEFT, min_x, fill_y),
                tile_command(MIDDLE_RIGHT, before_right_corner, fill_y),
            ] + rest));
            fill_y = px_add(fill_y, TILE_HEIGHT);
        }
        assert(self@ =~= old(self)@ + fill + edge_rows + edge_columns);
        self.draw_tile(TOP_LEFT, min_x, min_y);
        self.draw_tile(TOP_RIGHT, before_right_corner, min_y);
        self.draw_tile(BOTTOM_LEFT, min_x, above_bottom_corner);
        self.draw_tile(BOTTOM_RIGHT, before_right_corner, above_bottom_corner);
        assert(self@ =~= old(self)@ + text_box_commands(min_x, min_y, max_x, max_y));
    }
}

} // verus!
