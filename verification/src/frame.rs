use vstd::prelude::*;
use crate::entities::PLAYER;
use crate::mobs::Moment;
use crate::movement::Dir;
use crate::platform::{contains, holds, Input, Speaker, SFX, A, DOWN, LEFT, RIGHT, UP};
use crate::state::{FrameCount, PrintView, Screen, State, StateView};

verus! {

/// The decimal digits of `n`, as characters.
pub open spec fn digits(n: nat) -> Seq<u8>
    decreases n,
{
    if n < 10 {
        seq![(0x30 + n) as u8]
    } else {
        digits(n / 10).push((0x30 + n % 10) as u8)
    }
}

/// The line of the head-up display: the frame, and in brackets the player's column and row.
pub open spec fn hud_line(frame_count: FrameCount, x: int, y: int) -> Seq<u8> {
    digits(frame_count as nat) + seq![0x20u8, 0x28u8] + digits(x as nat) + seq![0x2Cu8, 0x20u8]
        + digits(y as nat) + seq![0x29u8]
}

/// `buffer` with `line` written over its beginning, as far as the buffer goes.
pub open spec fn written_over(buffer: Seq<u8>, line: Seq<u8>) -> Seq<u8> {
    Seq::new(
        buffer.len(),
        |i: int|
            if i < line.len() {
                line[i]
            } else {
                buffer[i]
            },
    )
}

impl StateView {
    /// The world after the player's buttons have been dealt with, and the sound of it: a step
    /// for the direction that has gone down in this frame, and after it, if the action button
    /// has gone down, a turn to the direction that is held.
    pub open spec fn after_buttons(self, input: Input) -> (StateView, Option<SFX>) {
        let (moved, sound) = if input.pressed(UP) {
            self.after_move(Dir::Up)
        } else if input.pressed(DOWN) {
            self.after_move(Dir::Down)
        } else if input.pressed(LEFT) {
            self.after_move(Dir::Left)
        } else if input.pressed(RIGHT) {
            self.after_move(Dir::Right)
        } else {
            (self, None)
        };
        let turned = if input.pressed(A) {
            if holds(input.gamepad, UP) {
                moved.after_interact(Dir::Up)
            } else if holds(input.gamepad, DOWN) {
                moved.after_interact(Dir::Down)
            } else if holds(input.gamepad, LEFT) {
                moved.after_interact(Dir::Left)
            } else if holds(input.gamepad, RIGHT) {
                moved.after_interact(Dir::Right)
            } else {
                moved
            }
        } else {
            moved
        };
        (turned, sound)
    }

    /// The world after the clock has gone on by a frame. On the last screen it stands. When the
    /// count of frames is used up, time is rewound.
    pub open spec fn after_tick(self) -> StateView {
        if self.screen == Screen::Congraturation {
            self
        } else if self.frame_count == FrameCount::MAX {
            self.rewound()
        } else {
            StateView { frame_count: (self.frame_count + 1) as FrameCount, ..self }
        }
    }

    /// The world with the line of the head-up display written anew.
    pub open spec fn after_hud(self) -> StateView {
        StateView {
            hud: PrintView {
                text: written_over(
                    self.hud.text,
                    hud_line(
                        self.frame_count,
                        self.entities.mobs[PLAYER as int].x,
                        self.entities.mobs[PLAYER as int].y,
                    ),
                ),
                x: self.hud.x,
                y: self.hud.y,
            },
            ..self
        }
    }

    /// The world after one frame with the input `input`, and the sounds asked for, after those
    /// of `sounds`. The roster have their turns: turtle, crab, phantom, panoptikhan, zombie, the
    /// dogs. Then the player's buttons are dealt with, the clock goes on, and the head-up
    /// display is written.
    pub open spec fn after_frame(self, input: Input, sounds: Seq<SFX>) -> Moment {
        let roster_done = (Moment { state: self, sounds }).after_roster();
        let (played, sound) = roster_done.state.after_buttons(input);
        Moment {
            state: played.after_tick().after_hud(),
            sounds: match sound {
                Some(sfx) => roster_done.sounds.push(sfx),
                None => roster_done.sounds,
            },
        }
    }
}

impl Moment {
    /// The moment after all of the roster but the player have had their turns.
    pub open spec fn after_roster(self) -> Moment {
        self.after_turtle().after_crab().after_phantom().after_panoptikhan().after_zombie().after_dogs(
            0,
        )
    }
}

/// Writes the decimal digits of `n` after what `line` holds.
pub fn push_decimal(line: &mut Vec<u8>, n: usize)
    ensures
        final(line)@ == old(line)@ + digits(n as nat),
    decreases n,
{
    if n >= 10 {
        push_decimal(line, n / 10);
    }
    let digit: u8 = 0x30 + (n % 10) as u8;
    line.push(digit);
    assert(line@ =~= old(line)@ + digits(n as nat));
}

impl<'a> State<'a> {
    /// Deals with the player's buttons.
    pub fn player_turn(&mut self, input: Input) -> (r: Option<SFX>)
        ensures
            (final(self)@, r) == old(self)@.after_buttons(input),
            final(self)@.valid(),
    {
        let sfx_opt = if input.pressed_this_frame(UP) {
            self.move_player(Dir::Up)
        } else if input.pressed_this_frame(DOWN) {
            self.move_player(Dir::Down)
        } else if input.pressed_this_frame(LEFT) {
            self.move_player(Dir::Left)
        } else if input.pressed_this_frame(RIGHT) {
            self.move_player(Dir::Right)
        } else {
            None
        };
        if input.pressed_this_frame(A) {
            if contains(input.gamepad, UP) {
                self.interact(Dir::Up)
            } else if contains(input.gamepad, DOWN) {
                self.interact(Dir::Down)
            } else if contains(input.gamepad, LEFT) {
                self.interact(Dir::Left)
            } else if contains(input.gamepad, RIGHT) {
                self.interact(Dir::Right)
            }
        }
        self.validity();
        sfx_opt
    }

    /// The clock goes on by a frame.
    pub fn tick(&mut self)
        ensures
            final(self)@ == old(self)@.after_tick(),
            final(self)@.valid(),
    {
        match self.screen {
            Screen::Congraturation => {},
            Screen::Gameplay => {
                if self.frame_count == FrameCount::MAX {
                    self.reset_time();
                } else {
                    self.frame_count = self.frame_count + 1;
                }
            },
        }
        self.validity();
    }

    /// Writes the line of the head-up display.
    pub fn write_hud(&mut self)
        ensures
            final(self)@ == old(self)@.after_hud(),
    {
        let mut line: Vec<u8> = Vec::new();
        push_decimal(&mut line, self.frame_count as usize);
        line.push(0x20);
        line.push(0x28);
        push_decimal(&mut line, self.entities.player.x.usize());
        line.push(0x2C);
        line.push(0x20);
        push_decimal(&mut line, self.entities.player.y.usize());
        line.push(0x29);
        assert(line@ =~= hud_line(
            self.frame_count,
            self@.entities.mobs[PLAYER as int].x,
            self@.entities.mobs[PLAYER as int].y,
        ));
        assert(old(self)@.hud.text.len() == 16);
        let mut i: usize = 0;
        while i < 16 && i < line.len()
            invariant
                i <= 16,
                i <= line@.len(),
                self@ == (StateView { hud: self@.hud, ..old(self)@ }),
                self@.hud.x == old(self)@.hud.x,
                self@.hud.y == old(self)@.hud.y,
                self@.hud.text.len() == 16,
                forall|k: int| 0 <= k < i ==> #[trigger] self@.hud.text[k] == line@[k],
                forall|k: int| i <= k < 16 ==> #[trigger] self@.hud.text[k] == old(self)@.hud.text[k],
            decreases 16 - i,
        {
            self.hud_prints[0].text[i] = line[i];
            i += 1;
        }
        assert(self@.hud.text =~= written_over(old(self)@.hud.text, line@));
    }

    /// All of the roster but the player have their turns.
    pub fn roster_turn(&mut self, speaker: &mut Speaker)
        ensures
            final(self).moment(final(speaker)) == old(self).moment(old(speaker)).after_roster(),
    {
        self.turtle_turn(speaker);
        self.crab_turn(speaker);
        self.phantom_turn(speaker);
        self.panoptikhan_turn(speaker);
        self.zombie_turn(speaker);
        self.dogs_turn(speaker);
    }

    /// One frame with the input `input`; the sounds that it asks for go to `speaker`.
    pub fn frame(&mut self, input: Input, speaker: &mut Speaker)
        ensures
            final(self).moment(final(speaker)) == old(self)@.after_frame(input, old(speaker)@),
            final(self)@.valid(),
    {
        self.roster_turn(speaker);
        let sfx_opt = self.player_turn(input);
        match sfx_opt {
            Some(sfx) => {
                speaker.request_sfx(sfx);
            },
            None => {},
        }
        self.tick();
        self.write_hud();
        self.validity();
    }
}

} // verus!
