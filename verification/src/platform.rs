use vstd::prelude::*;

verus! {

/// A set of buttons of the gamepad, one bit each.
pub type Button = u8;

pub const A: Button = 0x01;
pub const B: Button = 0x02;
pub const SELECT: Button = 0x04;
pub const START: Button = 0x08;
pub const UP: Button = 0x10;
pub const DOWN: Button = 0x20;
pub const LEFT: Button = 0x40;
pub const RIGHT: Button = 0x80;

/// Whether every button of `buttons` is among `pad`.
pub open spec fn holds(pad: Button, buttons: Button) -> bool {
    pad & buttons == buttons
}

/// Whether every button of `buttons` is among `pad`.
pub fn contains(pad: Button, buttons: Button) -> (r: bool)
    ensures
        r == holds(pad, buttons),
{
    pad & buttons == buttons
}

/// What is held down in this frame, and what was in the frame before.
#[derive(Clone, Copy, Debug, PartialEq, Eq, Structural)]
pub struct Input {
    pub gamepad: Button,
    pub previous_gamepad: Button,
}

impl Default for Input {
    fn default() -> (r: Input)
        ensures
            r == (Input { gamepad: 0, previous_gamepad: 0 }),
    {
        Input { gamepad: 0, previous_gamepad: 0 }
    }
}

impl Input {
    /// Whether `buttons` are held down now and were not all held down in the frame before.
    pub open spec fn pressed(self, buttons: Button) -> bool {
        !holds(self.previous_gamepad, buttons) && holds(self.gamepad, buttons)
    }

    /// The input after `button` has gone down. A button that was down in the frame before is
    /// taken out of that frame, so that it counts as pressed again.
    pub open spec fn with_press(self, button: Button) -> Input {
        Input {
            gamepad: self.gamepad | button,
            previous_gamepad: if holds(self.previous_gamepad, button) {
                self.previous_gamepad & !button
            } else {
                self.previous_gamepad
            },
        }
    }

    /// The input after `button` has come up.
    pub open spec fn with_release(self, button: Button) -> Input {
        Input { gamepad: self.gamepad & !button, previous_gamepad: self.previous_gamepad }
    }

    /// Whether `buttons` are held down now and were not all held down in the frame before.
    pub fn pressed_this_frame(&self, buttons: Button) -> (r: bool)
        ensures
            r == self.pressed(buttons),
    {
        !contains(self.previous_gamepad, buttons) && contains(self.gamepad, buttons)
    }

    /// `button` has gone down.
    pub fn press(&mut self, button: Button)
        ensures
            *final(self) == old(self).with_press(button),
    {
        if contains(self.previous_gamepad, button) {
            self.previous_gamepad = self.previous_gamepad & !button;
        }
        self.gamepad = self.gamepad | button;
    }

    /// `button` has come up.
    pub fn release(&mut self, button: Button)
        ensures
            *final(self) == old(self).with_release(button),
    {
        self.gamepad = self.gamepad & !button;
    }

    /// The frame is over: what is held down now was held down in the frame before the next.
    pub fn end_frame(&mut self)
        ensures
            *final(self) == (Input {
                gamepad: old(self).gamepad,
                previous_gamepad: old(self).gamepad,
            }),
    {
        self.previous_gamepad = self.gamepad;
    }
}

/// A sound to play once.
#[derive(Clone, Copy, Debug, PartialEq, Eq, Structural)]
pub enum SFX {
    CardPlace,
    CardSlide,
    ButtonPress,
}

/// Collects the sounds that a frame asks for.
pub struct Speaker {
    requests: Vec<SFX>,
}

impl View for Speaker {
    type V = Seq<SFX>;

    closed spec fn view(&self) -> Seq<SFX> {
        self.requests@
    }
}

impl Default for Speaker {
    fn default() -> (r: Speaker)
        ensures
            r@ == Seq::<SFX>::empty(),
    {
        Speaker { requests: Vec::new() }
    }
}

impl Speaker {
    /// Forgets the sounds asked for.
    pub fn clear(&mut self)
        ensures
            final(self)@ == Seq::<SFX>::empty(),
    {
        self.requests.clear();
    }

    /// Asks for `sfx` to be played.
    pub fn request_sfx(&mut self, sfx: SFX)
        ensures
            final(self)@ == old(self)@.push(sfx),
    {
        self.requests.push(sfx);
    }

    /// The sounds asked for, in the order in which they were asked for.
    pub fn slice(&self) -> (r: &[SFX])
        ensures
            r@ == self@,
    {
        self.requests.as_slice()
    }
}

} // verus!
