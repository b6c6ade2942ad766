use vstd::prelude::*;
use vstd::array::array_fill_for_copy_types;
use crate::map::Label;
use crate::rng::{shuffle, shuffled, Xs};
use crate::xy::{X, Y};

verus! {

/// Which button of a lock.
pub type ButtonIndex = usize;

/// How many buttons.
pub type ButtonCount = usize;

/// A lock that opens when its `N` buttons are pressed in their order: button 0 first.
#[derive(Clone, Copy, Debug)]
pub struct PasswordLock<const N: usize> {
    xs: [X; N],
    ys: [Y; N],
    names: [Label; N],
    open: [bool; N],
    press_count: ButtonCount,
}

/// A lock as the contracts see it.
pub struct LockView {
    pub xs: Seq<int>,
    pub ys: Seq<int>,
    pub names: Seq<Label>,
    pub open: Seq<bool>,
    pub press_count: nat,
}

/// How a press left the lock.
#[derive(Clone, Copy, Debug, PartialEq, Eq, Structural)]
pub enum Outcome {
    /// Buttons remain to be pressed.
    Pending,
    /// Every button is open.
    Unlocked,
    /// As many presses as buttons, and not every button open: the attempt is over.
    Failed,
}

/// What a press did.
#[derive(Clone, Copy, Debug, PartialEq, Eq, Structural)]
pub struct Press {
    /// Whether a closed button was in the cell, and so was pressed.
    pub found: bool,
    /// How the lock stood after the press, before a failed attempt was cleared away.
    pub outcome: Outcome,
}

impl LockView {
    /// How many buttons the lock has.
    pub open spec fn len(self) -> nat {
        self.open.len()
    }

    /// Whether every button is open.
    pub open spec fn all_open(self) -> bool {
        forall|i: int| 0 <= i < self.open.len() ==> self.open[i]
    }

    /// What holds of every lock of `n` buttons: a button is open only if more presses have
    /// been counted than its index; and while a button is closed, fewer presses have been counted
    /// than there are buttons.
    pub open spec fn valid(self, n: nat) -> bool {
        &&& self.xs.len() == n
        &&& self.ys.len() == n
        &&& self.names.len() == n
        &&& self.open.len() == n
        &&& self.press_count <= n
        &&& self.press_count == n ==> self.all_open()
        &&& forall|i: int| 0 <= i < self.open.len() && #[trigger] self.open[i] ==> i < self.press_count
    }

    /// The first closed button from index `from` on that lies in the cell `(x, y)`.
    pub open spec fn closed_at(self, x: int, y: int, from: int) -> Option<int>
        decreases self.open.len() - from,
    {
        if from < 0 || from >= self.open.len() {
            None
        } else if !self.open[from] && self.xs[from] == x && self.ys[from] == y {
            Some(from)
        } else {
            self.closed_at(x, y, from + 1)
        }
    }

    /// The lock after something has stepped on the cell `(x, y)`: the first closed button there
    /// is pressed. The press is counted; the button opens if as many presses were counted before
    /// as the button's index says.
    pub open spec fn pressed(self, x: int, y: int) -> LockView {
        match self.closed_at(x, y, 0) {
            Some(i) => LockView {
                xs: self.xs,
                ys: self.ys,
                names: self.names,
                open: if self.press_count == i {
                    self.open.update(i, true)
                } else {
                    self.open
                },
                press_count: self.press_count + 1,
            },
            None => self,
        }
    }

    /// How the lock stands.
    pub open spec fn outcome(self) -> Outcome {
        if self.all_open() {
            Outcome::Unlocked
        } else if self.press_count >= self.open.len() {
            Outcome::Failed
        } else {
            Outcome::Pending
        }
    }

    /// The lock with the same buttons, all closed, and no press counted.
    pub open spec fn cleared(self) -> LockView {
        LockView {
            xs: self.xs,
            ys: self.ys,
            names: self.names,
            open: Seq::new(self.open.len(), |i: int| false),
            press_count: 0,
        }
    }

    /// The lock after something has stepped on the cell `(x, y)` and a failed attempt has been
    /// cleared away.
    pub open spec fn settled(self, x: int, y: int) -> LockView {
        if self.pressed(x, y).outcome() == Outcome::Failed {
            self.pressed(x, y).cleared()
        } else {
            self.pressed(x, y)
        }
    }
}

/// The lock that is made of `buttons` in this order: all closed, no press counted.
pub open spec fn lock_of(buttons: Seq<(X, Y, Label)>) -> LockView {
    LockView {
        xs: Seq::new(buttons.len(), |i: int| buttons[i].0@),
        ys: Seq::new(buttons.len(), |i: int| buttons[i].1@),
        names: Seq::new(buttons.len(), |i: int| buttons[i].2),
        open: Seq::new(buttons.len(), |i: int| false),
        press_count: 0,
    }
}

impl<const N: usize> View for PasswordLock<N> {
    type V = LockView;

    closed spec fn view(&self) -> LockView {
        LockView {
            xs: Seq::new(N as nat, |i: int| self.xs[i]@),
            ys: Seq::new(N as nat, |i: int| self.ys[i]@),
            names: self.names@,
            open: self.open@,
            press_count: self.press_count as nat,
        }
    }
}

impl<const N: usize> PasswordLock<N> {
    #[verifier::type_invariant]
    spec fn sound(self) -> bool {
        self@.valid(N as nat)
    }

    /// A lock of `buttons`, in an order that `rng` decides.
    pub fn new(buttons: [(X, Y, Label); N], rng: &mut Xs) -> (r: Self)
        ensures
            r@ == lock_of(shuffled(*old(rng), buttons@).1),
            *final(rng) == shuffled(*old(rng), buttons@).0,
            r@.valid(N as nat),
    {
        let mut buttons = buttons;
        shuffle(rng, &mut buttons);
        let mut output = PasswordLock {
            xs: array_fill_for_copy_types(X::zero()),
            ys: array_fill_for_copy_types(Y::zero()),
            names: array_fill_for_copy_types(Label::Unlabeled),
            open: array_fill_for_copy_types(false),
            press_count: 0,
        };
        let mut i: usize = 0;
        while i < N
            invariant
                i <= N,
                output.press_count == 0,
                forall|k: int| 0 <= k < N ==> !(#[trigger] output.open@[k]),
                forall|k: int| 0 <= k < i ==> (#[trigger] output.xs@[k])@ == buttons@[k].0@,
                forall|k: int| 0 <= k < i ==> (#[trigger] output.ys@[k])@ == buttons@[k].1@,
                forall|k: int| 0 <= k < i ==> #[trigger] output.names@[k] == buttons@[k].2,
            decreases N - i,
        {
            let (x, y, name) = buttons[i];
            output.xs[i] = x;
            output.ys[i] = y;
            output.names[i] = name;
            i += 1;
        }
        assert(output@ =~= lock_of(buttons@)) by {
            assert(output@.xs =~= lock_of(buttons@).xs);
            assert(output@.ys =~= lock_of(buttons@).ys);
            assert(output@.names =~= lock_of(buttons@).names);
            assert(output@.open =~= lock_of(buttons@).open);
        }
        output
    }

    /// What may be taken for granted of every lock.
    pub fn validity(&self)
        ensures
            self@.valid(N as nat),
    {
        proof {
            use_type_invariant(self);
        }
    }

    /// Closes every button and forgets the presses; the buttons stay where they are.
    pub fn reset(&mut self)
        ensures
            final(self)@ == old(self)@.cleared(),
            final(self)@.valid(N as nat),
    {
        proof {
            use_type_invariant(&*self);
        }
        let cleared = PasswordLock {
            xs: self.xs,
            ys: self.ys,
            names: self.names,
            open: array_fill_for_copy_types(false),
            press_count: 0,
        };
        assert(cleared@.open =~= old(self)@.cleared().open);
        *self = cleared;
    }

    /// How many buttons the lock has.
    pub fn button_count(&self) -> (r: ButtonCount)
        ensures
            r == N,
            r == self@.len(),
    {
        proof {
            use_type_invariant(self);
        }
        N
    }

    /// How many presses have been counted in this attempt.
    pub fn press_count(&self) -> (r: ButtonCount)
        ensures
            r == self@.press_count,
    {
        self.press_count
    }

    /// The cell of the button `index`.
    pub fn button_xy(&self, index: ButtonIndex) -> (r: (X, Y))
        requires
            index < N,
        ensures
            r.0@ == self@.xs[index as int],
            r.1@ == self@.ys[index as int],
    {
        (self.xs[index], self.ys[index])
    }

    /// What the button `index` is called.
    pub fn name(&self, index: ButtonIndex) -> (r: Label)
        requires
            index < N,
        ensures
            r == self@.names[index as int],
    {
        self.names[index]
    }

    /// Whether the button `index` is open.
    pub fn is_open(&self, index: ButtonIndex) -> (r: bool)
        requires
            index < N,
        ensures
            r == self@.open[index as int],
    {
        self.open[index]
    }

    /// Whether every button is open.
    pub fn is_unlocked(&self) -> (r: bool)
        ensures
            r == self@.all_open(),
    {
        let r = all_true(&self.open);
        assert(self@.open == self.open@);
        assert(self.open@.len() == N);
        r
    }

    fn find_closed(&self, x: X, y: Y) -> (r: Option<usize>)
        ensures
            match r {
                Some(i) => i < N && self@.closed_at(x@, y@, 0) == Some(i as int),
                None => self@.closed_at(x@, y@, 0) is None,
            },
    {
        let mut i: usize = 0;
        while i < N
            invariant
                i <= N,
                self@.closed_at(x@, y@, i as int) == self@.closed_at(x@, y@, 0),
            decreases N - i,
        {
            if !self.open[i] && self.xs[i] == x && self.ys[i] == y {
                return Some(i);
            }
            i += 1;
        }
        None
    }

    /// Something has stepped on the cell `(x, y)`: presses the first closed button there, if
    /// there is one, and clears a failed attempt away.
    pub fn press(&mut self, x: X, y: Y) -> (r: Press)
        ensures
            final(self)@ == old(self)@.settled(x@, y@),
            r.found == old(self)@.closed_at(x@, y@, 0) is Some,
            r.outcome == old(self)@.pressed(x@, y@).outcome(),
            final(self)@.valid(N as nat),
    {
        proof {
            use_type_invariant(&*self);
        }
        let found = self.find_closed(x, y);
        match found {
            Some(i) => {
                proof {
                    old(self)@.lemma_closed_at(x@, y@, 0);
                }
                let mut open = self.open;
                if self.press_count == i {
                    open[i] = true;
                }
                assert(open@ == old(self)@.pressed(x@, y@).open);
                let unlocked = all_true(&open);
                if !unlocked && self.press_count + 1 >= N {
                    self.reset();
                    assert(self@ =~= old(self)@.settled(x@, y@));
                    Press { found: true, outcome: Outcome::Failed }
                } else {
                    let pressed = PasswordLock {
                        xs: self.xs,
                        ys: self.ys,
                        names: self.names,
                        open,
                        press_count: self.press_count + 1,
                    };
                    assert(pressed@ =~= old(self)@.settled(x@, y@));
                    *self = pressed;
                    Press {
                        found: true,
                        outcome: if unlocked {
                            Outcome::Unlocked
                        } else {
                            Outcome::Pending
                        },
                    }
                }
            },
            None => {
                let unlocked = self.is_unlocked();
                Press {
                    found: false,
                    outcome: if unlocked {
                        Outcome::Unlocked
                    } else if self.press_count >= N {
                        Outcome::Failed
                    } else {
                        Outcome::Pending
                    },
                }
            },
        }
    }
}

/// Whether every flag is set.
fn all_true<const N: usize>(flags: &[bool; N]) -> (r: bool)
    ensures
        r == (forall|i: int| 0 <= i < N ==> flags@[i]),
{
    let mut i: usize = 0;
    while i < N
        invariant
            i <= N,
            forall|k: int| 0 <= k < i ==> flags@[k],
        decreases N - i,
    {
        if !flags[i] {
            return false;
        }
        i += 1;
    }
    true
}

impl LockView {
    /// `closed_at` finds a closed button in the cell, the first from `from` on.
    pub proof fn lemma_closed_at(self, x: int, y: int, from: int)
        requires
            0 <= from,
            self.xs.len() == self.open.len(),
            self.ys.len() == self.open.len(),
        ensures
            match self.closed_at(x, y, from) {
                Some(i) => from <= i < self.open.len() && !self.open[i] && self.xs[i] == x
                    && self.ys[i] == y && forall|j: int|
                    from <= j < i ==> !(!(#[trigger] self.open[j]) && self.xs[j] == x && self.ys[j]
                        == y),
                None => forall|j: int|
                    from <= j < self.open.len() ==> !(!(#[trigger] self.open[j]) && self.xs[j] == x
                        && self.ys[j] == y),
            },
        decreases self.open.len() - from,
    {
        if from < self.open.len() && !(!self.open[from] && self.xs[from] == x && self.ys[from]
            == y) {
            self.lemma_closed_at(x, y, from + 1);
        }
    }
}

} // verus!
