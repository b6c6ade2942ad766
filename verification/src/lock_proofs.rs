use vstd::prelude::*;
use crate::lock::{LockView, Outcome};

verus! {

/// Whether `order` names each of `n` buttons once.
pub open spec fn each_once(order: Seq<int>, n: int) -> bool {
    &&& order.len() == n
    &&& forall|k: int| 0 <= k < n ==> 0 <= #[trigger] order[k] < n
    &&& forall|j: int, k: int| 0 <= j < k < n ==> #[trigger] order[j] != #[trigger] order[k]
}

/// Whether `order` names the buttons in their turn: button 0 first.
pub open spec fn in_turn(order: Seq<int>) -> bool {
    forall|k: int| 0 <= k < order.len() ==> #[trigger] order[k] == k
}

impl LockView {
    /// Whether no two buttons lie in one cell.
    pub open spec fn apart(self) -> bool {
        forall|i: int, j: int|
            0 <= i < j < self.open.len() ==> !(#[trigger] self.xs[i] == #[trigger] self.xs[j]
                && self.ys[i] == self.ys[j])
    }

    /// Whether every button is closed and no press is counted.
    pub open spec fn untouched(self) -> bool {
        &&& self.press_count == 0
        &&& forall|i: int| 0 <= i < self.open.len() ==> !#[trigger] self.open[i]
    }

    /// Whether the lock has the buttons of `other`, where `other` has them.
    pub open spec fn same_buttons(self, other: LockView) -> bool {
        &&& self.xs == other.xs
        &&& self.ys == other.ys
        &&& self.names == other.names
        &&& self.open.len() == other.open.len()
    }

    /// The lock after something has stepped on the first `upto` buttons that `order` names,
    /// one after the other.
    pub open spec fn pressed_through(self, order: Seq<int>, upto: int) -> LockView
        decreases upto,
    {
        if upto <= 0 {
            self
        } else {
            let before = self.pressed_through(order, upto - 1);
            before.settled(before.xs[order[upto - 1]], before.ys[order[upto - 1]])
        }
    }

    /// A press leaves the buttons where they are, and the lock valid.
    pub proof fn lemma_settled(self, n: nat, x: int, y: int)
        requires
            self.valid(n),
        ensures
            self.settled(x, y).valid(n),
            self.settled(x, y).same_buttons(self),
            self.pressed(x, y).same_buttons(self),
    {
        self.lemma_closed_at(x, y, 0);
        let pressed = self.pressed(x, y);
        if pressed.outcome() == Outcome::Failed {
            assert(self.settled(x, y).press_count == 0);
            if n == 0 {
                assert(pressed.all_open());
            }
        } else {
            match self.closed_at(x, y, 0) {
                Some(i) => {
                    assert(!self.open[i]);
                    assert(self.press_count < n);
                    if pressed.press_count == n {
                        assert(pressed.all_open());
                    }
                },
                None => {},
            }
        }
    }

    /// Among buttons that lie apart, the closed button found in the cell of a closed button
    /// is that button.
    pub proof fn lemma_closed_at_apart(self, button: int)
        requires
            self.xs.len() == self.open.len(),
            self.ys.len() == self.open.len(),
            self.apart(),
            0 <= button < self.open.len(),
            !self.open[button],
        ensures
            self.closed_at(self.xs[button], self.ys[button], 0) == Some(button),
    {
        self.lemma_closed_at(self.xs[button], self.ys[button], 0);
        match self.closed_at(self.xs[button], self.ys[button], 0) {
            Some(i) => {
                if i < button {
                    assert(self.xs[i] == self.xs[button] && self.ys[i] == self.ys[button]);
                } else if i > button {
                    assert(self.xs[button] == self.xs[i] && self.ys[button] == self.ys[i]);
                }
            },
            None => {
                assert(!(!self.open[button] && self.xs[button] == self.xs[button]
                    && self.ys[button] == self.ys[button]));
            },
        }
    }

    /// What pressing the first `upto` of the buttons, each once, makes of an untouched lock:
    /// before the last press, as many presses are counted, and exactly the buttons pressed in
    /// their turn are open. The last press opens the lock if every button was pressed in its
    /// turn, and else leaves it untouched again.
    pub proof fn lemma_pressed_through(self, n: nat, order: Seq<int>, upto: int)
        requires
            self.valid(n),
            self.apart(),
            self.untouched(),
            each_once(order, n as int),
            0 <= upto <= n,
        ensures
            self.pressed_through(order, upto).valid(n),
            self.pressed_through(order, upto).same_buttons(self),
            upto < n ==> self.pressed_through(order, upto).press_count == upto,
            upto < n ==> forall|i: int|
                0 <= i < n ==> #[trigger] self.pressed_through(order, upto).open[i] == (i < upto
                    && order[i] == i),
            upto == n && n > 0 && in_turn(order) ==> self.pressed_through(order, upto).all_open(),
            upto == n && n > 0 && !in_turn(order) ==> self.pressed_through(order, upto)
                == self.cleared(),
            upto >= 1 ==> self.pressed_through(order, upto - 1).pressed(
                self.xs[order[upto - 1]],
                self.ys[order[upto - 1]],
            ).outcome() == (if upto < n {
                Outcome::Pending
            } else if in_turn(order) {
                Outcome::Unlocked
            } else {
                Outcome::Failed
            }),
            upto >= 1 ==> self.pressed_through(order, upto - 1).closed_at(
                self.xs[order[upto - 1]],
                self.ys[order[upto - 1]],
                0,
            ) is Some,
        decreases upto,
    {
        if upto >= 1 {
            self.lemma_pressed_through(n, order, upto - 1);
            let before = self.pressed_through(order, upto - 1);
            let button = order[upto - 1];
            assert(!before.open[button]) by {
                if before.open[button] {
                    assert(order[button] == button);
                    assert(order[button] != order[upto - 1]);
                }
            }
            before.lemma_closed_at_apart(button);
            before.lemma_settled(n, before.xs[button], before.ys[button]);
            let pressed = before.pressed(before.xs[button], before.ys[button]);
            assert forall|i: int| 0 <= i < n implies #[trigger] pressed.open[i] == (i < upto
                && order[i] == i) by {
                if i == upto - 1 {
                } else if i == button {
                    assert(order[i] != order[upto - 1] || i == upto - 1);
                }
            }
            if upto < n {
                assert(!pressed.open[n - 1]);
                assert(!pressed.all_open());
            } else {
                if in_turn(order) {
                    assert(pressed.all_open());
                } else {
                    let k = choose|k: int| 0 <= k < order.len() && #[trigger] order[k] != k;
                    assert(!pressed.open[k]);
                    assert(!pressed.all_open());
                    assert(pressed.cleared().open =~= self.cleared().open);
                    assert(pressed.cleared() == self.cleared());
                }
            }
        }
    }
}

} // verus!
