use vstd::prelude::*;
use vstd::std_specs::cmp::PartialEqSpecImpl;
use vstd::std_specs::ops::{AddSpecImpl, SubSpecImpl};

verus! {

/// The machine integer behind every coordinate and extent.
pub type Inner = u8;

/// The largest horizontal position, and the largest width.
pub const MAX_W_INNER: Inner = 0xF0;

/// The largest vertical position, and the largest height.
pub const MAX_H_INNER: Inner = 0xF0;

/// The largest value any coordinate or extent takes, as a mathematical integer.
pub open spec fn limit() -> int {
    240
}

/// `i` brought into the coordinate range `0..=limit()`.
pub open spec fn clamped(i: int) -> int {
    if i < 0 {
        0
    } else if i > limit() {
        limit()
    } else {
        i
    }
}

/// `i` held between `lo` and `hi`; `lo` wins where the bounds cross.
pub open spec fn held_between(i: int, lo: int, hi: int) -> int {
    if i < lo {
        lo
    } else if i > hi {
        hi
    } else {
        i
    }
}

/// An absolute horizontal grid position, never beyond `MAX_W_INNER`.
#[derive(Clone, Copy, Debug, PartialOrd, Ord, Hash)]
pub struct X(Inner);

impl View for X {
    type V = int;

    closed spec fn view(&self) -> int {
        self.0 as int
    }
}

impl PartialEq for X {
    fn eq(&self, other: &X) -> (r: bool) {
        self.0 == other.0
    }
}

impl Eq for X {
}

impl PartialEqSpecImpl for X {
    open spec fn obeys_eq_spec() -> bool {
        true
    }

    open spec fn eq_spec(&self, other: &X) -> bool {
        self@ == other@
    }
}

impl Default for X {
    fn default() -> (r: X)
        ensures
            r@ == 0,
    {
        X(0)
    }
}

impl X {
    #[verifier::type_invariant]
    spec fn in_range(self) -> bool {
        self.0 <= MAX_W_INNER
    }

    /// Two values with one view are one value.
    pub broadcast proof fn view_is_injective(a: X, b: X)
        ensures
            #![trigger a@, b@]
            (a@ == b@) == (a == b),
    {
    }

    /// The position zero.
    pub fn zero() -> (r: X)
        ensures
            r@ == 0,
    {
        X(0)
    }

    /// The position one.
    pub fn one() -> (r: X)
        ensures
            r@ == 1,
    {
        X(1)
    }

    /// The raw value.
    pub fn get(self) -> (r: Inner)
        ensures
            r == self@,
            r <= limit(),
    {
        proof {
            use_type_invariant(self);
        }
        self.0
    }

    /// The value as an index.
    pub fn usize(self) -> (r: usize)
        ensures
            r == self@,
            r <= limit(),
    {
        proof {
            use_type_invariant(self);
        }
        self.0 as usize
    }

    /// Half the value, rounded down.
    pub fn halve(self) -> (r: X)
        ensures
            r@ == self@ / 2,
    {
        proof {
            use_type_invariant(self);
        }
        let v: Inner = self.0;
        assert(v >> 1 == v / 2) by (bit_vector);
        X(v >> 1)
    }

    /// The value held between `lo` and `hi`; `lo` wins where the bounds cross.
    pub fn clamp_to(self, lo: X, hi: X) -> (r: X)
        ensures
            r@ == held_between(self@, lo@, hi@),
    {
        if self.0 < lo.0 {
            lo
        } else if self.0 > hi.0 {
            hi
        } else {
            self
        }
    }
}

/// Clamps to the valid range.
pub fn x(inner: Inner) -> (r: X)
    ensures
        r@ == clamped(inner as int),
{
    X(if inner > MAX_W_INNER { MAX_W_INNER } else { inner })
}

/// A horizontal extent or offset, never beyond `MAX_W_INNER`.
#[derive(Clone, Copy, Debug, PartialOrd, Ord, Hash)]
pub struct W(Inner);

impl View for W {
    type V = int;

    closed spec fn view(&self) -> int {
        self.0 as int
    }
}

impl PartialEq for W {
    fn eq(&self, other: &W) -> (r: bool) {
        self.0 == other.0
    }
}

impl Eq for W {
}

impl PartialEqSpecImpl for W {
    open spec fn obeys_eq_spec() -> bool {
        true
    }

    open spec fn eq_spec(&self, other: &W) -> bool {
        self@ == other@
    }
}

impl Default for W {
    fn default() -> (r: W)
        ensures
            r@ == 0,
    {
        W(0)
    }
}

impl W {
    #[verifier::type_invariant]
    spec fn in_range(self) -> bool {
        self.0 <= MAX_W_INNER
    }

    /// Two values with one view are one value.
    pub broadcast proof fn view_is_injective(a: W, b: W)
        ensures
            #![trigger a@, b@]
            (a@ == b@) == (a == b),
    {
    }

    /// The width zero.
    pub fn zero() -> (r: W)
        ensures
            r@ == 0,
    {
        W(0)
    }

    /// The width one.
    pub fn one() -> (r: W)
        ensures
            r@ == 1,
    {
        W(1)
    }

    /// The raw value.
    pub fn get(self) -> (r: Inner)
        ensures
            r == self@,
            r <= limit(),
    {
        proof {
            use_type_invariant(self);
        }
        self.0
    }

    /// The value as an index.
    pub fn usize(self) -> (r: usize)
        ensures
            r == self@,
            r <= limit(),
    {
        proof {
            use_type_invariant(self);
        }
        self.0 as usize
    }

    /// Half the value, rounded down.
    pub fn halve(self) -> (r: W)
        ensures
            r@ == self@ / 2,
    {
        proof {
            use_type_invariant(self);
        }
        let v: Inner = self.0;
        assert(v >> 1 == v / 2) by (bit_vector);
        W(v >> 1)
    }

    /// The value held between `lo` and `hi`; `lo` wins where the bounds cross.
    pub fn clamp_to(self, lo: W, hi: W) -> (r: W)
        ensures
            r@ == held_between(self@, lo@, hi@),
    {
        if self.0 < lo.0 {
            lo
        } else if self.0 > hi.0 {
            hi
        } else {
            self
        }
    }
}

/// Clamps to the valid range.
pub fn w(inner: Inner) -> (r: W)
    ensures
        r@ == clamped(inner as int),
{
    W(if inner > MAX_W_INNER { MAX_W_INNER } else { inner })
}

impl core::ops::Sub<W> for W {
    type Output = W;

    /// The extent shortened by `other`, stopping at zero.
    fn sub(self, other: W) -> (r: W)
        ensures
            r@ == clamped(self@ - other@),
    {
        proof {
            use_type_invariant(self);
        }
        W(self.0.saturating_sub(other.0))
    }
}

impl SubSpecImpl<W> for W {
    open spec fn obeys_sub_spec() -> bool {
        true
    }

    open spec fn sub_req(self, other: W) -> bool {
        true
    }

    closed spec fn sub_spec(self, other: W) -> W {
        W(if self.0 >= other.0 { (self.0 - other.0) as Inner } else { 0 })
    }
}

/// Moves `x` forward by `w`, stopping at the largest position.
pub fn const_add_assign_w(x: &mut X, w: W)
    ensures
        final(x)@ == clamped(old(x)@ + w@),
{
    proof {
        use_type_invariant(&*x);
        use_type_invariant(w);
    }
    let sum: Inner = x.0.saturating_add(w.0);
    *x = X(if sum > MAX_W_INNER { MAX_W_INNER } else { sum });
}

/// `x` moved forward by `w`, stopping at the largest position.
pub fn const_add_w(x: X, w: W) -> (r: X)
    ensures
        r@ == clamped(x@ + w@),
{
    let mut moved = x;
    const_add_assign_w(&mut moved, w);
    moved
}

impl core::ops::Add<W> for X {
    type Output = X;

    /// Moves forward by `other`, stopping at the largest position.
    fn add(self, other: W) -> (r: X)
        ensures
            r@ == clamped(self@ + other@),
    {
        const_add_w(self, other)
    }
}

impl AddSpecImpl<W> for X {
    open spec fn obeys_add_spec() -> bool {
        true
    }

    open spec fn add_req(self, other: W) -> bool {
        true
    }

    closed spec fn add_spec(self, other: W) -> X {
        X(if self.0 + other.0 > MAX_W_INNER { MAX_W_INNER } else { (self.0 + other.0) as Inner })
    }
}

impl core::ops::Sub<W> for X {
    type Output = X;

    /// Moves back by `other`, stopping at zero.
    fn sub(self, other: W) -> (r: X)
        ensures
            r@ == clamped(self@ - other@),
    {
        proof {
            use_type_invariant(self);
        }
        X(self.0.saturating_sub(other.0))
    }
}

impl SubSpecImpl<W> for X {
    open spec fn obeys_sub_spec() -> bool {
        true
    }

    open spec fn sub_req(self, other: W) -> bool {
        true
    }

    closed spec fn sub_spec(self, other: W) -> X {
        X(if self.0 >= other.0 { (self.0 - other.0) as Inner } else { 0 })
    }
}

impl core::ops::Sub<X> for X {
    type Output = W;

    /// How far `self` lies beyond `other`; zero where it does not.
    fn sub(self, other: X) -> (r: W)
        ensures
            r@ == clamped(self@ - other@),
    {
        proof {
            use_type_invariant(self);
        }
        W(self.0.saturating_sub(other.0))
    }
}

impl SubSpecImpl<X> for X {
    open spec fn obeys_sub_spec() -> bool {
        true
    }

    open spec fn sub_req(self, other: X) -> bool {
        true
    }

    closed spec fn sub_spec(self, other: X) -> W {
        W(if self.0 >= other.0 { (self.0 - other.0) as Inner } else { 0 })
    }
}

/// An absolute vertical grid position, never beyond `MAX_H_INNER`.
#[derive(Clone, Copy, Debug, PartialOrd, Ord, Hash)]
pub struct Y(Inner);

impl View for Y {
    type V = int;

    closed spec fn view(&self) -> int {
        self.0 as int
    }
}

impl PartialEq for Y {
    fn eq(&self, other: &Y) -> (r: bool) {
        self.0 == other.0
    }
}

impl Eq for Y {
}

impl PartialEqSpecImpl for Y {
    open spec fn obeys_eq_spec() -> bool {
        true
    }

    open spec fn eq_spec(&self, other: &Y) -> bool {
        self@ == other@
    }
}

impl Default for Y {
    fn default() -> (r: Y)
        ensures
            r@ == 0,
    {
        Y(0)
    }
}

impl Y {
    #[verifier::type_invariant]
    spec fn in_range(self) -> bool {
        self.0 <= MAX_H_INNER
    }

    /// Two values with one view are one value.
    pub broadcast proof fn view_is_injective(a: Y, b: Y)
        ensures
            #![trigger a@, b@]
            (a@ == b@) == (a == b),
    {
    }

    /// The position zero.
    pub fn zero() -> (r: Y)
        ensures
            r@ == 0,
    {
        Y(0)
    }

    /// The position one.
    pub fn one() -> (r: Y)
        ensures
            r@ == 1,
    {
        Y(1)
    }

    /// The raw value.
    pub fn get(self) -> (r: Inner)
        ensures
            r == self@,
            r <= limit(),
    {
        proof {
            use_type_invariant(self);
        }
        self.0
    }

    /// The value as an index.
    pub fn usize(self) -> (r: usize)
        ensures
            r == self@,
            r <= limit(),
    {
        proof {
            use_type_invariant(self);
        }
        self.0 as usize
    }

    /// Half the value, rounded down.
    pub fn halve(self) -> (r: Y)
        ensures
            r@ == self@ / 2,
    {
        proof {
            use_type_invariant(self);
        }
        let v: Inner = self.0;
        assert(v >> 1 == v / 2) by (bit_vector);
        Y(v >> 1)
    }

    /// The value held between `lo` and `hi`; `lo` wins where the bounds cross.
    pub fn clamp_to(self, lo: Y, hi: Y) -> (r: Y)
        ensures
            r@ == held_between(self@, lo@, hi@),
    {
        if self.0 < lo.0 {
            lo
        } else if self.0 > hi.0 {
            hi
        } else {
            self
        }
    }
}

/// Clamps to the valid range.
pub fn y(inner: Inner) -> (r: Y)
    ensures
        r@ == clamped(inner as int),
{
    Y(if inner > MAX_H_INNER { MAX_H_INNER } else { inner })
}

/// A vertical extent or offset, never beyond `MAX_H_INNER`.
#[derive(Clone, Copy, Debug, PartialOrd, Ord, Hash)]
pub struct H(Inner);

impl View for H {
    type V = int;

    closed spec fn view(&self) -> int {
        self.0 as int
    }
}

impl PartialEq for H {
    fn eq(&self, other: &H) -> (r: bool) {
        self.0 == other.0
    }
}

impl Eq for H {
}

impl PartialEqSpecImpl for H {
    open spec fn obeys_eq_spec() -> bool {
        true
    }

    open spec fn eq_spec(&self, other: &H) -> bool {
        self@ == other@
    }
}

impl Default for H {
    fn default() -> (r: H)
        ensures
            r@ == 0,
    {
        H(0)
    }
}

impl H {
    #[verifier::type_invariant]
    spec fn in_range(self) -> bool {
        self.0 <= MAX_H_INNER
    }

    /// Two values with one view are one value.
    pub broadcast proof fn view_is_injective(a: H, b: H)
        ensures
            #![trigger a@, b@]
            (a@ == b@) == (a == b),
    {
    }

    /// The height zero.
    pub fn zero() -> (r: H)
        ensures
            r@ == 0,
    {
        H(0)
    }

    /// The height one.
    pub fn one() -> (r: H)
        ensures
            r@ == 1,
    {
        H(1)
    }

    /// The raw value.
    pub fn get(self) -> (r: Inner)
        ensures
            r == self@,
            r <= limit(),
    {
        proof {
            use_type_invariant(self);
        }
        self.0
    }

    /// The value as an index.
    pub fn usize(self) -> (r: usize)
        ensures
            r == self@,
            r <= limit(),
    {
        proof {
            use_type_invariant(self);
        }
        self.0 as usize
    }

    /// Half the value, rounded down.
    pub fn halve(self) -> (r: H)
        ensures
            r@ == self@ / 2,
    {
        proof {
            use_type_invariant(self);
        }
        let v: Inner = self.0;
        assert(v >> 1 == v / 2) by (bit_vector);
        H(v >> 1)
    }

    /// The value held between `lo` and `hi`; `lo` wins where the bounds cross.
    pub fn clamp_to(self, lo: H, hi: H) -> (r: H)
        ensures
            r@ == held_between(self@, lo@, hi@),
    {
        if self.0 < lo.0 {
            lo
        } else if self.0 > hi.0 {
            hi
        } else {
            self
        }
    }
}

/// Clamps to the valid range.
pub fn h(inner: Inner) -> (r: H)
    ensures
        r@ == clamped(inner as int),
{
    H(if inner > MAX_H_INNER { MAX_H_INNER } else { inner })
}

impl core::ops::Sub<H> for H {
    type Output = H;

    /// The extent shortened by `other`, stopping at zero.
    fn sub(self, other: H) -> (r: H)
        ensures
            r@ == clamped(self@ - other@),
    {
        proof {
            use_type_invariant(self);
        }
        H(self.0.saturating_sub(other.0))
    }
}

impl SubSpecImpl<H> for H {
    open spec fn obeys_sub_spec() -> bool {
        true
    }

    open spec fn sub_req(self, other: H) -> bool {
        true
    }

    closed spec fn sub_spec(self, other: H) -> H {
        H(if self.0 >= other.0 { (self.0 - other.0) as Inner } else { 0 })
    }
}

/// Moves `y` forward by `h`, stopping at the largest position.
pub fn const_add_assign_h(y: &mut Y, h: H)
    ensures
        final(y)@ == clamped(old(y)@ + h@),
{
    proof {
        use_type_invariant(&*y);
        use_type_invariant(h);
    }
    let sum: Inner = y.0.saturating_add(h.0);
    *y = Y(if sum > MAX_H_INNER { MAX_H_INNER } else { sum });
}

/// `y` moved forward by `h`, stopping at the largest position.
pub fn const_add_h(y: Y, h: H) -> (r: Y)
    ensures
        r@ == clamped(y@ + h@),
{
    let mut moved = y;
    const_add_assign_h(&mut moved, h);
    moved
}

impl core::ops::Add<H> for Y {
    type Output = Y;

    /// Moves forward by `other`, stopping at the largest position.
    fn add(self, other: H) -> (r: Y)
        ensures
            r@ == clamped(self@ + other@),
    {
        const_add_h(self, other)
    }
}

impl AddSpecImpl<H> for Y {
    open spec fn obeys_add_spec() -> bool {
        true
    }

    open spec fn add_req(self, other: H) -> bool {
        true
    }

    closed spec fn add_spec(self, other: H) -> Y {
        Y(if self.0 + other.0 > MAX_H_INNER { MAX_H_INNER } else { (self.0 + other.0) as Inner })
    }
}

impl core::ops::Sub<H> for Y {
    type Output = Y;

    /// Moves back by `other`, stopping at zero.
    fn sub(self, other: H) -> (r: Y)
        ensures
            r@ == clamped(self@ - other@),
    {
        proof {
            use_type_invariant(self);
        }
        Y(self.0.saturating_sub(other.0))
    }
}

impl SubSpecImpl<H> for Y {
    open spec fn obeys_sub_spec() -> bool {
        true
    }

    open spec fn sub_req(self, other: H) -> bool {
        true
    }

    closed spec fn sub_spec(self, other: H) -> Y {
        Y(if self.0 >= other.0 { (self.0 - other.0) as Inner } else { 0 })
    }
}

impl core::ops::Sub<Y> for Y {
    type Output = H;

    /// How far `self` lies beyond `other`; zero where it does not.
    fn sub(self, other: Y) -> (r: H)
        ensures
            r@ == clamped(self@ - other@),
    {
        proof {
            use_type_invariant(self);
        }
        H(self.0.saturating_sub(other.0))
    }
}

impl SubSpecImpl<Y> for Y {
    open spec fn obeys_sub_spec() -> bool {
        true
    }

    open spec fn sub_req(self, other: Y) -> bool {
        true
    }

    closed spec fn sub_spec(self, other: Y) -> H {
        H(if self.0 >= other.0 { (self.0 - other.0) as Inner } else { 0 })
    }
}

/// An axis-aligned rectangle of grid cells, given by two corners.
pub struct Rect {
    pub min_x: X,
    pub min_y: Y,
    pub max_x: X,
    pub max_y: Y,
}

/// A `Rect` as the contracts see it.
pub struct RectView {
    pub min_x: int,
    pub min_y: int,
    pub max_x: int,
    pub max_y: int,
}

impl View for Rect {
    type V = RectView;

    open spec fn view(&self) -> RectView {
        RectView { min_x: self.min_x@, min_y: self.min_y@, max_x: self.max_x@, max_y: self.max_y@ }
    }
}

/// The cell one step from `(x, y)` in each of the eight directions, counter-clockwise from the
/// cell to the right, each coordinate stopping at the edge of the coordinate range.
pub open spec fn neighbors_of(x: int, y: int) -> Seq<(int, int)> {
    seq![
        (clamped(x + 1), y),
        (clamped(x + 1), clamped(y - 1)),
        (x, clamped(y - 1)),
        (clamped(x - 1), clamped(y - 1)),
        (clamped(x - 1), y),
        (clamped(x - 1), clamped(y + 1)),
        (x, clamped(y + 1)),
        (clamped(x + 1), clamped(y + 1)),
    ]
}

/// The eight cells around `(x, y)`; at the edge of the coordinate range a neighbor may be the
/// cell itself or repeat another neighbor.
pub fn eight_neighbors(x: X, y: Y) -> (r: [(X, Y); 8])
    ensures
        forall|i: int| 0 <= i < 8 ==> (#[trigger] r[i]).0@ == neighbors_of(x@, y@)[i].0,
        forall|i: int| 0 <= i < 8 ==> (#[trigger] r[i]).1@ == neighbors_of(x@, y@)[i].1,
{
    let right: X = x + W::one();
    let left: X = x - W::one();
    let up: Y = y - H::one();
    let down: Y = y + H::one();
    [
        (right, y),
        (right, up),
        (x, up),
        (left, up),
        (left, y),
        (left, down),
        (x, down),
        (right, down),
    ]
}

} // verus!
