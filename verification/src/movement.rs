use vstd::prelude::*;
use vstd::std_specs::ops::NotSpecImpl;
use crate::entities::{get_effective_tile, Entities, EntitiesView};
use crate::map::{GameMap, MapView};
use crate::rng::{range, ranged, stepped, Xs};
use crate::tile::{is_walkable, walkable, LARGE_POT};
use crate::xy::{clamped, held_between, H, W, X, Y};

verus! {

/// One of the four ways to step.
#[derive(Clone, Copy, Debug, PartialEq, Eq, Structural)]
pub enum Dir {
    Up,
    Down,
    Left,
    Right,
}

/// The way back.
pub open spec fn opposite(dir: Dir) -> Dir {
    match dir {
        Dir::Up => Dir::Down,
        Dir::Down => Dir::Up,
        Dir::Left => Dir::Right,
        Dir::Right => Dir::Left,
    }
}

impl core::ops::Not for Dir {
    type Output = Dir;

    /// The way back.
    fn not(self) -> (r: Dir)
        ensures
            r == opposite(self),
    {
        match self {
            Dir::Up => Dir::Down,
            Dir::Down => Dir::Up,
            Dir::Left => Dir::Right,
            Dir::Right => Dir::Left,
        }
    }
}

impl NotSpecImpl for Dir {
    open spec fn obeys_not_spec() -> bool {
        true
    }

    open spec fn not_req(self) -> bool {
        true
    }

    open spec fn not_spec(self) -> Dir {
        opposite(self)
    }
}

/// The cell one step from `(x, y)` in `dir`; at the edge of the coordinate range, `(x, y)` itself.
pub open spec fn step(dir: Dir, x: int, y: int) -> (int, int) {
    match dir {
        Dir::Up => (x, clamped(y - 1)),
        Dir::Down => (x, clamped(y + 1)),
        Dir::Left => (clamped(x - 1), y),
        Dir::Right => (clamped(x + 1), y),
    }
}

/// The cell one step from `(x, y)` in `dir`.
pub fn xy_in_dir(dir: Dir, x: X, y: Y) -> (r: (X, Y))
    ensures
        (r.0@, r.1@) == step(dir, x@, y@),
{
    match dir {
        Dir::Up => (x, y - H::one()),
        Dir::Down => (x, y + H::one()),
        Dir::Left => (x - W::one(), y),
        Dir::Right => (x + W::one(), y),
    }
}

/// The farthest column and row of the map.
pub open spec fn far_corner(map: MapView) -> (int, int) {
    (clamped(clamped(map.width) - 1), clamped(clamped(map.height) - 1))
}

/// The cell of `map` one step from `(x, y)` in `dir`: the coordinate that the step changes is
/// held between zero and the map's far corner. At an edge of the map it is `(x, y)` itself.
pub open spec fn step_on(map: MapView, dir: Dir, x: int, y: int) -> (int, int) {
    match dir {
        Dir::Up => (x, held_between(step(dir, x, y).1, 0, far_corner(map).1)),
        Dir::Down => (x, held_between(step(dir, x, y).1, 0, far_corner(map).1)),
        Dir::Left => (held_between(step(dir, x, y).0, 0, far_corner(map).0), y),
        Dir::Right => (held_between(step(dir, x, y).0, 0, far_corner(map).0), y),
    }
}

/// The cell of `map` one step from `(x, y)` in `dir`.
pub fn xy_in_dir_on(map: &GameMap, dir: Dir, x: X, y: Y) -> (r: (X, Y))
    ensures
        (r.0@, r.1@) == step_on(map@, dir, x@, y@),
{
    let data = map.data();
    let (to_x, to_y) = xy_in_dir(dir, x, y);
    match dir {
        Dir::Up | Dir::Down => {
            let max_map_y: Y = Y::zero() + data.height - H::one();
            (x, to_y.clamp_to(Y::zero(), max_map_y))
        },
        Dir::Left | Dir::Right => {
            let max_map_x: X = X::zero() + data.width - W::one();
            (to_x.clamp_to(X::zero(), max_map_x), y)
        },
    }
}

/// The direction that stands for a number drawn in `0..4`.
pub open spec fn dir_of(drawn: u32) -> Dir {
    if drawn == 1 {
        Dir::Down
    } else if drawn == 2 {
        Dir::Left
    } else if drawn == 3 {
        Dir::Right
    } else {
        Dir::Up
    }
}

/// Draws a direction, each of the four as likely as the generator's numbers make it.
pub fn gen_dir(rng: &mut Xs) -> (r: Dir)
    ensures
        *final(rng) == stepped(*old(rng)),
        r == dir_of(ranged(*old(rng), 0, 4)),
{
    let drawn: u32 = range(rng, 0, 4);
    if drawn == 1 {
        Dir::Down
    } else if drawn == 2 {
        Dir::Left
    } else if drawn == 3 {
        Dir::Right
    } else {
        Dir::Up
    }
}

/// One move: whatever occupies the old cell goes to the new one.
#[derive(Clone, Copy, Debug)]
pub struct Plan {
    old_x: X,
    old_y: Y,
    new_x: X,
    new_y: Y,
}

/// A `Plan` as the contracts see it.
pub struct PlanView {
    pub old_x: int,
    pub old_y: int,
    pub new_x: int,
    pub new_y: int,
}

impl View for Plan {
    type V = PlanView;

    closed spec fn view(&self) -> PlanView {
        PlanView { old_x: self.old_x@, old_y: self.old_y@, new_x: self.new_x@, new_y: self.new_y@ }
    }
}

impl Plan {
    /// The move of whatever occupies `(old_x, old_y)` to `(new_x, new_y)`.
    pub fn new(old_x: X, old_y: Y, new_x: X, new_y: Y) -> (r: Plan)
        ensures
            r@ == (PlanView { old_x: old_x@, old_y: old_y@, new_x: new_x@, new_y: new_y@ }),
    {
        Plan { old_x, old_y, new_x, new_y }
    }
}

impl Default for Plan {
    fn default() -> (r: Plan)
        ensures
            r@ == (PlanView { old_x: 0, old_y: 0, new_x: 0, new_y: 0 }),
    {
        Plan { old_x: X::zero(), old_y: Y::zero(), new_x: X::zero(), new_y: Y::zero() }
    }
}

/// How many moves the plan for one step holds.
pub type PlannedLength = u8;

/// The most moves that a plan for one step holds.
pub const PLAN_CAPACITY: usize = 15;

/// The moves planned for one step, in the order in which they are to be made.
pub struct Planned {
    plans: [Plan; 15],
    length: PlannedLength,
}

impl View for Planned {
    type V = Seq<PlanView>;

    closed spec fn view(&self) -> Seq<PlanView> {
        Seq::new(self.length as nat, |i: int| self.plans[i]@)
    }
}

/// `plans` with `plan` after them, where there is room for it; else `plans`.
pub open spec fn pushed(plans: Seq<PlanView>, plan: PlanView) -> Seq<PlanView> {
    if plans.len() < PLAN_CAPACITY {
        plans.push(plan)
    } else {
        plans
    }
}

impl Default for Planned {
    fn default() -> (r: Planned)
        ensures
            r@ == Seq::<PlanView>::empty(),
    {
        let r = Planned { plans: [Plan::default(); 15], length: 0 };
        assert(r@ =~= Seq::<PlanView>::empty());
        r
    }
}

impl Planned {
    #[verifier::type_invariant]
    spec fn within_capacity(self) -> bool {
        self.length <= 15
    }

    /// Adds `plan` after the moves planned so far; one that there is no room for is dropped.
    pub fn push(&mut self, plan: Plan)
        ensures
            final(self)@ == pushed(old(self)@, plan@),
    {
        proof {
            use_type_invariant(&*self);
        }
        if (self.length as usize) < 15 {
            self.plans[self.length as usize] = plan;
            self.length += 1;
            assert(self@ =~= old(self)@.push(plan@));
        }
    }

    /// How many moves are planned.
    pub fn len(&self) -> (r: PlannedLength)
        ensures
            r == self@.len(),
            r <= PLAN_CAPACITY,
    {
        proof {
            use_type_invariant(self);
        }
        self.length
    }

    /// The move at `index`.
    pub fn get(&self, index: PlannedLength) -> (r: Option<Plan>)
        ensures
            r is Some == (index < self@.len()),
            r matches Some(plan) ==> plan@ == self@[index as int],
    {
        proof {
            use_type_invariant(self);
        }
        if index < self.length {
            Some(self.plans[index as usize])
        } else {
            None
        }
    }
}

/// Switches for planning a step.
pub type Flags = u8;

/// Step wherever the grid goes on, whatever is in the way.
pub const PASS_THROUGH: Flags = 0x1;

/// What may be done about a cell that something wants to step onto.
#[derive(Clone, Copy, Debug, PartialEq, Eq, Structural)]
pub enum Allowed {
    /// The cell is blocked.
    Not,
    /// The cell is free.
    Move,
    /// The cell holds something that gives way if it can itself step on.
    Push,
}

/// What may be done about the cell `(x, y)`. With `PASS_THROUGH` every cell is free; so is a
/// cell that the map has no tile for. Else the cell's effective tile decides.
pub open spec fn allowed(map: MapView, entities: EntitiesView, x: int, y: int, flags: Flags) -> Allowed {
    if flags & PASS_THROUGH != 0 {
        Allowed::Move
    } else {
        match entities.effective_tile(map, x, y, 0) {
            Some(kind) => if walkable(kind) {
                Allowed::Move
            } else if kind == LARGE_POT {
                Allowed::Push
            } else {
                Allowed::Not
            },
            None => Allowed::Move,
        }
    }
}

/// What may be done about the cell `(new_x, new_y)`.
pub fn allowed_to(map: &GameMap, entities: &Entities, new_x: X, new_y: Y, flags: Flags) -> (r:
    Allowed)
    ensures
        r == allowed(map@, entities@, new_x@, new_y@, flags),
{
    if flags & PASS_THROUGH != 0 {
        Allowed::Move
    } else {
        match get_effective_tile(map, entities, new_x, new_y) {
            Some(kind) => {
                if is_walkable(kind) {
                    Allowed::Move
                } else if kind == LARGE_POT {
                    Allowed::Push
                } else {
                    Allowed::Not
                }
            },
            None => Allowed::Move,
        }
    }
}

/// How many steps lead from the coordinate `v` to the edge of a map whose last coordinate is
/// `far`, forward or back; more than any of those for a `v` beyond the map.
pub open spec fn room_along(v: int, forward: bool, far: int) -> int {
    if 0 <= v <= far {
        if forward {
            far - v
        } else {
            v
        }
    } else {
        241
    }
}

/// How many steps in `dir` lead from `(x, y)` to the edge of `map`.
pub open spec fn room(map: MapView, dir: Dir, x: int, y: int) -> int {
    match dir {
        Dir::Up => room_along(y, false, far_corner(map).1),
        Dir::Down => room_along(y, true, far_corner(map).1),
        Dir::Left => room_along(x, false, far_corner(map).0),
        Dir::Right => room_along(x, true, far_corner(map).0),
    }
}

/// The move of whatever occupies `(x, y)` one step in `dir` on `map`.
pub open spec fn step_plan(map: MapView, dir: Dir, x: int, y: int) -> PlanView {
    PlanView { old_x: x, old_y: y, new_x: step_on(map, dir, x, y).0, new_y: step_on(map, dir, x, y).1 }
}

/// The plan that a step from `(x, y)` in `dir` makes of `plans`. At an edge of the map, and
/// where what is pushed cannot move, nothing at all is planned. A blocked step leaves
/// `plans` as they are. A free step adds its move. A push plans the step of what is pushed
/// first, and adds its own move after it.
pub open spec fn planned_onto(
    plans: Seq<PlanView>,
    x: int,
    y: int,
    map: MapView,
    entities: EntitiesView,
    dir: Dir,
    flags: Flags,
) -> Seq<PlanView>
    decreases room(map, dir, x, y),
{
    let (new_x, new_y) = step_on(map, dir, x, y);
    if new_x == x && new_y == y {
        Seq::empty()
    } else {
        match allowed(map, entities, new_x, new_y, flags) {
            Allowed::Not => plans,
            Allowed::Move => pushed(plans, step_plan(map, dir, x, y)),
            Allowed::Push => {
                let further = planned_onto(plans, new_x, new_y, map, entities, dir, flags);
                if further.len() == plans.len() {
                    Seq::empty()
                } else {
                    pushed(further, step_plan(map, dir, x, y))
                }
            },
        }
    }
}

/// The moves that make whatever occupies `(x, y)` step in `dir`; none where it cannot.
pub open spec fn planned(
    x: int,
    y: int,
    map: MapView,
    entities: EntitiesView,
    dir: Dir,
    flags: Flags,
) -> Seq<PlanView> {
    planned_onto(Seq::empty(), x, y, map, entities, dir, flags)
}

/// Plans the step in `dir` of whatever occupies `(entity_x, entity_y)`, by the usual rules.
pub fn plan(entity_x: X, entity_y: Y, map: &GameMap, entities: &Entities, dir: Dir) -> (r: Planned)
    ensures
        r@ == planned(entity_x@, entity_y@, map@, entities@, dir, 0),
{
    plan_custom(entity_x, entity_y, map, entities, dir, 0)
}

/// Plans the step in `dir` of whatever occupies `(entity_x, entity_y)`.
pub fn plan_custom(
    entity_x: X,
    entity_y: Y,
    map: &GameMap,
    entities: &Entities,
    dir: Dir,
    flags: Flags,
) -> (r: Planned)
    ensures
        r@ == planned(entity_x@, entity_y@, map@, entities@, dir, flags),
{
    let mut planned = Planned::default();
    plan_helper(&mut planned, entity_x, entity_y, map, entities, dir, flags);
    planned
}

fn plan_helper(
    planned: &mut Planned,
    entity_x: X,
    entity_y: Y,
    map: &GameMap,
    entities: &Entities,
    dir: Dir,
    flags: Flags,
)
    ensures
        final(planned)@ == planned_onto(
            old(planned)@,
            entity_x@,
            entity_y@,
            map@,
            entities@,
            dir,
            flags,
        ),
    decreases room(map@, dir, entity_x@, entity_y@),
{
    let (new_x, new_y) = xy_in_dir_on(map, dir, entity_x, entity_y);
    if new_x == entity_x && new_y == entity_y {
        // A step that leads nowhere ends the chain.
        *planned = Planned::default();
        return ;
    }
    let initial_length = planned.len();
    match allowed_to(map, entities, new_x, new_y, flags) {
        Allowed::Not => {
            return ;
        },
        Allowed::Move => {},
        Allowed::Push => {
            plan_helper(planned, new_x, new_y, map, entities, dir, flags);
            if initial_length == planned.len() {
                // What is pushed cannot move, so nothing else does.
                *planned = Planned::default();
                return ;
            }
        },
    }
    planned.push(Plan::new(entity_x, entity_y, new_x, new_y));
}

/// `entities` after the moves of `plans` from index `from` on have been made, one after the
/// other: each moves the occupant of its old cell, if the cell has one, to its new cell, held
/// inside the map.
pub open spec fn performed_from(
    entities: EntitiesView,
    map: MapView,
    plans: Seq<PlanView>,
    from: int,
) -> EntitiesView
    decreases plans.len() - from,
{
    if from < 0 || from >= plans.len() {
        entities
    } else {
        performed_from(
            entities.with_occupant_moved(
                map,
                plans[from].old_x,
                plans[from].old_y,
                held_between(plans[from].new_x, 0, far_corner(map).0),
                held_between(plans[from].new_y, 0, far_corner(map).1),
            ),
            map,
            plans,
            from + 1,
        )
    }
}

/// `entities` after the moves of `plans` have been made.
pub open spec fn performed(entities: EntitiesView, map: MapView, plans: Seq<PlanView>) -> EntitiesView {
    performed_from(entities, map, plans, 0)
}

/// Makes the planned moves, in their order. A move whose old cell nothing occupies any more is
/// passed over.
pub fn perform(entities: &mut Entities, map: &GameMap, planned: Planned)
    ensures
        final(entities)@ == performed(old(entities)@, map@, planned@),
{
    let data = map.data();
    let max_map_x: X = X::zero() + data.width - W::one();
    let max_map_y: Y = Y::zero() + data.height - H::one();
    let mut i: PlannedLength = 0;
    while i < planned.len()
        invariant
            i <= planned@.len(),
            max_map_x@ == far_corner(map@).0,
            max_map_y@ == far_corner(map@).1,
            performed_from(entities@, map@, planned@, i as int) == performed(
                old(entities)@,
                map@,
                planned@,
            ),
        decreases planned@.len() - i,
    {
        match planned.get(i) {
            Some(plan) => {
                entities.move_occupant(
                    map,
                    plan.old_x,
                    plan.old_y,
                    plan.new_x.clamp_to(X::zero(), max_map_x),
                    plan.new_y.clamp_to(Y::zero(), max_map_y),
                );
            },
            None => {},
        }
        i += 1;
    }
}

/// Makes whatever occupies `(entity_x, entity_y)` step in `dir`, if it can, by the usual rules.
pub fn move_entity(entity_x: X, entity_y: Y, entities: &mut Entities, map: &GameMap, dir: Dir)
    ensures
        final(entities)@ == performed(
            old(entities)@,
            map@,
            planned(entity_x@, entity_y@, map@, old(entities)@, dir, 0),
        ),
{
    move_entity_custom(entity_x, entity_y, entities, map, dir, 0)
}

/// Makes whatever occupies `(entity_x, entity_y)` step in `dir`, if it can.
pub fn move_entity_custom(
    entity_x: X,
    entity_y: Y,
    entities: &mut Entities,
    map: &GameMap,
    dir: Dir,
    flags: Flags,
)
    ensures
        final(entities)@ == performed(
            old(entities)@,
            map@,
            planned(entity_x@, entity_y@, map@, old(entities)@, dir, flags),
        ),
{
    let planned = plan_custom(entity_x, entity_y, map, entities, dir, flags);
    perform(entities, map, planned);
}

} // verus!
