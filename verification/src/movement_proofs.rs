use vstd::prelude::*;
use crate::entities::{lemma_first_from, lemma_first_is_found, EntitiesView, NO_MOBS};
use crate::map::MapView;
use crate::movement::{
    allowed, far_corner, performed, performed_from, planned, step, step_on, step_plan, Allowed,
    Dir, PlanView,
};
use crate::tile::{LARGE_POT};
use crate::xy::{held_between};

verus! {

/// Whether the cell `(x, y)` lies inside the map and not on its rim.
pub open spec fn off_the_rim(map: MapView, x: int, y: int) -> bool {
    0 < x < map.width - 1 && 0 < y < map.height - 1
}

/// Without the switch set, a lookup sees the roster; with it, a lookup sees through them.
pub proof fn lemma_flags()
    ensures
        0u8 & NO_MOBS == 0,
        NO_MOBS & NO_MOBS != 0,
        0u8 & crate::movement::PASS_THROUGH == 0,
{
    assert(0u8 & 0x01u8 == 0) by (bit_vector);
    assert(0x01u8 & 0x01u8 != 0) by (bit_vector);
}

/// A cell that one of the roster occupies, and that the overlay has an entry for, shows that
/// one's kind to a lookup that sees the roster, and the overlay's kind to one that sees through
/// them.
pub proof fn mob_hides_overlay(map: MapView, entities: EntitiesView, x: int, y: int)
    requires
        entities.first_mob_at(x, y) is Some,
        entities.dynamic.dom().contains(map.index_of(x, y) as usize),
    ensures
        entities.effective_tile(map, x, y, 0) == Some(
            entities.mobs[entities.first_mob_at(x, y)->0].kind,
        ),
        entities.effective_tile(map, x, y, NO_MOBS) == Some(
            entities.dynamic[map.index_of(x, y) as usize].kind,
        ),
{
    lemma_flags();
}

/// One step from a cell off the rim leads to another cell of the map, one cell on.
pub proof fn lemma_step_off_the_rim(map: MapView, dir: Dir, x: int, y: int)
    requires
        map.valid(),
        off_the_rim(map, x, y),
    ensures
        step(dir, x, y) == match dir {
            Dir::Up => (x, y - 1),
            Dir::Down => (x, y + 1),
            Dir::Left => (x - 1, y),
            Dir::Right => (x + 1, y),
        },
        map.inside(step(dir, x, y)),
        step(dir, x, y) != (x, y),
        step_on(map, dir, x, y) == step(dir, x, y),
        held_between(step(dir, x, y).0, 0, far_corner(map).0) == step(dir, x, y).0,
        held_between(step(dir, x, y).1, 0, far_corner(map).1) == step(dir, x, y).1,
{
}

/// Whoever is found in a cell off the rim and steps to a free cell is one cell on afterwards,
/// and nothing else has changed.
pub proof fn step_moves_one_cell(map: MapView, entities: EntitiesView, slot: int, dir: Dir)
    requires
        map.valid(),
        0 <= slot < entities.mobs.len(),
        entities.first_mob_at(entities.mobs[slot].x, entities.mobs[slot].y) == Some(slot),
        off_the_rim(map, entities.mobs[slot].x, entities.mobs[slot].y),
        ({
            let to = step(dir, entities.mobs[slot].x, entities.mobs[slot].y);
            allowed(map, entities, to.0, to.1, 0) == Allowed::Move
        }),
    ensures
        ({
            let mover = entities.mobs[slot];
            let to = step(dir, mover.x, mover.y);
            let after = performed(
                entities,
                map,
                planned(mover.x, mover.y, map, entities, dir, 0),
            );
            &&& after.mobs == entities.mobs.update(slot, mover.moved_to(to.0, to.1))
            &&& after.dynamic == entities.dynamic
            &&& to == match dir {
                Dir::Up => (mover.x, mover.y - 1),
                Dir::Down => (mover.x, mover.y + 1),
                Dir::Left => (mover.x - 1, mover.y),
                Dir::Right => (mover.x + 1, mover.y),
            }
        }),
{
    let mover = entities.mobs[slot];
    let to = step(dir, mover.x, mover.y);
    lemma_step_off_the_rim(map, dir, mover.x, mover.y);
    let plans = planned(mover.x, mover.y, map, entities, dir, 0);
    assert(plans =~= seq![step_plan(map, dir, mover.x, mover.y)]);
    reveal_with_fuel(performed_from, 3);
}

/// Whoever steps to a blocked cell stays, and nothing changes.
pub proof fn blocked_step_moves_nothing(map: MapView, entities: EntitiesView, x: int, y: int, dir: Dir)
    requires
        allowed(map, entities, step_on(map, dir, x, y).0, step_on(map, dir, x, y).1, 0)
            == Allowed::Not,
    ensures
        planned(x, y, map, entities, dir, 0).len() == 0,
        performed(entities, map, planned(x, y, map, entities, dir, 0)) == entities,
{
}

/// Whether `(x, y)` lies at the edge of `map` that a step in `dir` would cross.
pub open spec fn at_edge(map: MapView, dir: Dir, x: int, y: int) -> bool {
    match dir {
        Dir::Up => y == 0,
        Dir::Down => y == map.height - 1,
        Dir::Left => x == 0,
        Dir::Right => x == map.width - 1,
    }
}

/// A step across an edge of the map plans nothing, whatever lies beyond, and whatever the
/// rules of the step.
pub proof fn map_edge_step_moves_nothing(
    map: MapView,
    entities: EntitiesView,
    x: int,
    y: int,
    dir: Dir,
    flags: crate::movement::Flags,
)
    requires
        map.valid(),
        at_edge(map, dir, x, y),
    ensures
        step_on(map, dir, x, y) == (x, y),
        planned(x, y, map, entities, dir, flags).len() == 0,
        performed(entities, map, planned(x, y, map, entities, dir, flags)) == entities,
{
}

/// A step that leads nowhere plans nothing.
pub proof fn edge_step_moves_nothing(map: MapView, entities: EntitiesView, x: int, y: int, dir: Dir)
    requires
        step_on(map, dir, x, y) == (x, y),
    ensures
        planned(x, y, map, entities, dir, 0).len() == 0,
        performed(entities, map, planned(x, y, map, entities, dir, 0)) == entities,
{
}

/// Where what is pushed cannot step on, the pusher plans nothing either: a push fails as a
/// whole.
pub proof fn failed_push_moves_nothing(map: MapView, entities: EntitiesView, x: int, y: int, dir: Dir)
    requires
        allowed(map, entities, step_on(map, dir, x, y).0, step_on(map, dir, x, y).1, 0)
            == Allowed::Push,
        planned(step_on(map, dir, x, y).0, step_on(map, dir, x, y).1, map, entities, dir, 0).len()
            == 0,
    ensures
        planned(x, y, map, entities, dir, 0).len() == 0,
        performed(entities, map, planned(x, y, map, entities, dir, 0)) == entities,
{
}

/// Pushing something that has a blocked cell behind it moves neither.
pub proof fn push_against_blocked_moves_nothing(
    map: MapView,
    entities: EntitiesView,
    x: int,
    y: int,
    dir: Dir,
)
    requires
        ({
            let to = step_on(map, dir, x, y);
            let beyond = step_on(map, dir, to.0, to.1);
            &&& allowed(map, entities, to.0, to.1, 0) == Allowed::Push
            &&& allowed(map, entities, beyond.0, beyond.1, 0) == Allowed::Not
        }),
    ensures
        performed(entities, map, planned(x, y, map, entities, dir, 0)) == entities,
{
    let to = step_on(map, dir, x, y);
    assert(planned(to.0, to.1, map, entities, dir, 0).len() == 0);
}

/// One of the roster that is found in the cell in front of another, is of the kind that gives
/// way, and has a free cell behind it, is pushed: both are one cell on afterwards, and nothing
/// else has changed.
pub proof fn push_moves_both(
    map: MapView,
    entities: EntitiesView,
    pusher: int,
    pushed_slot: int,
    dir: Dir,
)
    requires
        map.valid(),
        0 <= pusher < entities.mobs.len(),
        0 <= pushed_slot < entities.mobs.len(),
        entities.first_mob_at(entities.mobs[pusher].x, entities.mobs[pusher].y) == Some(pusher),
        off_the_rim(map, entities.mobs[pusher].x, entities.mobs[pusher].y),
        ({
            let to = step(dir, entities.mobs[pusher].x, entities.mobs[pusher].y);
            let beyond = step(dir, to.0, to.1);
            &&& off_the_rim(map, to.0, to.1)
            &&& entities.first_mob_at(to.0, to.1) == Some(pushed_slot)
            &&& entities.mobs[pushed_slot].kind == LARGE_POT
            &&& allowed(map, entities, beyond.0, beyond.1, 0) == Allowed::Move
        }),
    ensures
        ({
            let mover = entities.mobs[pusher];
            let to = step(dir, mover.x, mover.y);
            let beyond = step(dir, to.0, to.1);
            let after = performed(
                entities,
                map,
                planned(mover.x, mover.y, map, entities, dir, 0),
            );
            &&& after.mobs == entities.mobs.update(
                pushed_slot,
                entities.mobs[pushed_slot].moved_to(beyond.0, beyond.1),
            ).update(pusher, mover.moved_to(to.0, to.1))
            &&& after.dynamic == entities.dynamic
            &&& after.mobs[pusher].at(to.0, to.1)
            &&& after.mobs[pushed_slot].at(beyond.0, beyond.1)
        }),
{
    let mover = entities.mobs[pusher];
    let to = step(dir, mover.x, mover.y);
    let beyond = step(dir, to.0, to.1);
    lemma_flags();
    lemma_step_off_the_rim(map, dir, mover.x, mover.y);
    lemma_step_off_the_rim(map, dir, to.0, to.1);
    lemma_first_from(entities.mobs, to.0, to.1, 0);
    lemma_first_from(entities.mobs, mover.x, mover.y, 0);
    assert(entities.effective_tile(map, to.0, to.1, 0) == Some(LARGE_POT));
    assert(allowed(map, entities, to.0, to.1, 0) == Allowed::Push);
    let first = step_plan(map, dir, to.0, to.1);
    let second = step_plan(map, dir, mover.x, mover.y);
    let further = planned(to.0, to.1, map, entities, dir, 0);
    assert(further =~= seq![first]);
    let plans = planned(mover.x, mover.y, map, entities, dir, 0);
    assert(plans =~= seq![first, second]);
    let given_way = entities.with_occupant_moved(map, to.0, to.1, beyond.0, beyond.1);
    assert(given_way.mobs == entities.mobs.update(
        pushed_slot,
        entities.mobs[pushed_slot].moved_to(beyond.0, beyond.1),
    ));
    assert(pusher != pushed_slot);
    assert(beyond != (mover.x, mover.y));
    assert forall|j: int| 0 <= j < pusher implies !(#[trigger] given_way.mobs[j]).at(
        mover.x,
        mover.y,
    ) by {
        if j != pushed_slot {
            assert(given_way.mobs[j] == entities.mobs[j]);
        }
    }
    lemma_first_is_found(given_way.mobs, mover.x, mover.y, 0, pusher);
    reveal_with_fuel(performed_from, 4);
    let after = performed(entities, map, plans);
    assert(after == given_way.with_occupant_moved(map, mover.x, mover.y, to.0, to.1));
}

/// Whether the move `plan` is one step in `dir` to another cell of `map`.
pub open spec fn is_step(map: MapView, plan: PlanView, dir: Dir) -> bool {
    plan == step_plan(map, dir, plan.old_x, plan.old_y) && !(plan.new_x == plan.old_x && plan.new_y
        == plan.old_y)
}

/// The moves planned for a step are a chain, far end first. Each is one step in the
/// direction of the step. The first leads to a free cell; every other leads to the cell that
/// the move before it leaves, which holds something that gives way. Unless the plan is full,
/// the last move is that of the one who set out.
pub proof fn plan_is_a_chain(
    x: int,
    y: int,
    map: MapView,
    entities: EntitiesView,
    dir: Dir,
    flags: crate::movement::Flags,
)
    ensures
        ({
            let plans = planned(x, y, map, entities, dir, flags);
            &&& plans.len() <= crate::movement::PLAN_CAPACITY
            &&& forall|i: int| 0 <= i < plans.len() ==> is_step(map, #[trigger] plans[i], dir)
            &&& forall|i: int|
                0 <= i < plans.len() - 1 ==> (#[trigger] plans[i]).old_x == plans[i + 1].new_x
                    && plans[i].old_y == plans[i + 1].new_y
            &&& forall|i: int|
                1 <= i < plans.len() ==> allowed(
                    map,
                    entities,
                    (#[trigger] plans[i]).new_x,
                    plans[i].new_y,
                    flags,
                ) == Allowed::Push
            &&& plans.len() > 0 ==> allowed(map, entities, plans[0].new_x, plans[0].new_y, flags)
                == Allowed::Move
            &&& 0 < plans.len() < crate::movement::PLAN_CAPACITY ==> plans[plans.len() - 1]
                == step_plan(map, dir, x, y)
        }),
    decreases crate::movement::room(map, dir, x, y),
{
    let to = step_on(map, dir, x, y);
    if !(to.0 == x && to.1 == y) && allowed(map, entities, to.0, to.1, flags) == Allowed::Push {
        plan_is_a_chain(to.0, to.1, map, entities, dir, flags);
        let further = planned(to.0, to.1, map, entities, dir, flags);
        let plans = planned(x, y, map, entities, dir, flags);
        if further.len() > 0 && further.len() < crate::movement::PLAN_CAPACITY {
            assert(plans == further.push(step_plan(map, dir, x, y)));
            assert forall|i: int| 0 <= i < plans.len() - 1 implies (#[trigger] plans[i]).old_x
                == plans[i + 1].new_x && plans[i].old_y == plans[i + 1].new_y by {
                if i < further.len() - 1 {
                    assert(plans[i] == further[i]);
                    assert(plans[i + 1] == further[i + 1]);
                }
            }
            assert forall|i: int| 1 <= i < plans.len() implies allowed(
                map,
                entities,
                (#[trigger] plans[i]).new_x,
                plans[i].new_y,
                flags,
            ) == Allowed::Push by {
                if i < further.len() {
                    assert(plans[i] == further[i]);
                }
            }
            assert(plans[0] == further[0]);
        }
    }
}

/// The cell `k` cells from `(x, y)` in `dir`.
pub open spec fn ahead(dir: Dir, x: int, y: int, k: int) -> (int, int) {
    match dir {
        Dir::Up => (x, y - k),
        Dir::Down => (x, y + k),
        Dir::Left => (x - k, y),
        Dir::Right => (x + k, y),
    }
}

/// The move from the cell `k` cells ahead of `(x, y)` to the next.
pub open spec fn move_ahead(dir: Dir, x: int, y: int, k: int) -> PlanView {
    PlanView {
        old_x: ahead(dir, x, y, k).0,
        old_y: ahead(dir, x, y, k).1,
        new_x: ahead(dir, x, y, k + 1).0,
        new_y: ahead(dir, x, y, k + 1).1,
    }
}

/// A plan that is not full, made for a step from a cell of the map, moves what stands in the
/// cells ahead, one cell on each, the farthest first, and all of it on the map.
pub proof fn lemma_plan_cells(
    x: int,
    y: int,
    map: MapView,
    entities: EntitiesView,
    dir: Dir,
    flags: crate::movement::Flags,
)
    requires
        map.valid(),
        map.inside((x, y)),
    ensures
        ({
            let plans = planned(x, y, map, entities, dir, flags);
            plans.len() < crate::movement::PLAN_CAPACITY ==> {
                &&& forall|i: int|
                    0 <= i < plans.len() ==> #[trigger] plans[i] == move_ahead(
                        dir,
                        x,
                        y,
                        plans.len() - 1 - i,
                    )
                &&& forall|k: int|
                    0 <= k <= plans.len() ==> map.inside(#[trigger] ahead(dir, x, y, k))
            }
        }),
    decreases crate::movement::room(map, dir, x, y),
{
    let to = step_on(map, dir, x, y);
    let plans = planned(x, y, map, entities, dir, flags);
    if !(to.0 == x && to.1 == y) {
        assert(to == ahead(dir, x, y, 1));
        assert(map.inside(to));
        if allowed(map, entities, to.0, to.1, flags) == Allowed::Push {
            lemma_plan_cells(to.0, to.1, map, entities, dir, flags);
            let further = planned(to.0, to.1, map, entities, dir, flags);
            if plans.len() < crate::movement::PLAN_CAPACITY && further.len() > 0 {
                assert(plans == further.push(step_plan(map, dir, x, y)));
                assert forall|i: int| 0 <= i < plans.len() implies #[trigger] plans[i]
                    == move_ahead(dir, x, y, plans.len() - 1 - i) by {
                    if i < further.len() {
                        assert(plans[i] == further[i]);
                        assert(further[i] == move_ahead(dir, to.0, to.1, further.len() - 1 - i));
                    }
                }
                assert forall|k: int| 0 <= k <= plans.len() implies map.inside(
                    #[trigger] ahead(dir, x, y, k),
                ) by {
                    if k >= 1 {
                        assert(ahead(dir, x, y, k) == ahead(dir, to.0, to.1, k - 1));
                    }
                }
            }
        }
    }
}

/// Making the moves of a chain from index `from` on takes the one who set out one cell on:
/// what is moved before stands in other cells and goes to other cells, so the one found first
/// in the cell of setting out is found there still when its own move, the last, is made.
proof fn lemma_chain_moves_the_first(
    start: EntitiesView,
    entities: EntitiesView,
    map: MapView,
    plans: Seq<PlanView>,
    from: int,
    x: int,
    y: int,
    dir: Dir,
    slot: int,
)
    requires
        map.valid(),
        map.inside((x, y)),
        0 <= from < plans.len(),
        forall|i: int|
            0 <= i < plans.len() ==> #[trigger] plans[i] == move_ahead(
                dir,
                x,
                y,
                plans.len() - 1 - i,
            ),
        forall|k: int| 0 <= k <= plans.len() ==> map.inside(#[trigger] ahead(dir, x, y, k)),
        start.first_mob_at(x, y) == Some(slot),
        entities.mobs.len() == start.mobs.len(),
        forall|j: int|
            0 <= j < start.mobs.len() ==> (#[trigger] entities.mobs[j]).at(x, y)
                == start.mobs[j].at(x, y),
        entities.mobs[slot] == start.mobs[slot],
    ensures
        performed_from(entities, map, plans, from).mobs.len() == start.mobs.len(),
        performed_from(entities, map, plans, from).mobs[slot] == start.mobs[slot].moved_to(
            ahead(dir, x, y, 1).0,
            ahead(dir, x, y, 1).1,
        ),
    decreases plans.len() - from,
{
    let k = plans.len() - 1 - from;
    let old_cell = ahead(dir, x, y, k);
    let new_cell = ahead(dir, x, y, k + 1);
    assert(plans[from] == move_ahead(dir, x, y, k));
    assert(map.inside(old_cell));
    assert(map.inside(new_cell));
    lemma_first_from(start.mobs, x, y, 0);
    lemma_first_from(entities.mobs, old_cell.0, old_cell.1, 0);
    let moved = entities.with_occupant_moved(
        map,
        old_cell.0,
        old_cell.1,
        held_between(new_cell.0, 0, far_corner(map).0),
        held_between(new_cell.1, 0, far_corner(map).1),
    );
    if k == 0 {
        assert forall|j: int| 0 <= j < slot implies !(#[trigger] entities.mobs[j]).at(x, y) by {
            assert(!start.mobs[j].at(x, y));
        }
        lemma_first_is_found(entities.mobs, x, y, 0, slot);
        reveal_with_fuel(performed_from, 2);
        assert(performed_from(entities, map, plans, from) == moved);
    } else {
        assert(old_cell != (x, y));
        assert(new_cell != (x, y));
        assert forall|j: int| 0 <= j < start.mobs.len() implies (#[trigger] moved.mobs[j]).at(
            x,
            y,
        ) == start.mobs[j].at(x, y) by {
            assert(entities.mobs[j].at(x, y) == start.mobs[j].at(x, y));
        }
        lemma_chain_moves_the_first(start, moved, map, plans, from + 1, x, y, dir, slot);
    }
}

/// Whoever is found in a cell of the map and sets out on a step that is planned, by whatever
/// rules, with room left in the plan, is one cell on in the direction of the step afterwards.
pub proof fn planned_step_moves_one_cell(
    map: MapView,
    entities: EntitiesView,
    slot: int,
    dir: Dir,
    flags: crate::movement::Flags,
)
    requires
        map.valid(),
        0 <= slot < entities.mobs.len(),
        map.inside((entities.mobs[slot].x, entities.mobs[slot].y)),
        entities.first_mob_at(entities.mobs[slot].x, entities.mobs[slot].y) == Some(slot),
        0 < planned(
            entities.mobs[slot].x,
            entities.mobs[slot].y,
            map,
            entities,
            dir,
            flags,
        ).len() < crate::movement::PLAN_CAPACITY,
    ensures
        ({
            let mover = entities.mobs[slot];
            let to = step(dir, mover.x, mover.y);
            let after = performed(
                entities,
                map,
                planned(mover.x, mover.y, map, entities, dir, flags),
            );
            &&& to == ahead(dir, mover.x, mover.y, 1)
            &&& map.inside(to)
            &&& after.mobs.len() == entities.mobs.len()
            &&& after.mobs[slot] == mover.moved_to(to.0, to.1)
        }),
{
    let mover = entities.mobs[slot];
    lemma_plan_cells(mover.x, mover.y, map, entities, dir, flags);
    let plans = planned(mover.x, mover.y, map, entities, dir, flags);
    assert(map.inside(ahead(dir, mover.x, mover.y, 1)));
    lemma_chain_moves_the_first(entities, entities, map, plans, 0, mover.x, mover.y, dir, slot);
}

} // verus!
