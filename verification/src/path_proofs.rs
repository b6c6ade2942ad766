use vstd::prelude::*;
use crate::entities::EntitiesView;
use crate::map::MapView;
use crate::movement::{step};
use crate::path::{beside, distance, enterable, heading, is_route, linked, way_to, ways_on};

verus! {

/// Whether `cell` lies in the coordinate range.
pub open spec fn in_range(cell: (int, int)) -> bool {
    0 <= cell.0 <= 240 && 0 <= cell.1 <= 240
}

/// Whether a walker may enter every cell of the coordinate range but `except`, which is
/// where the walker stands.
pub open spec fn open_grid(map: MapView, entities: EntitiesView, except: (int, int)) -> bool {
    forall|x: int, y: int|
        0 <= x <= 240 && 0 <= y <= 240 && (x, y) != except ==> #[trigger] enterable(
            map,
            entities,
            x,
            y,
        )
}

/// Whether every cell of the coordinate range but `except` is free to step on.
pub open spec fn free_grid(map: MapView, entities: EntitiesView, except: (int, int)) -> bool {
    forall|x: int, y: int|
        0 <= x <= 240 && 0 <= y <= 240 && (x, y) != except ==> #[trigger] crate::movement::allowed(
            map,
            entities,
            x,
            y,
            0,
        ) == crate::movement::Allowed::Move
}

/// A grid of free cells is an open grid.
pub proof fn lemma_free_grid_is_open(map: MapView, entities: EntitiesView, except: (int, int))
    requires
        free_grid(map, entities, except),
    ensures
        open_grid(map, entities, except),
{
    assert forall|x: int, y: int|
        0 <= x <= 240 && 0 <= y <= 240 && (x, y) != except implies #[trigger] enterable(
        map,
        entities,
        x,
        y,
    ) by {
        assert(crate::movement::allowed(map, entities, x, y, 0) == crate::movement::Allowed::Move);
    }
}

/// Whether a walker may enter none of the cells beside `target`.
pub open spec fn walled_in(map: MapView, entities: EntitiesView, target: (int, int)) -> bool {
    forall|i: int|
        0 <= i < 4 && (#[trigger] beside(target.0, target.1)[i]) != target ==> !enterable(
            map,
            entities,
            beside(target.0, target.1)[i].0,
            beside(target.0, target.1)[i].1,
        )
}

/// Whether `route` is a walk from `start` to `target` that no walk between them is shorter than.
pub open spec fn is_shortest(
    map: MapView,
    entities: EntitiesView,
    route: Seq<(int, int)>,
    start: (int, int),
    target: (int, int),
) -> bool {
    &&& is_route(map, entities, route, start, target)
    &&& forall|other: Seq<(int, int)>| #[trigger]
        is_route(map, entities, other, start, target) ==> route.len() <= other.len()
}

/// A cell beside a cell of the coordinate range is the cell itself or one step from it, and
/// lies in the range.
pub proof fn lemma_beside(from: (int, int), to: (int, int))
    requires
        in_range(from),
        beside(from.0, from.1).contains(to),
    ensures
        in_range(to),
        to == from || to == (from.0 - 1, from.1) || to == (from.0 + 1, from.1) || to == (
            from.0,
            from.1 - 1,
        ) || to == (from.0, from.1 + 1),
        to != from ==> beside(to.0, to.1).contains(from),
{
    let cells = beside(from.0, from.1);
    let i = choose|i: int| 0 <= i < cells.len() && cells[i] == to;
    assert(cells[i] == to);
    if to != from {
        let back = beside(to.0, to.1);
        if i == 0 {
            assert(back[1] == from);
        } else if i == 1 {
            assert(back[0] == from);
        } else if i == 2 {
            assert(back[3] == from);
        } else {
            assert(back[2] == from);
        }
    }
}

/// The ways on from a cell are the cells that a walk may go to from it, each at the cost of
/// one step.
pub proof fn ways_on_are_the_links(
    map: MapView,
    entities: EntitiesView,
    from: (int, int),
    to: (int, int),
)
    ensures
        linked(map, entities, from, to) <==> ways_on(map, entities, from.0, from.1).contains(
            (to, 1usize),
        ),
        forall|i: int|
            0 <= i < ways_on(map, entities, from.0, from.1).len() ==> (#[trigger] ways_on(
                map,
                entities,
                from.0,
                from.1,
            )[i]).1 == 1,
{
    let cells = beside(from.0, from.1);
    let ways = ways_on(map, entities, from.0, from.1);
    let a = way_to(map, entities, cells[0]);
    let b = way_to(map, entities, cells[1]);
    let c = way_to(map, entities, cells[2]);
    let d = way_to(map, entities, cells[3]);
    assert(ways == a + b + c + d);
    assert forall|i: int| 0 <= i < ways.len() implies (#[trigger] ways[i]).1 == 1 && (exists|
        k: int,
    |
        0 <= k < 4 && ways[i].0 == cells[k] && enterable(map, entities, cells[k].0, cells[k].1)) by {
        if i < a.len() {
            assert(ways[i] == a[i]);
            assert(ways[i].0 == cells[0]);
        } else if i < a.len() + b.len() {
            assert(ways[i] == b[i - a.len()]);
            assert(ways[i].0 == cells[1]);
        } else if i < a.len() + b.len() + c.len() {
            assert(ways[i] == c[i - a.len() - b.len()]);
            assert(ways[i].0 == cells[2]);
        } else {
            assert(ways[i] == d[i - a.len() - b.len() - c.len()]);
            assert(ways[i].0 == cells[3]);
        }
    }
    if linked(map, entities, from, to) {
        let k = choose|k: int| 0 <= k < cells.len() && cells[k] == to;
        assert(cells[k] == to);
        if k == 0 {
            assert(ways[0] == (to, 1usize));
        } else if k == 1 {
            assert(ways[a.len() as int] == (to, 1usize));
        } else if k == 2 {
            assert(ways[(a.len() + b.len()) as int] == (to, 1usize));
        } else {
            assert(ways[(a.len() + b.len() + c.len()) as int] == (to, 1usize));
        }
        assert(ways.contains((to, 1usize)));
    }
    if ways.contains((to, 1usize)) {
        let i = choose|i: int| 0 <= i < ways.len() && ways[i] == (to, 1usize);
        assert(ways[i].0 == to);
        let k = choose|k: int|
            0 <= k < 4 && ways[i].0 == cells[k] && enterable(map, entities, cells[k].0, cells[k].1);
        assert(cells[k] == to);
        assert(cells.contains(to));
    }
}

/// A walk without its first cell is a walk from its second cell.
pub proof fn lemma_rest_of_route(
    map: MapView,
    entities: EntitiesView,
    route: Seq<(int, int)>,
    start: (int, int),
    target: (int, int),
)
    requires
        is_route(map, entities, route, start, target),
        route.len() >= 2,
    ensures
        is_route(map, entities, route.skip(1), route[1], target),
        linked(map, entities, start, route[1]),
{
    let rest = route.skip(1);
    assert(linked(map, entities, route[0], route[0int + 1]));
    assert forall|i: int| 0 <= i < rest.len() - 1 implies linked(
        map,
        entities,
        #[trigger] rest[i],
        rest[i + 1],
    ) by {
        assert(linked(map, entities, route[i + 1], route[i + 1 + 1]));
    }
}

/// The estimate never exceeds the walk: a walk between two cells has at least as many steps as
/// their distance.
pub proof fn route_is_no_shorter_than_distance(
    map: MapView,
    entities: EntitiesView,
    route: Seq<(int, int)>,
    start: (int, int),
    target: (int, int),
)
    requires
        in_range(start),
        is_route(map, entities, route, start, target),
    ensures
        distance(start.0, start.1, target.0, target.1) <= route.len() - 1,
    decreases route.len(),
{
    if route.len() >= 2 {
        lemma_rest_of_route(map, entities, route, start, target);
        lemma_beside(start, route[1]);
        route_is_no_shorter_than_distance(map, entities, route.skip(1), route[1], target);
    }
}

/// The walk from `(x, y)` to the target that goes along the row first, then along the column.
pub open spec fn straight_route(x: int, y: int, target_x: int, target_y: int) -> Seq<(int, int)>
    decreases distance(x, y, target_x, target_y),
{
    if x < target_x {
        seq![(x, y)] + straight_route(x + 1, y, target_x, target_y)
    } else if x > target_x {
        seq![(x, y)] + straight_route(x - 1, y, target_x, target_y)
    } else if y < target_y {
        seq![(x, y)] + straight_route(x, y + 1, target_x, target_y)
    } else if y > target_y {
        seq![(x, y)] + straight_route(x, y - 1, target_x, target_y)
    } else {
        seq![(x, y)]
    }
}

/// Where every cell but one that is no nearer to the target may be entered, the straight walk
/// is a walk, of as many steps as the distance.
pub proof fn lemma_straight_route(
    map: MapView,
    entities: EntitiesView,
    x: int,
    y: int,
    target_x: int,
    target_y: int,
    except: (int, int),
)
    requires
        in_range((x, y)),
        in_range((target_x, target_y)),
        open_grid(map, entities, except),
        distance(except.0, except.1, target_x, target_y) >= distance(x, y, target_x, target_y),
    ensures
        is_route(
            map,
            entities,
            straight_route(x, y, target_x, target_y),
            (x, y),
            (target_x, target_y),
        ),
        straight_route(x, y, target_x, target_y).len() == distance(x, y, target_x, target_y) + 1,
    decreases distance(x, y, target_x, target_y),
{
    if x == target_x && y == target_y {
    } else {
        let next: (int, int) = if x < target_x {
            (x + 1, y)
        } else if x > target_x {
            (x - 1, y)
        } else if y < target_y {
            (x, y + 1)
        } else {
            (x, y - 1)
        };
        lemma_straight_route(map, entities, next.0, next.1, target_x, target_y, except);
        let rest = straight_route(next.0, next.1, target_x, target_y);
        let route = straight_route(x, y, target_x, target_y);
        assert(route =~= seq![(x, y)] + rest);
        assert(enterable(map, entities, next.0, next.1));
        let cells = beside(x, y);
        assert(cells[0] == next || cells[1] == next || cells[2] == next || cells[3] == next);
        assert(cells.contains(next));
        assert forall|i: int| 0 <= i < route.len() - 1 implies linked(
            map,
            entities,
            #[trigger] route[i],
            route[i + 1],
        ) by {
            if i == 0 {
                assert(route[1] == rest[0]);
            } else {
                assert(route[i] == rest[i - 1]);
                assert(route[i + 1] == rest[i - 1 + 1]);
                assert(linked(map, entities, rest[i - 1], rest[i - 1 + 1]));
            }
        }
    }
}

/// Where every cell but the start may be entered, a shortest walk to another cell begins with
/// a step straight up, down, left or right that leaves one step fewer to go.
pub proof fn shortest_route_heads_closer(
    map: MapView,
    entities: EntitiesView,
    route: Seq<(int, int)>,
    start: (int, int),
    target: (int, int),
)
    requires
        in_range(start),
        in_range(target),
        start != target,
        open_grid(map, entities, start),
        is_shortest(map, entities, route, start, target),
    ensures
        heading(route) is Some,
        step(heading(route)->0, start.0, start.1) == route[1],
        distance(route[1].0, route[1].1, target.0, target.1) == distance(
            start.0,
            start.1,
            target.0,
            target.1,
        ) - 1,
{
    lemma_straight_route(map, entities, start.0, start.1, target.0, target.1, start);
    let straight = straight_route(start.0, start.1, target.0, target.1);
    assert(is_route(map, entities, straight, start, target));
    route_is_no_shorter_than_distance(map, entities, route, start, target);
    lemma_rest_of_route(map, entities, route, start, target);
    lemma_beside(start, route[1]);
    route_is_no_shorter_than_distance(map, entities, route.skip(1), route[1], target);
}

/// Where a walker may enter none of the cells beside the target, and starts neither at the
/// target nor beside it, there is no walk to the target.
pub proof fn walled_in_has_no_route(
    map: MapView,
    entities: EntitiesView,
    route: Seq<(int, int)>,
    start: (int, int),
    target: (int, int),
)
    requires
        in_range(start),
        in_range(target),
        start != target,
        !beside(target.0, target.1).contains(start),
        walled_in(map, entities, target),
    ensures
        !is_route(map, entities, route, start, target),
    decreases route.len(),
{
    if is_route(map, entities, route, start, target) {
        assert(route.len() >= 2);
        lemma_rest_of_route(map, entities, route, start, target);
        let next = route[1];
        lemma_beside(start, next);
        if next == target {
            assert(beside(target.0, target.1).contains(start));
        } else if beside(target.0, target.1).contains(next) {
            let cells = beside(target.0, target.1);
            let i = choose|i: int| 0 <= i < cells.len() && cells[i] == next;
            assert(cells[i] == next);
            assert(!enterable(map, entities, cells[i].0, cells[i].1));
        } else if next == start {
            walled_in_has_no_route(map, entities, route.skip(1), start, target);
        } else {
            walled_in_has_no_route(map, entities, route.skip(1), next, target);
        }
    }
}

} // verus!
