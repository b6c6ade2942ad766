use vstd::prelude::*;
use crate::entities::{Entities, EntitiesView};
use crate::map::{GameMap, MapView};
use crate::movement::{
    allowed, allowed_to, perform, performed, plan, planned, step, Allowed, Dir, PlanView, Planned,
};
use crate::movement::step_on;
use crate::path_proofs::{
    free_grid, is_shortest, lemma_free_grid_is_open, lemma_straight_route, open_grid,
    shortest_route_heads_closer, straight_route, walled_in, walled_in_has_no_route,
};
use crate::xy::{clamped, H, W, X, Y};

verus! {

/// How many steps lie between two cells when each step goes to a cell beside the last.
pub open spec fn distance(x: int, y: int, target_x: int, target_y: int) -> int {
    (if x >= target_x {
        x - target_x
    } else {
        target_x - x
    }) + (if y >= target_y {
        y - target_y
    } else {
        target_y - y
    })
}

/// The four cells beside `(x, y)`: left, right, above, below. At the edge of the coordinate
/// range one of them is `(x, y)` itself.
pub open spec fn beside(x: int, y: int) -> Seq<(int, int)> {
    seq![(clamped(x - 1), y), (clamped(x + 1), y), (x, clamped(y - 1)), (x, clamped(y + 1))]
}

/// Whether a walker may enter the cell `(x, y)`.
pub open spec fn enterable(map: MapView, entities: EntitiesView, x: int, y: int) -> bool {
    allowed(map, entities, x, y, 0) != Allowed::Not
}

/// Whether a walk may go from `from` straight to `to`.
pub open spec fn linked(map: MapView, entities: EntitiesView, from: (int, int), to: (int, int)) -> bool {
    beside(from.0, from.1).contains(to) && enterable(map, entities, to.0, to.1)
}

/// Whether `route` is a walk from `start` to `target`.
pub open spec fn is_route(
    map: MapView,
    entities: EntitiesView,
    route: Seq<(int, int)>,
    start: (int, int),
    target: (int, int),
) -> bool {
    &&& route.len() >= 1
    &&& route[0] == start
    &&& route[route.len() - 1] == target
    &&& forall|i: int|
        0 <= i < route.len() - 1 ==> linked(map, entities, #[trigger] route[i], route[i + 1])
}

/// The cells of `route`.
pub open spec fn cells_of(route: Seq<(X, Y)>) -> Seq<(int, int)> {
    Seq::new(route.len(), |i: int| (route[i].0@, route[i].1@))
}

/// The way to `cell`, at the cost of one step, if a walker may enter it.
pub open spec fn way_to(map: MapView, entities: EntitiesView, cell: (int, int)) -> Seq<
    ((int, int), usize),
> {
    if enterable(map, entities, cell.0, cell.1) {
        seq![(cell, 1usize)]
    } else {
        Seq::empty()
    }
}

/// The cells that a walker at `(x, y)` may go to next, each with the cost of going there: of
/// the cells left, right, above and below, in this order, those that may be entered.
pub open spec fn ways_on(map: MapView, entities: EntitiesView, x: int, y: int) -> Seq<
    ((int, int), usize),
> {
    way_to(map, entities, beside(x, y)[0]) + way_to(map, entities, beside(x, y)[1]) + way_to(
        map,
        entities,
        beside(x, y)[2],
    ) + way_to(map, entities, beside(x, y)[3])
}

/// The cells and costs of `ways`.
pub open spec fn ways_of(ways: Seq<((X, Y), usize)>) -> Seq<((int, int), usize)> {
    Seq::new(ways.len(), |i: int| ((ways[i].0.0@, ways[i].0.1@), ways[i].1))
}

fn add_way(ways: &mut Vec<((X, Y), usize)>, map: &GameMap, entities: &Entities, x: X, y: Y)
    ensures
        ways_of(final(ways)@) == ways_of(old(ways)@) + way_to(map@, entities@, (x@, y@)),
{
    if allowed_to(map, entities, x, y, 0) != Allowed::Not {
        ways.push(((x, y), 1));
        assert(ways_of(ways@) =~= ways_of(old(ways)@) + seq![((x@, y@), 1usize)]);
    } else {
        assert(ways_of(ways@) =~= ways_of(old(ways)@) + Seq::empty());
    }
}

/// The cells that a walker at `(x, y)` may go to next, each with the cost of going there.
pub fn open_neighbors(map: &GameMap, entities: &Entities, x: X, y: Y) -> (r: Vec<((X, Y), usize)>)
    ensures
        ways_of(r@) == ways_on(map@, entities@, x@, y@),
{
    let mut ways: Vec<((X, Y), usize)> = Vec::new();
    assert(ways_of(ways@) =~= Seq::empty());
    add_way(&mut ways, map, entities, x - W::one(), y);
    add_way(&mut ways, map, entities, x + W::one(), y);
    add_way(&mut ways, map, entities, x, y - H::one());
    add_way(&mut ways, map, entities, x, y + H::one());
    assert(ways_of(ways@) =~= ways_on(map@, entities@, x@, y@));
    ways
}

/// How many steps lie between `(x, y)` and the target.
pub fn manhattan(x: X, y: Y, target_x: X, target_y: Y) -> (r: usize)
    ensures
        r == distance(x@, y@, target_x@, target_y@),
{
    let across: usize = if x.usize() >= target_x.usize() {
        x.usize() - target_x.usize()
    } else {
        target_x.usize() - x.usize()
    };
    let down: usize = if y.usize() >= target_y.usize() {
        y.usize() - target_y.usize()
    } else {
        target_y.usize() - y.usize()
    };
    across + down
}

/// Whether `(x, y)` is the target.
pub fn same_cell(x: X, y: Y, target_x: X, target_y: Y) -> (r: bool)
    ensures
        r == (x@ == target_x@ && y@ == target_y@),
{
    x == target_x && y == target_y
}

/// The walk that the search hands back for a walker at `(start_x, start_y)` who is to reach
/// `(target_x, target_y)`: one shortest walk among those there are, and none where there is no
/// walk. Which of several shortest walks it is, the search decides.
pub uninterp spec fn shortest_route(
    start_x: int,
    start_y: int,
    entities: EntitiesView,
    map: MapView,
    target_x: int,
    target_y: int,
) -> Option<Seq<(int, int)>>;

/// Runs `pathfinding::prelude::astar` from the start cell, with `open_neighbors` for the ways
/// on, `manhattan` for the estimate and `same_cell` for the goal, and hands back what it
/// returns: the path and its cost.
///
/// Taken on trust, of that search: what it returns depends on these arguments alone; a path
/// it returns begins at the start, ends at the target and goes from each cell to one that
/// `open_neighbors` gave for it; no walk to the target has fewer cells; and it returns none only
/// where there is no walk to the target. The search promises a shortest path where the
/// estimate never exceeds what is left to go; that it does not is proved in
/// `route_is_no_shorter_than_distance`, and that the ways on are the links of a walk in
/// `ways_on_are_the_links`.
#[verifier::external_body]
fn astar_route(
    start_x: X,
    start_y: Y,
    entities: &Entities,
    map: &GameMap,
    target_x: X,
    target_y: Y,
) -> (r: Option<(Vec<(X, Y)>, usize)>)
    ensures
        match r {
            Some(found) => shortest_route(start_x@, start_y@, entities@, map@, target_x@, target_y@)
                == Some(cells_of(found.0@)),
            None => shortest_route(start_x@, start_y@, entities@, map@, target_x@, target_y@)
                is None,
        },
        r matches Some(found) ==> is_route(
            map@,
            entities@,
            cells_of(found.0@),
            (start_x@, start_y@),
            (target_x@, target_y@),
        ),
        r matches Some(found) ==> forall|other: Seq<(int, int)>|
            is_route(map@, entities@, other, (start_x@, start_y@), (target_x@, target_y@))
                ==> found.0@.len() <= other.len(),
        r is None ==> forall|other: Seq<(int, int)>|
            !is_route(map@, entities@, other, (start_x@, start_y@), (target_x@, target_y@)),
{
    pathfinding::prelude::astar(
        &(start_x, start_y),
        |cell: &(X, Y)| open_neighbors(map, entities, cell.0, cell.1),
        |cell: &(X, Y)| manhattan(cell.0, cell.1, target_x, target_y),
        |cell: &(X, Y)| same_cell(cell.0, cell.1, target_x, target_y),
    )
}

/// The direction of the first step of `route`: from its first cell to its second, where the
/// second lies straight above, below, left or right of the first.
pub open spec fn heading(route: Seq<(int, int)>) -> Option<Dir> {
    if route.len() < 2 {
        None
    } else {
        let (start_x, start_y) = route[0];
        let (next_x, next_y) = route[1];
        if start_x == next_x && start_y < next_y {
            Some(Dir::Down)
        } else if start_x == next_x && start_y > next_y {
            Some(Dir::Up)
        } else if start_x < next_x && start_y == next_y {
            Some(Dir::Right)
        } else if start_x > next_x && start_y == next_y {
            Some(Dir::Left)
        } else {
            None
        }
    }
}

/// The direction of the first step of `route`.
pub fn first_step(route: &Vec<(X, Y)>) -> (r: Option<Dir>)
    ensures
        r == heading(cells_of(route@)),
{
    if route.len() < 2 {
        return None;
    }
    let start_x: usize = route[0].0.usize();
    let start_y: usize = route[0].1.usize();
    let next_x: usize = route[1].0.usize();
    let next_y: usize = route[1].1.usize();
    if start_x == next_x && start_y < next_y {
        Some(Dir::Down)
    } else if start_x == next_x && start_y > next_y {
        Some(Dir::Up)
    } else if start_x < next_x && start_y == next_y {
        Some(Dir::Right)
    } else if start_x > next_x && start_y == next_y {
        Some(Dir::Left)
    } else {
        None
    }
}

/// The moves that take whatever occupies `(x, y)` one step along `route`: those of a step in
/// the route's heading, by the usual rules; none where there is no route or it has no heading.
pub open spec fn planned_along(
    route: Option<Seq<(int, int)>>,
    x: int,
    y: int,
    entities: EntitiesView,
    map: MapView,
) -> Seq<PlanView> {
    match route {
        Some(cells) => match heading(cells) {
            Some(dir) => planned(x, y, map, entities, dir, 0),
            None => Seq::empty(),
        },
        None => Seq::empty(),
    }
}

/// Plans the step of whatever occupies `(entity_x, entity_y)` along `route`.
pub fn plan_along(
    route: &Option<Vec<(X, Y)>>,
    entity_x: X,
    entity_y: Y,
    entities: &Entities,
    map: &GameMap,
) -> (r: Planned)
    ensures
        r@ == planned_along(
            match route {
                Some(cells) => Some(cells_of(cells@)),
                None => None,
            },
            entity_x@,
            entity_y@,
            entities@,
            map@,
        ),
{
    match route {
        Some(cells) => match first_step(cells) {
            Some(dir) => plan(entity_x, entity_y, map, entities, dir),
            None => Planned::default(),
        },
        None => Planned::default(),
    }
}

/// The moves that take whatever occupies `(x, y)` one step towards the target.
pub open spec fn planned_towards(
    x: int,
    y: int,
    entities: EntitiesView,
    map: MapView,
    target_x: int,
    target_y: int,
) -> Seq<PlanView> {
    planned_along(shortest_route(x, y, entities, map, target_x, target_y), x, y, entities, map)
}

/// Whether a step in `dir` from `(x, y)` leaves fewer steps to go to the target.
pub open spec fn comes_closer(dir: Dir, x: int, y: int, target_x: int, target_y: int) -> bool {
    distance(step(dir, x, y).0, step(dir, x, y).1, target_x, target_y) < distance(
        x,
        y,
        target_x,
        target_y,
    )
}

/// Plans the step of whatever occupies `(entity_x, entity_y)` along a shortest walk to the
/// target; plans nothing where there is no walk, or the walk is over. The walk is the one that
/// `shortest_route` names: a shortest walk where there is a walk at all. Where every cell but
/// the start may be entered, the step planned is one that comes closer to the target; where
/// those cells are all free and start and target lie on the map, that step is the whole plan.
pub fn plan_entity_on_path_towards(
    entity_x: X,
    entity_y: Y,
    entities: &Entities,
    map: &GameMap,
    target_x: X,
    target_y: Y,
) -> (r: Planned)
    ensures
        r@ == planned_towards(entity_x@, entity_y@, entities@, map@, target_x@, target_y@),
        shortest_route(entity_x@, entity_y@, entities@, map@, target_x@, target_y@) matches Some(
            route,
        ) ==> is_shortest(
            map@,
            entities@,
            route,
            (entity_x@, entity_y@),
            (target_x@, target_y@),
        ),
        shortest_route(entity_x@, entity_y@, entities@, map@, target_x@, target_y@) is None
            ==> forall|route: Seq<(int, int)>|
            !is_route(map@, entities@, route, (entity_x@, entity_y@), (target_x@, target_y@)),
        (entity_x@, entity_y@) == (target_x@, target_y@) ==> r@.len() == 0,
        (forall|route: Seq<(int, int)>|
            !is_route(map@, entities@, route, (entity_x@, entity_y@), (target_x@, target_y@)))
            ==> r@.len() == 0,
        walled_in(map@, entities@, (target_x@, target_y@)) && (entity_x@, entity_y@) != (
            target_x@,
            target_y@,
        ) && !beside(target_x@, target_y@).contains((entity_x@, entity_y@)) ==> r@.len() == 0,
        open_grid(map@, entities@, (entity_x@, entity_y@)) && (entity_x@, entity_y@) != (
            target_x@,
            target_y@,
        ) ==> exists|dir: Dir|
            comes_closer(dir, entity_x@, entity_y@, target_x@, target_y@) && r@ == planned(
                entity_x@,
                entity_y@,
                map@,
                entities@,
                dir,
                0,
            ),
        free_grid(map@, entities@, (entity_x@, entity_y@)) && (entity_x@, entity_y@) != (
            target_x@,
            target_y@,
        ) && map@.inside((entity_x@, entity_y@)) && map@.inside((target_x@, target_y@))
            ==> exists|dir: Dir|
            comes_closer(dir, entity_x@, entity_y@, target_x@, target_y@) && r@ == seq![
                PlanView {
                    old_x: entity_x@,
                    old_y: entity_y@,
                    new_x: step(dir, entity_x@, entity_y@).0,
                    new_y: step(dir, entity_x@, entity_y@).1,
                },
            ],
{
    let found = astar_route(entity_x, entity_y, entities, map, target_x, target_y);
    let route: Option<Vec<(X, Y)>> = match found {
        Some(found) => Some(found.0),
        None => None,
    };
    // Reading the coordinates and the map brings their range and its validity into sight for
    // what follows.
    let _ = (entity_x.get(), entity_y.get(), target_x.get(), target_y.get(), map.data());
    proof {
        let start = (entity_x@, entity_y@);
        let target = (target_x@, target_y@);
        if start == target {
            let stay = seq![start];
            assert(is_route(map@, entities@, stay, start, target));
            match &route {
                Some(cells) => {
                    assert(cells@.len() <= stay.len());
                    assert(heading(cells_of(cells@)) is None);
                },
                None => {},
            }
        }
        if walled_in(map@, entities@, target) && start != target && !beside(
            target.0,
            target.1,
        ).contains(start) {
            assert forall|route: Seq<(int, int)>|
                !is_route(map@, entities@, route, start, target) by {
                walled_in_has_no_route(map@, entities@, route, start, target);
            }
        }
        if free_grid(map@, entities@, start) {
            lemma_free_grid_is_open(map@, entities@, start);
        }
        if open_grid(map@, entities@, start) && start != target {
            match &route {
                Some(cells) => {
                    shortest_route_heads_closer(map@, entities@, cells_of(cells@), start, target);
                    let dir = heading(cells_of(cells@))->0;
                    assert(comes_closer(dir, entity_x@, entity_y@, target_x@, target_y@));
                    if free_grid(map@, entities@, start) && map@.inside(start) && map@.inside(
                        target,
                    ) {
                        let to = step(dir, start.0, start.1);
                        assert(to == cells_of(cells@)[1]);
                        assert(to != start);
                        assert(map@.inside(to));
                        assert(step_on(map@, dir, start.0, start.1) == to);
                        assert(allowed(map@, entities@, to.0, to.1, 0) == Allowed::Move);
                        assert(planned(start.0, start.1, map@, entities@, dir, 0) =~= seq![
                            PlanView { old_x: start.0, old_y: start.1, new_x: to.0, new_y: to.1 },
                        ]);
                    }
                },
                None => {
                    lemma_straight_route(
                        map@,
                        entities@,
                        start.0,
                        start.1,
                        target.0,
                        target.1,
                        start,
                    );
                    assert(is_route(
                        map@,
                        entities@,
                        straight_route(start.0, start.1, target.0, target.1),
                        start,
                        target,
                    ));
                },
            }
        }
    }
    plan_along(&route, entity_x, entity_y, entities, map)
}

/// Makes whatever occupies `(entity_x, entity_y)` step along a shortest walk to the target.
pub fn move_entity_on_path_towards(
    entity_x: X,
    entity_y: Y,
    entities: &mut Entities,
    map: &GameMap,
    target_x: X,
    target_y: Y,
)
    ensures
        final(entities)@ == performed(
            old(entities)@,
            map@,
            planned_towards(entity_x@, entity_y@, old(entities)@, map@, target_x@, target_y@),
        ),
{
    let planned = plan_entity_on_path_towards(entity_x, entity_y, entities, map, target_x, target_y);
    perform(entities, map, planned);
}

} // verus!
