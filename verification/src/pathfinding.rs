use vstd::prelude::*;

use crate::grid::{
    lemma_index_position, lemma_row_major, position_of_index, row_major, FarmGrid, Tile,
};
use crate::model::{manhattan_distance, RobotBody, TerrainKind, TilePos};

verus! {

/// Whether a ground robot of `body` may stand on `tile`. Water, rock and irrigation
/// channels stop every ground robot; wheeled robots also stay off paddy bunds and,
/// unless allowed, off planted tiles.
pub open spec fn ground_passable(tile: Tile, body: RobotBody, allow_planted_fields: bool) -> bool {
    &&& !(tile.terrain is Water)
    &&& !(tile.terrain is Rock)
    &&& !(tile.terrain is IrrigationChannel)
    &&& !(body is Wheeled && tile.terrain is PaddyBund)
    &&& (!(body is Wheeled) || tile.crop is None || allow_planted_fields)
}

/// A position a route may enter: on the grid, passable, and not occupied.
pub open spec fn open_at(
    grid: FarmGrid,
    p: TilePos,
    body: RobotBody,
    allow: bool,
    occupied: Seq<TilePos>,
) -> bool {
    &&& grid.in_bounds(p)
    &&& ground_passable(grid.tile_at(p), body, allow)
    &&& !occupied.contains(p)
}

/// A route: unit steps between neighbouring cells, starting on the grid, every
/// cell after the first one open.
pub open spec fn is_route(
    grid: FarmGrid,
    route: Seq<TilePos>,
    body: RobotBody,
    allow: bool,
    occupied: Seq<TilePos>,
) -> bool {
    &&& route.len() >= 1
    &&& grid.in_bounds(route[0])
    &&& forall|k: int|
        0 <= k < route.len() - 1 ==> manhattan_distance(#[trigger] route[k], route[k + 1]) == 1
    &&& forall|k: int| 1 <= k < route.len() ==> open_at(grid, #[trigger] route[k], body, allow, occupied)
}

/// `b` can be reached from `a` along a route.
pub open spec fn reachable(
    grid: FarmGrid,
    a: TilePos,
    b: TilePos,
    body: RobotBody,
    allow: bool,
    occupied: Seq<TilePos>,
) -> bool {
    exists|route: Seq<TilePos>|
        #[trigger] is_route(grid, route, body, allow, occupied) && route[0] == a && route.last()
            == b
}

/// Movement cost of entering a tile: rough soil is slow, very slow for wheels.
pub open spec fn step_cost_of(tile: Tile, body: RobotBody) -> int {
    if tile.terrain is RoughSoil {
        if body is Wheeled {
            6
        } else {
            3
        }
    } else {
        1
    }
}

/// What travelling a route costs: the cost of entering each cell after the first.
pub open spec fn route_cost(grid: FarmGrid, route: Seq<TilePos>, body: RobotBody) -> int
    decreases route.len(),
{
    if route.len() <= 1 {
        0
    } else {
        route_cost(grid, route.drop_last(), body) + step_cost_of(grid.tile_at(route.last()), body)
    }
}

/// `route` leads from `start` to `goal`, and no route between them costs less.
pub open spec fn cheapest_route(
    grid: FarmGrid,
    route: Seq<TilePos>,
    start: TilePos,
    goal: TilePos,
    body: RobotBody,
    allow: bool,
    occupied: Seq<TilePos>,
) -> bool {
    &&& is_route(grid, route, body, allow, occupied)
    &&& route[0] == start
    &&& route.last() == goal
    &&& forall|other: Seq<TilePos>|
        is_route(grid, other, body, allow, occupied) && other[0] == start && other.last() == goal
            ==> route_cost(grid, route, body) <= #[trigger] route_cost(grid, other, body)
}

/// Grids small enough that no route cost saturates a `u32`.
pub open spec fn small_grid(grid: FarmGrid) -> bool {
    7 * ((grid.width as int) * (grid.height as int)) < u32::MAX
}

/// The step a ground robot takes from `start` toward `goal`: the start itself when
/// already there; otherwise a neighbouring open cell from which the goal can still be
/// reached, and the second cell of a cheapest route to the goal, whose rest is a
/// cheapest route from the step, so that the step's cost plus the cheapest cost from
/// the step is the cheapest cost from the start.
pub open spec fn valid_first_step(
    grid: FarmGrid,
    start: TilePos,
    goal: TilePos,
    body: RobotBody,
    allow: bool,
    occupied: Seq<TilePos>,
    step: TilePos,
) -> bool {
    if start == goal {
        step == start
    } else {
        &&& manhattan_distance(start, step) == 1
        &&& open_at(grid, step, body, allow, occupied)
        &&& open_at(grid, goal, body, allow, occupied)
        &&& reachable(grid, step, goal, body, allow, occupied)
        &&& exists|route: Seq<TilePos>|
            #[trigger] cheapest_route(grid, route, start, goal, body, allow, occupied) && route.len() >= 2
                && route[1] == step && cheapest_route(
                grid,
                route.subrange(1, route.len() as int),
                step,
                goal,
                body,
                allow,
                occupied,
            ) && route_cost(grid, route, body) == step_cost_of(grid.tile_at(step), body) + route_cost(
                grid,
                route.subrange(1, route.len() as int),
                body,
            )
    }
}

/// When a search from `start` to `goal` must succeed.
pub open spec fn route_exists(
    grid: FarmGrid,
    start: TilePos,
    goal: TilePos,
    body: RobotBody,
    allow: bool,
    occupied: Seq<TilePos>,
) -> bool {
    &&& grid.in_bounds(start)
    &&& grid.in_bounds(goal)
    &&& (start == goal || (open_at(grid, goal, body, allow, occupied) && reachable(
        grid,
        start,
        goal,
        body,
        allow,
        occupied,
    )))
}

spec fn pos(grid: FarmGrid, i: int) -> TilePos {
    position_of_index(grid.width, i)
}

spec fn sat(a: int) -> int {
    if a < u32::MAX {
        a
    } else {
        u32::MAX as int
    }
}

/// Relaxing from `i` left the cost of neighbour `j` no higher than going through `i`.
spec fn bound_through(
    grid: FarmGrid,
    body: RobotBody,
    allow: bool,
    occupied: Seq<TilePos>,
    cost: Seq<u32>,
    i: int,
    j: int,
) -> bool {
    (0 <= j < cost.len() && manhattan_distance(pos(grid, i), pos(grid, j)) == 1 && open_at(
        grid,
        pos(grid, j),
        body,
        allow,
        occupied,
    )) ==> cost[j] as int <= sat(cost[i] as int + step_cost_of(grid.tiles@[j], body))
}

spec fn expanded(
    grid: FarmGrid,
    body: RobotBody,
    allow: bool,
    occupied: Seq<TilePos>,
    cost: Seq<u32>,
    i: int,
) -> bool {
    forall|j: int| #[trigger] bound_through(grid, body, allow, occupied, cost, i, j)
}

spec fn queued(frontier: Seq<(u32, u32, usize)>, i: int, c: u32) -> bool {
    exists|k: int| 0 <= k < frontier.len() && #[trigger] frontier[k] == (frontier[k].0, c, i as usize)
}

/// Facts about the search state that make the recorded parents a valid route back.
#[verifier::opaque]
spec fn sound_state(
    grid: FarmGrid,
    body: RobotBody,
    allow: bool,
    occupied: Seq<TilePos>,
    start: int,
    goal: TilePos,
    cost: Seq<u32>,
    came: Seq<Option<usize>>,
    frontier: Seq<(u32, u32, usize)>,
) -> bool {
    let n = grid.tiles@.len();
    &&& cost.len() == n
    &&& came.len() == n
    &&& 0 <= start < n
    &&& cost[start] == 0
    &&& came[start] is None
    &&& forall|i: int|
        0 <= i < n && #[trigger] came[i] is Some ==> {
            let p = came[i]->0 as int;
            &&& 0 <= p < n
            &&& manhattan_distance(pos(grid, p), pos(grid, i)) == 1
            &&& open_at(grid, pos(grid, i), body, allow, occupied)
            &&& cost[p] < cost[i]
            &&& cost[p] + step_cost_of(grid.tiles@[i], body) <= cost[i]
            &&& cost[i] < u32::MAX
        }
    &&& forall|i: int| 0 <= i < n && i != start && (#[trigger] cost[i]) < u32::MAX ==> came[i] is Some
    &&& forall|k: int|
        0 <= k < frontier.len() ==> {
            let e = #[trigger] frontier[k];
            &&& (e.2 as int) < n
            &&& e.1 >= cost[e.2 as int]
            &&& e.1 < u32::MAX
            &&& e.0 <= e.1 + manhattan_distance(pos(grid, e.2 as int), goal)
            &&& (e.2 as int == row_major(grid.width, goal) ==> e.0 == e.1)
        }
}

spec fn sum_costs(s: Seq<u32>) -> int
    decreases s.len(),
{
    if s.len() == 0 {
        0
    } else {
        sum_costs(s.drop_last()) + s.last()
    }
}

proof fn lemma_sum_costs_update(s: Seq<u32>, i: int, v: u32)
    requires
        0 <= i < s.len(),
    ensures
        sum_costs(s.update(i, v)) == sum_costs(s) - s[i] + v,
    decreases s.len(),
{
    if i == s.len() - 1 {
        assert(s.update(i, v).drop_last() =~= s.drop_last());
    } else {
        lemma_sum_costs_update(s.drop_last(), i, v);
        assert(s.update(i, v).drop_last() =~= s.drop_last().update(i, v));
    }
}

proof fn lemma_sum_costs_nonnegative(s: Seq<u32>)
    ensures
        sum_costs(s) >= 0,
    decreases s.len(),
{
    if s.len() > 0 {
        lemma_sum_costs_nonnegative(s.drop_last());
    }
}

fn is_open(
    grid: &FarmGrid,
    position: TilePos,
    body: RobotBody,
    allow_planted_fields: bool,
    occupied: &Vec<TilePos>,
) -> (r: bool)
    requires
        grid.wf(),
    ensures
        r == open_at(*grid, position, body, allow_planted_fields, occupied@),
{
    if !grid.contains(position) {
        return false;
    }
    proof {
        lemma_row_major(grid.width, grid.height, position);
    }
    let index = (position.y * grid.width + position.x) as usize;
    let tile = &grid.tiles[index];
    let passable = match tile.terrain {
        TerrainKind::Water | TerrainKind::Rock | TerrainKind::IrrigationChannel => false,
        TerrainKind::PaddyBund => body != RobotBody::Wheeled,
        _ => true,
    } && (body != RobotBody::Wheeled || tile.crop.is_none() || allow_planted_fields);
    if !passable {
        return false;
    }
    let mut k: usize = 0;
    while k < occupied.len()
        invariant
            k <= occupied@.len(),
            forall|m: int| 0 <= m < k ==> occupied@[m] != position,
        decreases occupied@.len() - k,
    {
        if occupied[k] == position {
            return false;
        }
        k += 1;
    }
    true
}

/// Whether a ground robot of `body` may stand on `position`.
pub fn is_passable(
    grid: &FarmGrid,
    position: TilePos,
    body: RobotBody,
    allow_planted_fields: bool,
) -> (r: bool)
    requires
        grid.wf(),
    ensures
        r == open_at(*grid, position, body, allow_planted_fields, Seq::<TilePos>::empty()),
{
    let none: Vec<TilePos> = Vec::new();
    is_open(grid, position, body, allow_planted_fields, &none)
}

fn step_cost(grid: &FarmGrid, index: usize, body: RobotBody) -> (r: u32)
    requires
        index < grid.tiles@.len(),
    ensures
        r == step_cost_of(grid.tiles@[index as int], body),
{
    match grid.tiles[index].terrain {
        TerrainKind::RoughSoil => if body == RobotBody::Wheeled {
            6
        } else {
            3
        },
        _ => 1,
    }
}

/// Index of the frontier entry the search takes next: lowest priority, then lowest
/// cost, then highest cell index.
fn best_entry(frontier: &Vec<(u32, u32, usize)>) -> (r: usize)
    requires
        frontier@.len() > 0,
    ensures
        r < frontier@.len(),
        forall|k: int| 0 <= k < frontier@.len() ==> frontier@[r as int].0 <= #[trigger] frontier@[k].0,
{
    let mut best: usize = 0;
    let mut k: usize = 1;
    while k < frontier.len()
        invariant
            best < frontier@.len(),
            1 <= k <= frontier@.len(),
            forall|m: int| 0 <= m < k ==> frontier@[best as int].0 <= #[trigger] frontier@[m].0,
        decreases frontier@.len() - k,
    {
        let a = frontier[k];
        let b = frontier[best];
        if a.0 < b.0 || (a.0 == b.0 && (a.1 < b.1 || (a.1 == b.1 && a.2 > b.2))) {
            best = k;
        }
        k += 1;
    }
    best
}

/// Lowers the cost of the cell at `neighbor` if going through `current` is cheaper,
/// records `current` as its parent and queues it.
fn relax(
    grid: &FarmGrid,
    body: RobotBody,
    allow: bool,
    occupied: &Vec<TilePos>,
    goal: TilePos,
    start: Ghost<int>,
    cost: &mut Vec<u32>,
    came: &mut Vec<Option<usize>>,
    frontier: &mut Vec<(u32, u32, usize)>,
    current: usize,
    current_cost: u32,
    neighbor: TilePos,
)
    requires
        grid.wf(),
        grid.in_bounds(goal),
        sound_state(*grid, body, allow, occupied@, start@, goal, old(cost)@, old(came)@, old(frontier)@),
        current < grid.tiles@.len(),
        current_cost == old(cost)@[current as int],
        current_cost < u32::MAX,
        grid.in_bounds(neighbor),
        manhattan_distance(pos(*grid, current as int), neighbor) == 1,
    ensures
        sound_state(*grid, body, allow, occupied@, start@, goal, final(cost)@, final(came)@, final(frontier)@),
        bound_through(
            *grid,
            body,
            allow,
            occupied@,
            final(cost)@,
            current as int,
            row_major(grid.width, neighbor),
        ),
        final(cost)@[current as int] == old(cost)@[current as int],
        final(cost)@.len() == old(cost)@.len(),
        final(cost)@.len() == grid.tiles@.len(),
        0 <= row_major(grid.width, neighbor) < grid.tiles@.len(),
        forall|i: int|
            0 <= i < final(cost)@.len() ==> #[trigger] final(cost)@[i] <= old(cost)@[i],
        forall|i: int|
            0 <= i < final(cost)@.len() && i != row_major(grid.width, neighbor) ==> #[trigger] final(cost)@[i] == old(cost)@[i],
        final(cost)@ == old(cost)@ && final(frontier)@ == old(frontier)@ || (exists|e: (u32, u32, usize)|
            final(frontier)@ == #[trigger] old(frontier)@.push(e) && e.2 == row_major(
                grid.width,
                neighbor,
            ) && e.1 == final(cost)@[row_major(grid.width, neighbor)] && final(cost)@
                == old(cost)@.update(row_major(grid.width, neighbor), e.1) && e.1 < old(cost)@[row_major(grid.width, neighbor)]),
{
    proof {
        reveal(sound_state);
        lemma_row_major(grid.width, grid.height, neighbor);
        lemma_index_position(grid.width, grid.height, current as int);
    }
    let ni = (neighbor.y * grid.width + neighbor.x) as usize;
    if !is_open(grid, neighbor, body, allow, occupied) {
        return;
    }
    let step = step_cost(grid, ni, body);
    let next_cost = current_cost.saturating_add(step);
    if next_cost >= cost[ni] {
        return;
    }
    let ghost old_cost = cost@;
    let ghost old_came = came@;
    let ghost old_frontier = frontier@;
    cost.set(ni, next_cost);
    came.set(ni, Some(current));
    let d = if neighbor.x >= goal.x {
        neighbor.x - goal.x
    } else {
        goal.x - neighbor.x
    };
    let e = if neighbor.y >= goal.y {
        neighbor.y - goal.y
    } else {
        goal.y - neighbor.y
    };
    let priority = next_cost.saturating_add(d).saturating_add(e);
    frontier.push((priority, next_cost, ni));
    proof {
        let n = grid.tiles@.len();
        assert(ni as int != start@);
        assert(pos(*grid, ni as int) == neighbor);
        assert(ni as int != current as int);
        assert(next_cost == current_cost + step);
        assert forall|i: int| 0 <= i < n && #[trigger] came@[i] is Some implies {
            let p = came@[i]->0 as int;
            &&& 0 <= p < n
            &&& manhattan_distance(pos(*grid, p), pos(*grid, i)) == 1
            &&& open_at(*grid, pos(*grid, i), body, allow, occupied@)
            &&& cost@[p] < cost@[i]
            &&& cost@[p] + step_cost_of(grid.tiles@[i], body) <= cost@[i]
            &&& cost@[i] < u32::MAX
        } by {
            if i == ni {
                assert(cost@[current as int] == current_cost);
            } else {
                assert(old_came[i] is Some);
                let p = old_came[i]->0 as int;
                if p == ni {
                    assert(cost@[p] < old_cost[p]);
                }
            }
        }
        assert forall|i: int| 0 <= i < n && i != start@ && (#[trigger] cost@[i]) < u32::MAX implies came@[i] is Some by {
            if i != ni {
                assert(old_cost[i] == cost@[i]);
            }
        }
        assert(manhattan_distance(pos(*grid, ni as int), goal) == d + e);
        if ni as int == row_major(grid.width, goal) {
            lemma_row_major(grid.width, grid.height, goal);
            assert(neighbor == goal);
        }
        assert forall|k: int| 0 <= k < frontier@.len() implies {
            let e = #[trigger] frontier@[k];
            &&& (e.2 as int) < n
            &&& e.1 >= cost@[e.2 as int]
            &&& e.1 < u32::MAX
            &&& e.0 <= e.1 + manhattan_distance(pos(*grid, e.2 as int), goal)
            &&& (e.2 as int == row_major(grid.width, goal) ==> e.0 == e.1)
        } by {
            if k < old_frontier.len() {
                assert(frontier@[k] == old_frontier[k]);
            }
        }
        assert(frontier@ == old_frontier.push((priority, next_cost, ni)));
    }
}

#[verifier::opaque]
spec fn settled_except(
    grid: FarmGrid,
    body: RobotBody,
    allow: bool,
    occupied: Seq<TilePos>,
    cost: Seq<u32>,
    frontier: Seq<(u32, u32, usize)>,
    skip: int,
) -> bool {
    forall|i: int|
        0 <= i < cost.len() && i != skip && (#[trigger] cost[i]) < u32::MAX ==> queued(
            frontier,
            i,
            cost[i],
        ) || expanded(grid, body, allow, occupied, cost, i)
}

proof fn lemma_queued_push(frontier: Seq<(u32, u32, usize)>, e: (u32, u32, usize), i: int, c: u32)
    requires
        queued(frontier, i, c),
    ensures
        queued(frontier.push(e), i, c),
{
    let k = choose|k: int| 0 <= k < frontier.len() && #[trigger] frontier[k] == (frontier[k].0, c, i as usize);
    assert(frontier.push(e)[k] == frontier[k]);
}

proof fn lemma_queued_remove(frontier: Seq<(u32, u32, usize)>, b: int, i: int, c: u32)
    requires
        0 <= b < frontier.len(),
        queued(frontier, i, c),
        frontier[b].1 != c || frontier[b].2 != i as usize,
        0 <= i,
    ensures
        queued(frontier.remove(b), i, c),
{
    let k = choose|k: int| 0 <= k < frontier.len() && #[trigger] frontier[k] == (frontier[k].0, c, i as usize);
    if k < b {
        assert(frontier.remove(b)[k] == frontier[k]);
    } else {
        assert(k != b);
        assert(frontier.remove(b)[k - 1] == frontier[k]);
    }
}

/// Relaxing one neighbour keeps every other cell settled.
proof fn lemma_settled_after_relax(
    grid: FarmGrid,
    body: RobotBody,
    allow: bool,
    occupied: Seq<TilePos>,
    cost0: Seq<u32>,
    frontier0: Seq<(u32, u32, usize)>,
    cost1: Seq<u32>,
    frontier1: Seq<(u32, u32, usize)>,
    skip: int,
    changed: int,
)
    requires
        settled_except(grid, body, allow, occupied, cost0, frontier0, skip),
        cost1.len() == cost0.len(),
        forall|i: int| 0 <= i < cost1.len() ==> #[trigger] cost1[i] <= cost0[i],
        forall|i: int| 0 <= i < cost1.len() && i != changed ==> #[trigger] cost1[i] == cost0[i],
        cost1 == cost0 && frontier1 == frontier0 || (exists|e: (u32, u32, usize)|
            frontier1 == #[trigger] frontier0.push(e) && e.2 == changed && e.1 == cost1[changed]
                && cost1 == cost0.update(changed, e.1) && e.1 < cost0[changed]),
        0 <= changed,
    ensures
        settled_except(grid, body, allow, occupied, cost1, frontier1, skip),
{
    reveal(settled_except);
    assert forall|i: int|
        0 <= i < cost1.len() && i != skip && (#[trigger] cost1[i]) < u32::MAX implies queued(
        frontier1,
        i,
        cost1[i],
    ) || expanded(grid, body, allow, occupied, cost1, i) by {
        if cost1 == cost0 && frontier1 == frontier0 {
        } else {
            let e = choose|e: (u32, u32, usize)|
                frontier1 == #[trigger] frontier0.push(e) && e.2 == changed && e.1 == cost1[changed]
                    && cost1 == cost0.update(changed, e.1) && e.1 < cost0[changed];
            if i == changed {
                assert(frontier1[frontier0.len() as int] == e);
                assert(frontier1[frontier0.len() as int] == (frontier1[frontier0.len() as int].0, cost1[i], i as usize));
            } else {
                assert(cost1[i] == cost0[i]);
                if queued(frontier0, i, cost0[i]) {
                    lemma_queued_push(frontier0, e, i, cost0[i]);
                } else {
                    assert forall|j: int| #[trigger] bound_through(grid, body, allow, occupied, cost1, i, j) by {
                        assert(bound_through(grid, body, allow, occupied, cost0, i, j));
                    }
                }
            }
        }
    }
}

proof fn lemma_measure_after_relax(
    cost0: Seq<u32>,
    frontier0: Seq<(u32, u32, usize)>,
    cost1: Seq<u32>,
    frontier1: Seq<(u32, u32, usize)>,
    changed: int,
)
    requires
        0 <= changed < cost0.len(),
        cost1 == cost0 && frontier1 == frontier0 || (exists|e: (u32, u32, usize)|
            frontier1 == #[trigger] frontier0.push(e) && e.2 == changed && e.1 == cost1[changed]
                && cost1 == cost0.update(changed, e.1) && e.1 < cost0[changed]),
    ensures
        5 * sum_costs(cost1) + frontier1.len() <= 5 * sum_costs(cost0) + frontier0.len(),
{
    if !(cost1 == cost0 && frontier1 == frontier0) {
        let e = choose|e: (u32, u32, usize)|
            frontier1 == #[trigger] frontier0.push(e) && e.2 == changed && e.1 == cost1[changed]
                && cost1 == cost0.update(changed, e.1) && e.1 < cost0[changed];
        lemma_sum_costs_update(cost0, changed, e.1);
    }
}

/// Relaxing other cells never undoes the bound a relaxation gave.
proof fn lemma_bound_kept(
    grid: FarmGrid,
    body: RobotBody,
    allow: bool,
    occupied: Seq<TilePos>,
    cost0: Seq<u32>,
    cost1: Seq<u32>,
    i: int,
    j: int,
)
    requires
        bound_through(grid, body, allow, occupied, cost0, i, j),
        cost1.len() == cost0.len(),
        forall|m: int| 0 <= m < cost1.len() ==> #[trigger] cost1[m] <= cost0[m],
        0 <= i < cost0.len(),
        cost1[i] == cost0[i],
    ensures
        bound_through(grid, body, allow, occupied, cost1, i, j),
{
    if 0 <= j < cost1.len() {
        assert(cost1[j] <= cost0[j]);
    }
}

/// A route can be shortened until it visits no cell twice, so it has at most one
/// cell per tile.
proof fn lemma_short_route(
    grid: FarmGrid,
    body: RobotBody,
    allow: bool,
    occupied: Seq<TilePos>,
    route: Seq<TilePos>,
) -> (short: Seq<TilePos>)
    requires
        grid.wf(),
        is_route(grid, route, body, allow, occupied),
    ensures
        is_route(grid, short, body, allow, occupied),
        short[0] == route[0],
        short.last() == route.last(),
        short.len() <= grid.tiles@.len(),
    decreases route.len(),
{
    let n = grid.tiles@.len() as int;
    if route.len() <= n {
        return route;
    }
    let idx = route.map_values(|p: TilePos| row_major(grid.width, p));
    assert forall|k: int| 0 <= k < idx.len() implies 0 <= #[trigger] idx[k] < n by {
        if k > 0 {
            assert(open_at(grid, route[k], body, allow, occupied));
        }
        lemma_row_major(grid.width, grid.height, route[k]);
    }
    if idx.no_duplicates() {
        idx.unique_seq_to_set();
        vstd::set_lib::lemma_int_range(0, n);
        assert(idx.to_set().subset_of(vstd::set_lib::set_int_range(0, n)));
        vstd::set_lib::lemma_len_subset(idx.to_set(), vstd::set_lib::set_int_range(0, n));
        assert(false);
    }
    let (i, j) = choose|i: int, j: int|
        0 <= i < idx.len() && 0 <= j < idx.len() && i != j && idx[i] == idx[j];
    let a = if i < j {
        i
    } else {
        j
    };
    let b = if i < j {
        j
    } else {
        i
    };
    assert(idx[a] == idx[b]);
    assert(route[a] == route[b]) by {
        if a > 0 {
            assert(open_at(grid, route[a], body, allow, occupied));
        }
        assert(open_at(grid, route[b], body, allow, occupied));
        lemma_row_major(grid.width, grid.height, route[a]);
        lemma_row_major(grid.width, grid.height, route[b]);
        assert(idx[a] == row_major(grid.width, route[a]));
        assert(idx[b] == row_major(grid.width, route[b]));
    }
    let cut = lemma_cut_route(grid, body, allow, occupied, route, a, b);
    lemma_short_route(grid, body, allow, occupied, cut)
}

/// Cutting out the loop between two visits of the same cell leaves a route.
proof fn lemma_cut_route(
    grid: FarmGrid,
    body: RobotBody,
    allow: bool,
    occupied: Seq<TilePos>,
    route: Seq<TilePos>,
    a: int,
    b: int,
) -> (cut: Seq<TilePos>)
    requires
        is_route(grid, route, body, allow, occupied),
        0 <= a < b < route.len(),
        route[a] == route[b],
    ensures
        is_route(grid, cut, body, allow, occupied),
        cut[0] == route[0],
        cut.last() == route.last(),
        cut.len() < route.len(),
{
    let cut = Seq::new(
        (a + 1 + route.len() - (b + 1)) as nat,
        |k: int|
            if k <= a {
                route[k]
            } else {
                route[k - a + b]
            },
    );
    assert forall|k: int| 0 <= k < cut.len() - 1 implies manhattan_distance(
        #[trigger] cut[k],
        cut[k + 1],
    ) == 1 by {
        if k < a {
            assert(cut[k] == route[k]);
            assert(cut[k + 1] == route[k + 1]);
        } else if k == a {
            assert(cut[k] == route[b]);
            assert(cut[k + 1] == route[b + 1]);
        } else {
            assert(cut[k] == route[k - a + b]);
            assert(cut[k + 1] == route[k + 1 - a + b]);
        }
    }
    assert forall|k: int| 1 <= k < cut.len() implies open_at(
        grid,
        #[trigger] cut[k],
        body,
        allow,
        occupied,
    ) by {
        if k <= a {
            assert(cut[k] == route[k]);
        } else {
            assert(cut[k] == route[k - a + b]);
        }
    }
    assert(cut.last() == route.last()) by {
        if b + 1 < route.len() {
            assert(cut.last() == route[route.len() - 1]);
        } else {
            assert(cut.last() == route[a]);
        }
    }
    assert(cut[0] == route[0]);
    cut
}

/// `c` is no more than what any route from `start` to `goal` costs.
spec fn cost_is_cheapest(
    grid: FarmGrid,
    body: RobotBody,
    allow: bool,
    occupied: Seq<TilePos>,
    start: TilePos,
    goal: TilePos,
    c: int,
) -> bool {
    forall|q: Seq<TilePos>|
        is_route(grid, q, body, allow, occupied) && q[0] == start && q.last() == goal ==> c
            <= #[trigger] route_cost(grid, q, body)
}

/// What the first `j + 1` cells of a route cost.
spec fn prefix_cost(grid: FarmGrid, route: Seq<TilePos>, body: RobotBody, j: int) -> int {
    route_cost(grid, route.take(j + 1), body)
}

proof fn lemma_prefix_cost_step(grid: FarmGrid, route: Seq<TilePos>, body: RobotBody, j: int)
    requires
        1 <= j < route.len(),
    ensures
        prefix_cost(grid, route, body, j) == prefix_cost(grid, route, body, j - 1) + step_cost_of(
            grid.tile_at(route[j]),
            body,
        ),
{
    assert(route.take(j + 1).drop_last() =~= route.take(j));
}

proof fn lemma_prefix_cost_first(grid: FarmGrid, route: Seq<TilePos>, body: RobotBody)
    requires
        route.len() >= 1,
    ensures
        prefix_cost(grid, route, body, 0) == 0,
        prefix_cost(grid, route, body, route.len() - 1) == route_cost(grid, route, body),
{
    assert(route.take(route.len() as int) =~= route);
}

/// Costs grow along a route, by at least one per step, and a step changes the
/// distance to any cell by at most one.
proof fn lemma_prefix_cost_grows(grid: FarmGrid, route: Seq<TilePos>, body: RobotBody, m: int, j: int)
    requires
        0 <= m <= j < route.len(),
        forall|k: int| 0 <= k < route.len() - 1 ==> manhattan_distance(#[trigger] route[k], route[k + 1]) == 1,
    ensures
        prefix_cost(grid, route, body, m) + manhattan_distance(route[m], route[j]) <= prefix_cost(
            grid,
            route,
            body,
            j,
        ),
    decreases j - m,
{
    if m < j {
        lemma_prefix_cost_grows(grid, route, body, m, j - 1);
        lemma_prefix_cost_step(grid, route, body, j);
        assert(manhattan_distance(route[j - 1], route[j]) == 1);
    }
}

/// Walking a route from the start through a settled search: either every cell was
/// reached no dearer than the route reaches it, or some cell on the way waits in the
/// frontier at a cost no dearer than the route's.
proof fn lemma_walk_route(
    grid: FarmGrid,
    body: RobotBody,
    allow: bool,
    occupied: Seq<TilePos>,
    cost: Seq<u32>,
    frontier: Seq<(u32, u32, usize)>,
    route: Seq<TilePos>,
    j: int,
)
    requires
        grid.wf(),
        cost.len() == grid.tiles@.len(),
        is_route(grid, route, body, allow, occupied),
        cost[row_major(grid.width, route[0])] == 0,
        forall|i: int|
            0 <= i < cost.len() && (#[trigger] cost[i]) < u32::MAX ==> queued(frontier, i, cost[i]) || expanded(
                grid,
                body,
                allow,
                occupied,
                cost,
                i,
            ),
        route_cost(grid, route, body) < u32::MAX,
        0 <= j < route.len(),
    ensures
        cost[row_major(grid.width, route[j])] <= prefix_cost(grid, route, body, j) || exists|m: int|
            0 <= m <= j && queued(frontier, row_major(grid.width, route[m]), cost[row_major(grid.width, route[m])])
                && cost[row_major(grid.width, route[m])] <= prefix_cost(grid, route, body, m),
    decreases j,
{
    if j == 0 {
        lemma_prefix_cost_first(grid, route, body);
    } else {
        lemma_walk_route(grid, body, allow, occupied, cost, frontier, route, j - 1);
        let p = route[j - 1];
        let q = route[j];
        if j - 1 > 0 {
            assert(open_at(grid, p, body, allow, occupied));
        }
        assert(open_at(grid, q, body, allow, occupied));
        lemma_row_major(grid.width, grid.height, p);
        lemma_row_major(grid.width, grid.height, q);
        let i = row_major(grid.width, p);
        let jj = row_major(grid.width, q);
        lemma_prefix_cost_step(grid, route, body, j);
        lemma_prefix_cost_first(grid, route, body);
        lemma_prefix_cost_grows(grid, route, body, j, route.len() - 1);
        if cost[i] <= prefix_cost(grid, route, body, j - 1) {
            if !queued(frontier, i, cost[i]) {
                assert(expanded(grid, body, allow, occupied, cost, i));
                assert(bound_through(grid, body, allow, occupied, cost, i, jj));
                assert(manhattan_distance(route[j - 1], route[j]) == 1);
            }
        }
    }
}

proof fn lemma_route_cost_prepend(grid: FarmGrid, a: TilePos, s: Seq<TilePos>, body: RobotBody)
    requires
        s.len() >= 1,
    ensures
        route_cost(grid, seq![a] + s, body) == step_cost_of(grid.tile_at(s[0]), body) + route_cost(grid, s, body),
    decreases s.len(),
{
    let full = seq![a] + s;
    assert(full.len() == s.len() + 1);
    assert(full.last() == s.last());
    if s.len() == 1 {
        assert(full.drop_last() =~= seq![a]);
        assert(route_cost(grid, seq![a], body) == 0);
        assert(route_cost(grid, s, body) == 0);
    } else {
        lemma_route_cost_prepend(grid, a, s.drop_last(), body);
        assert(full.drop_last() =~= seq![a] + s.drop_last());
        assert(s.drop_last()[0] == s[0]);
    }
}

/// Once the goal leaves the frontier as its cheapest entry, or the frontier runs dry,
/// no route to the goal costs less than the cost the search found for it.
proof fn lemma_goal_cheapest(
    grid: FarmGrid,
    body: RobotBody,
    allow: bool,
    occupied: Seq<TilePos>,
    start: TilePos,
    goal: TilePos,
    cost: Seq<u32>,
    came: Seq<Option<usize>>,
    frontier: Seq<(u32, u32, usize)>,
    b: int,
)
    requires
        grid.wf(),
        grid.in_bounds(start),
        grid.in_bounds(goal),
        sound_state(grid, body, allow, occupied, row_major(grid.width, start), goal, cost, came, frontier),
        settled_except(grid, body, allow, occupied, cost, frontier, -1),
        frontier.len() == 0 || (0 <= b < frontier.len() && frontier[b].2 as int == row_major(grid.width, goal)
            && forall|k: int| 0 <= k < frontier.len() ==> frontier[b].0 <= #[trigger] frontier[k].0),
    ensures
        cost_is_cheapest(grid, body, allow, occupied, start, goal, cost[row_major(grid.width, goal)] as int),
{
    reveal(sound_state);
    reveal(settled_except);
    lemma_row_major(grid.width, grid.height, goal);
    lemma_row_major(grid.width, grid.height, start);
    let gi = row_major(grid.width, goal);
    assert forall|i: int|
        0 <= i < cost.len() && (#[trigger] cost[i]) < u32::MAX implies queued(frontier, i, cost[i]) || expanded(
        grid,
        body,
        allow,
        occupied,
        cost,
        i,
    ) by {
        assert(i != -1);
    }
    assert forall|q: Seq<TilePos>|
        is_route(grid, q, body, allow, occupied) && q[0] == start && q.last() == goal implies cost[gi]
        <= #[trigger] route_cost(grid, q, body) by {
        if route_cost(grid, q, body) < u32::MAX {
            let last = q.len() - 1;
            lemma_walk_route(grid, body, allow, occupied, cost, frontier, q, last);
            lemma_prefix_cost_first(grid, q, body);
            if cost[gi] > route_cost(grid, q, body) {
                let m = choose|m: int|
                    0 <= m <= last && queued(frontier, row_major(grid.width, q[m]), cost[row_major(grid.width, q[m])])
                        && cost[row_major(grid.width, q[m])] <= prefix_cost(grid, q, body, m);
                let x = row_major(grid.width, q[m]);
                if m > 0 {
                    assert(open_at(grid, q[m], body, allow, occupied));
                }
                lemma_row_major(grid.width, grid.height, q[m]);
                let k = choose|k: int| 0 <= k < frontier.len() && #[trigger] frontier[k] == (frontier[k].0, cost[x], x as usize);
                assert(pos(grid, x) == q[m]);
                lemma_prefix_cost_grows(grid, q, body, m, last);
                assert(frontier[k].0 <= route_cost(grid, q, body));
                assert(frontier[b].0 <= frontier[k].0);
            }
        }
    }
}

/// When every reached cell has been expanded, each cell of a short route from the
/// start has been reached at a cost of at most six per step.
proof fn lemma_route_reached(
    grid: FarmGrid,
    body: RobotBody,
    allow: bool,
    occupied: Seq<TilePos>,
    cost: Seq<u32>,
    route: Seq<TilePos>,
    k: int,
)
    requires
        grid.wf(),
        small_grid(grid),
        cost.len() == grid.tiles@.len(),
        is_route(grid, route, body, allow, occupied),
        route.len() <= grid.tiles@.len(),
        cost[row_major(grid.width, route[0])] == 0,
        forall|i: int|
            0 <= i < cost.len() && (#[trigger] cost[i]) < u32::MAX ==> expanded(
                grid,
                body,
                allow,
                occupied,
                cost,
                i,
            ),
        0 <= k < route.len(),
    ensures
        cost[row_major(grid.width, route[k])] <= 6 * k,
    decreases k,
{
    if k > 0 {
        lemma_route_reached(grid, body, allow, occupied, cost, route, k - 1);
        let p = route[k - 1];
        let q = route[k];
        if k - 1 > 0 {
            assert(open_at(grid, p, body, allow, occupied));
        }
        assert(open_at(grid, q, body, allow, occupied));
        lemma_row_major(grid.width, grid.height, p);
        lemma_row_major(grid.width, grid.height, q);
        let i = row_major(grid.width, p);
        let j = row_major(grid.width, q);
        assert(6 * k < u32::MAX);
        assert(expanded(grid, body, allow, occupied, cost, i));
        assert(bound_through(grid, body, allow, occupied, cost, i, j));
        assert(manhattan_distance(route[k - 1], route[k]) == 1);
    }
}

/// Relaxes all on-grid neighbours of `current`, which leaves `current` expanded.
#[verifier::rlimit(60)]
fn expand(
    grid: &FarmGrid,
    body: RobotBody,
    allow: bool,
    occupied: &Vec<TilePos>,
    goal: TilePos,
    start: Ghost<int>,
    cost: &mut Vec<u32>,
    came: &mut Vec<Option<usize>>,
    frontier: &mut Vec<(u32, u32, usize)>,
    current: usize,
    current_cost: u32,
)
    requires
        grid.wf(),
        grid.in_bounds(goal),
        sound_state(*grid, body, allow, occupied@, start@, goal, old(cost)@, old(came)@, old(frontier)@),
        settled_except(*grid, body, allow, occupied@, old(cost)@, old(frontier)@, current as int),
        current < grid.tiles@.len(),
        current_cost == old(cost)@[current as int],
        current_cost < u32::MAX,
        old(cost)@.len() == grid.tiles@.len(),
    ensures
        sound_state(*grid, body, allow, occupied@, start@, goal, final(cost)@, final(came)@, final(frontier)@),
        settled_except(*grid, body, allow, occupied@, final(cost)@, final(frontier)@, -1),
        final(cost)@.len() == old(cost)@.len(),
        5 * sum_costs(final(cost)@) + final(frontier)@.len() <= 5 * sum_costs(old(cost)@) + old(frontier)@.len(),
        forall|i: int| 0 <= i < final(cost)@.len() ==> #[trigger] final(cost)@[i] <= old(cost)@[i],
{
    proof {
        lemma_index_position(grid.width, grid.height, current as int);
    }
        let cur = grid.index_position(current);
        let ghost c0 = cost@;
        let ghost f0 = frontier@;
        let ghost cc = current as int;
    let ghost c00 = cost@;
    let ghost f00 = frontier@;
        if cur.x > 0 {
            let left = TilePos::new(cur.x - 1, cur.y);
            let ghost cb = cost@;
            let ghost fb = frontier@;
            relax(grid, body, allow, occupied, goal, start, cost, came, frontier, current, current_cost, left);
            proof {
                lemma_measure_after_relax(cb, fb, cost@, frontier@, row_major(grid.width, left));
                lemma_settled_after_relax(*grid, body, allow, occupied@, cb, fb, cost@, frontier@, cc, row_major(grid.width, left));
                assert forall|i: int| 0 <= i < cost@.len() implies #[trigger] cost@[i] <= c00[i] by {
                    assert(cost@[i] <= cb[i]);
                }
            }
        }
        let ghost c1 = cost@;
        if cur.y > 0 {
            let up = TilePos::new(cur.x, cur.y - 1);
            let ghost cb = cost@;
            let ghost fb = frontier@;
            relax(grid, body, allow, occupied, goal, start, cost, came, frontier, current, current_cost, up);
            proof {
                lemma_measure_after_relax(cb, fb, cost@, frontier@, row_major(grid.width, up));
                lemma_settled_after_relax(*grid, body, allow, occupied@, cb, fb, cost@, frontier@, cc, row_major(grid.width, up));
                assert forall|i: int| 0 <= i < cost@.len() implies #[trigger] cost@[i] <= c00[i] by {
                    assert(cost@[i] <= cb[i]);
                }
            }
        }
        let ghost c2 = cost@;
        if cur.x + 1 < grid.width {
            let right = TilePos::new(cur.x + 1, cur.y);
            let ghost cb = cost@;
            let ghost fb = frontier@;
            relax(grid, body, allow, occupied, goal, start, cost, came, frontier, current, current_cost, right);
            proof {
                lemma_measure_after_relax(cb, fb, cost@, frontier@, row_major(grid.width, right));
                lemma_settled_after_relax(*grid, body, allow, occupied@, cb, fb, cost@, frontier@, cc, row_major(grid.width, right));
                assert forall|i: int| 0 <= i < cost@.len() implies #[trigger] cost@[i] <= c00[i] by {
                    assert(cost@[i] <= cb[i]);
                }
            }
        }
        let ghost c3 = cost@;
        if cur.y + 1 < grid.height {
            let down = TilePos::new(cur.x, cur.y + 1);
            let ghost cb = cost@;
            let ghost fb = frontier@;
            relax(grid, body, allow, occupied, goal, start, cost, came, frontier, current, current_cost, down);
            proof {
                lemma_measure_after_relax(cb, fb, cost@, frontier@, row_major(grid.width, down));
                lemma_settled_after_relax(*grid, body, allow, occupied@, cb, fb, cost@, frontier@, cc, row_major(grid.width, down));
                assert forall|i: int| 0 <= i < cost@.len() implies #[trigger] cost@[i] <= c00[i] by {
                    assert(cost@[i] <= cb[i]);
                }
            }
        }
        proof {
            let c4 = cost@;
            assert(c4[cc] == c00[cc]);
            assert forall|m: int| 0 <= m < c4.len() implies #[trigger] c4[m] <= c3[m] by {}
            assert forall|m: int| 0 <= m < c4.len() implies #[trigger] c3[m] <= c2[m] by {}
            assert forall|m: int| 0 <= m < c4.len() implies #[trigger] c2[m] <= c1[m] by {}
            lemma_expanded_after(*grid, body, allow, occupied@, cur, cc, c1, c2, c3, c4);
            lemma_settled_complete(*grid, body, allow, occupied@, c4, frontier@, cc);
        }
}

proof fn lemma_settled_complete(
    grid: FarmGrid,
    body: RobotBody,
    allow: bool,
    occupied: Seq<TilePos>,
    cost: Seq<u32>,
    frontier: Seq<(u32, u32, usize)>,
    cc: int,
)
    requires
        settled_except(grid, body, allow, occupied, cost, frontier, cc),
        expanded(grid, body, allow, occupied, cost, cc),
    ensures
        settled_except(grid, body, allow, occupied, cost, frontier, -1),
{
    reveal(settled_except);
}

/// After relaxing the four neighbours in turn, the expanded cell bounds every neighbour.
proof fn lemma_expanded_after(
    grid: FarmGrid,
    body: RobotBody,
    allow: bool,
    occupied: Seq<TilePos>,
    cur: TilePos,
    cc: int,
    c1: Seq<u32>,
    c2: Seq<u32>,
    c3: Seq<u32>,
    c4: Seq<u32>,
)
    requires
        grid.wf(),
        0 <= cc < grid.tiles@.len(),
        cur == pos(grid, cc),
        grid.in_bounds(cur),
        c1.len() == grid.tiles@.len(),
        c2.len() == c1.len(),
        c3.len() == c1.len(),
        c4.len() == c1.len(),
        c1[cc] == c4[cc],
        c2[cc] == c4[cc],
        c3[cc] == c4[cc],
        forall|m: int| 0 <= m < c4.len() ==> #[trigger] c4[m] <= c3[m],
        forall|m: int| 0 <= m < c4.len() ==> #[trigger] c3[m] <= c2[m],
        forall|m: int| 0 <= m < c4.len() ==> #[trigger] c2[m] <= c1[m],
        cur.x > 0 ==> bound_through(grid, body, allow, occupied, c1, cc, row_major(grid.width, TilePos { x: (cur.x - 1) as u32, y: cur.y })),
        cur.y > 0 ==> bound_through(grid, body, allow, occupied, c2, cc, row_major(grid.width, TilePos { x: cur.x, y: (cur.y - 1) as u32 })),
        cur.x + 1 < grid.width ==> bound_through(grid, body, allow, occupied, c3, cc, row_major(grid.width, TilePos { x: (cur.x + 1) as u32, y: cur.y })),
        cur.y + 1 < grid.height ==> bound_through(grid, body, allow, occupied, c4, cc, row_major(grid.width, TilePos { x: cur.x, y: (cur.y + 1) as u32 })),
    ensures
        expanded(grid, body, allow, occupied, c4, cc),
{
    assert forall|j: int| #[trigger] bound_through(grid, body, allow, occupied, c4, cc, j) by {
        if 0 <= j < c4.len() && manhattan_distance(pos(grid, cc), pos(grid, j)) == 1 {
            lemma_index_position(grid.width, grid.height, j);
            let q = pos(grid, j);
            assert(row_major(grid.width, q) == j);
            if q.x < cur.x {
                assert(q == TilePos { x: (cur.x - 1) as u32, y: cur.y });
                assert forall|m: int| 0 <= m < c4.len() implies #[trigger] c4[m] <= c1[m] by {
                    assert(c3[m] <= c2[m]);
                }
                lemma_bound_kept(grid, body, allow, occupied, c1, c4, cc, j);
            } else if q.y < cur.y {
                assert(q == TilePos { x: cur.x, y: (cur.y - 1) as u32 });
                assert forall|m: int| 0 <= m < c4.len() implies #[trigger] c4[m] <= c2[m] by {
                    assert(c3[m] <= c2[m]);
                }
                lemma_bound_kept(grid, body, allow, occupied, c2, c4, cc, j);
            } else if q.x > cur.x {
                assert(q == TilePos { x: (cur.x + 1) as u32, y: cur.y });
                lemma_bound_kept(grid, body, allow, occupied, c3, c4, cc, j);
            } else {
                assert(q == TilePos { x: cur.x, y: (cur.y + 1) as u32 });
            }
        }
    }
}

/// Best-first (A*) search for the first step of a cheapest ground route from
/// `start` to `goal` that avoids the `occupied` cells.
pub fn next_ground_step_avoiding(
    grid: &FarmGrid,
    start: TilePos,
    goal: TilePos,
    body: RobotBody,
    allow_planted_fields: bool,
    occupied: &Vec<TilePos>,
) -> (r: Option<TilePos>)
    requires
        grid.wf(),
    ensures
        r is Some ==> grid.in_bounds(start) && grid.in_bounds(goal),
        grid.in_bounds(start) && start == goal ==> r == Some(start),
        r matches Some(step) ==> valid_first_step(
            *grid,
            start,
            goal,
            body,
            allow_planted_fields,
            occupied@,
            step,
        ),
        small_grid(*grid) && route_exists(
            *grid,
            start,
            goal,
            body,
            allow_planted_fields,
            occupied@,
        ) ==> r is Some,
{
    let allow = allow_planted_fields;
    reveal(sound_state);
    reveal(settled_except);
    if !grid.contains(start) || !grid.contains(goal) {
        return None;
    }
    proof {
        lemma_row_major(grid.width, grid.height, start);
        lemma_row_major(grid.width, grid.height, goal);
    }
    let start_index = (start.y * grid.width + start.x) as usize;
    let goal_index = (goal.y * grid.width + goal.x) as usize;
    if start == goal {
        return Some(start);
    }
    if !is_open(grid, goal, body, allow, occupied) {
        return None;
    }
    let n = grid.tiles.len();
    let mut cost: Vec<u32> = Vec::new();
    let mut came: Vec<Option<usize>> = Vec::new();
    let mut k: usize = 0;
    while k < n
        invariant
            k <= n,
            cost@.len() == k,
            came@.len() == k,
            forall|i: int| 0 <= i < k ==> #[trigger] cost@[i] == u32::MAX,
            forall|i: int| 0 <= i < k ==> #[trigger] came@[i] is None,
        decreases n - k,
    {
        cost.push(u32::MAX);
        came.push(None);
        k += 1;
    }
    cost.set(start_index, 0);
    let mut frontier: Vec<(u32, u32, usize)> = Vec::new();
    let dx = if start.x >= goal.x {
        start.x - goal.x
    } else {
        goal.x - start.x
    };
    let dy = if start.y >= goal.y {
        start.y - goal.y
    } else {
        goal.y - start.y
    };
    frontier.push((dx.saturating_add(dy), 0, start_index));
    let ghost s = start_index as int;
    proof {
        assert(frontier@[0] == (frontier@[0].0, 0u32, start_index));
        assert(queued(frontier@, s, 0u32));
        assert forall|i: int| 0 <= i < n && i != s implies #[trigger] cost@[i] == u32::MAX by {}
        assert forall|i: int| 0 <= i < n implies #[trigger] came@[i] is None by {}
        assert forall|i: int| 0 <= i < n && i != s && (#[trigger] cost@[i]) < u32::MAX implies came@[i] is Some by {
            assert(cost@[i] == u32::MAX);
        }
        assert(pos(*grid, s) == start);
        assert forall|k: int| 0 <= k < frontier@.len() implies {
            let e = #[trigger] frontier@[k];
            &&& (e.2 as int) < n
            &&& e.1 >= cost@[e.2 as int]
            &&& e.1 < u32::MAX
            &&& e.0 <= e.1 + manhattan_distance(pos(*grid, e.2 as int), goal)
            &&& (e.2 as int == row_major(grid.width, goal) ==> e.0 == e.1)
        } by {
            assert(k == 0);
        }
        assert(sound_state(*grid, body, allow, occupied@, s, goal, cost@, came@, frontier@));
        assert forall|i: int|
            0 <= i < cost@.len() && i != -1 && (#[trigger] cost@[i]) < u32::MAX implies queued(
            frontier@,
            i,
            cost@[i],
        ) || expanded(*grid, body, allow, occupied@, cost@, i) by {
            assert(i == s);
        }
    }
    let mut reached_goal = false;
    while frontier.len() > 0 && !reached_goal
        invariant
            grid.wf(),
            allow == allow_planted_fields,
            n == grid.tiles@.len(),
            grid.in_bounds(goal),
            grid.in_bounds(start),
            goal_index == row_major(grid.width, goal),
            start_index == row_major(grid.width, start),
            s == start_index,
            start_index != goal_index,
            goal_index < n,
            open_at(*grid, goal, body, allow, occupied@),
            sound_state(*grid, body, allow, occupied@, s, goal, cost@, came@, frontier@),
            !reached_goal ==> settled_except(*grid, body, allow, occupied@, cost@, frontier@, -1),
            reached_goal ==> cost@[goal_index as int] < u32::MAX,
            reached_goal ==> cost_is_cheapest(*grid, body, allow, occupied@, start, goal, cost@[goal_index as int] as int),
        decreases 5 * sum_costs(cost@) + frontier@.len() + if reached_goal {
            0int
        } else {
            1int
        },
    {
        proof {
            reveal(sound_state);
            reveal(settled_except);
            lemma_sum_costs_nonnegative(cost@);
        }
        let ghost cost0 = cost@;
        let ghost frontier0 = frontier@;
        let b = best_entry(&frontier);
        let entry = frontier.remove(b);
        let current_cost = entry.1;
        let current = entry.2;
        proof {
            assert(entry == frontier0[b as int]);
            assert forall|k: int| 0 <= k < frontier@.len() implies {
                let e = #[trigger] frontier@[k];
                &&& (e.2 as int) < n
                &&& e.1 >= cost@[e.2 as int]
                &&& e.1 < u32::MAX
                &&& e.0 <= e.1 + manhattan_distance(pos(*grid, e.2 as int), goal)
                &&& (e.2 as int == row_major(grid.width, goal) ==> e.0 == e.1)
            } by {
                if k < b {
                    assert(frontier@[k] == frontier0[k]);
                } else {
                    assert(frontier@[k] == frontier0[k + 1]);
                }
            }
            assert(current_cost >= cost@[current as int]);
        }
        if current == goal_index {
            proof {
                lemma_goal_cheapest(*grid, body, allow, occupied@, start, goal, cost0, came@, frontier0, b as int);
            }
            reached_goal = true;
            continue;
        }
        if current_cost > cost[current] {
            proof {
                assert forall|i: int|
                    0 <= i < cost@.len() && i != -1 && (#[trigger] cost@[i]) < u32::MAX implies queued(
                    frontier@,
                    i,
                    cost@[i],
                ) || expanded(*grid, body, allow, occupied@, cost@, i) by {
                    if queued(frontier0, i, cost@[i]) {
                        assert(i as usize as int == i);
                        lemma_queued_remove(frontier0, b as int, i, cost@[i]);
                    }
                }
            }
            continue;
        }
        proof {
            lemma_index_position(grid.width, grid.height, current as int);
            assert forall|i: int|
                0 <= i < cost@.len() && i != current && (#[trigger] cost@[i]) < u32::MAX implies queued(
                frontier@,
                i,
                cost@[i],
            ) || expanded(*grid, body, allow, occupied@, cost@, i) by {
                if queued(frontier0, i, cost@[i]) {
                    assert(i as usize as int == i);
                    lemma_queued_remove(frontier0, b as int, i, cost@[i]);
                }
            }
        }
        assert(cost@.len() == grid.tiles@.len());
        expand(grid, body, allow, occupied, goal, Ghost(s), &mut cost, &mut came, &mut frontier, current, current_cost);
        proof {
            lemma_sum_costs_nonnegative(cost@);
        }
    }
    proof {
        reveal(sound_state);
        reveal(settled_except);
        if !reached_goal && small_grid(*grid) && route_exists(*grid, start, goal, body, allow, occupied@) {
            let route = choose|route: Seq<TilePos>|
                #[trigger] is_route(*grid, route, body, allow, occupied@) && route[0] == start && route.last() == goal;
            let short = lemma_short_route(*grid, body, allow, occupied@, route);
            assert forall|i: int|
                0 <= i < cost@.len() && (#[trigger] cost@[i]) < u32::MAX implies expanded(
                *grid,
                body,
                allow,
                occupied@,
                cost@,
                i,
            ) by {
                assert(i != -1);
                if queued(frontier@, i, cost@[i]) {
                    let k = choose|k: int| 0 <= k < frontier@.len() && #[trigger] frontier@[k] == (frontier@[k].0, cost@[i], i as usize);
                }
            }
            lemma_route_reached(*grid, body, allow, occupied@, cost@, short, short.len() - 1);
            assert(6 * (short.len() - 1) < u32::MAX);
        }
    }
    proof {
        if !reached_goal {
            lemma_goal_cheapest(*grid, body, allow, occupied@, start, goal, cost@, came@, frontier@, 0);
        }
    }
    if came[goal_index].is_none() {
        return None;
    }
    let mut cursor = goal_index;
    let ghost mut suffix: Seq<TilePos> = seq![goal];
    proof {
        lemma_row_major(grid.width, grid.height, goal);
    }
    loop
        invariant
            grid.wf(),
            allow == allow_planted_fields,
            n == grid.tiles@.len(),
            sound_state(*grid, body, allow, occupied@, s, goal, cost@, came@, frontier@),
            s == start_index,
            start_index == row_major(grid.width, start),
            grid.in_bounds(start),
            grid.in_bounds(goal),
            start != goal,
            open_at(*grid, goal, body, allow, occupied@),
            cursor < n,
            came@[cursor as int] is Some,
            suffix.len() >= 1,
            suffix[0] == pos(*grid, cursor as int),
            suffix.last() == goal,
            forall|k: int| 0 <= k < suffix.len() - 1 ==> manhattan_distance(#[trigger] suffix[k], suffix[k + 1]) == 1,
            forall|k: int| 0 <= k < suffix.len() ==> open_at(*grid, #[trigger] suffix[k], body, allow, occupied@),
            goal_index == row_major(grid.width, goal),
            goal_index < n,
            cost_is_cheapest(*grid, body, allow, occupied@, start, goal, cost@[goal_index as int] as int),
            route_cost(*grid, suffix, body) + cost@[cursor as int] <= cost@[goal_index as int],
        decreases cost@[cursor as int],
    {
        proof {
            reveal(sound_state);
        }
        let parent = match came[cursor] {
            Some(p) => p,
            None => {
                return None;
            },
        };
        proof {
            lemma_index_position(grid.width, grid.height, cursor as int);
            lemma_index_position(grid.width, grid.height, parent as int);
        }
        if parent == start_index {
            let step = grid.index_position(cursor);
            proof {
                lemma_row_major(grid.width, grid.height, start);
                assert(pos(*grid, parent as int) == start);
                assert(step == pos(*grid, cursor as int));
                assert(manhattan_distance(pos(*grid, parent as int), pos(*grid, cursor as int)) == 1);
                assert(manhattan_distance(start, step) == 1);
                assert(open_at(*grid, step, body, allow, occupied@));
                assert(is_route(*grid, suffix, body, allow, occupied@));
                assert(reachable(*grid, step, goal, body, allow, occupied@));
                assert(open_at(*grid, goal, body, allow, occupied@));
                assert(start != goal);
                let full = seq![start] + suffix;
                lemma_route_cost_prepend(*grid, start, suffix, body);
                assert(grid.tile_at(suffix[0]) == grid.tiles@[cursor as int]);
                assert(cost@[parent as int] == 0);
                assert forall|k: int| 0 <= k < full.len() - 1 implies manhattan_distance(#[trigger] full[k], full[k + 1]) == 1 by {
                    if k > 0 {
                        assert(full[k] == suffix[k - 1]);
                        assert(full[k + 1] == suffix[k]);
                    }
                }
                assert forall|k: int| 1 <= k < full.len() implies open_at(*grid, #[trigger] full[k], body, allow, occupied@) by {
                    assert(full[k] == suffix[k - 1]);
                }
                assert(is_route(*grid, full, body, allow, occupied@));
                assert(full.last() == goal);
                assert(cheapest_route(*grid, full, start, goal, body, allow, occupied@));
                assert(full[1] == step);
                cheapest_route_rest_is_cheapest(*grid, full, start, goal, body, allow, occupied@);
                assert(valid_first_step(*grid, start, goal, body, allow, occupied@, step));
                assert(valid_first_step(*grid, start, goal, body, allow_planted_fields, occupied@, step));
            }
            return Some(step);
        }
        proof {
            let pp = pos(*grid, parent as int);
            let old_suffix = suffix;
            lemma_route_cost_prepend(*grid, pp, old_suffix, body);
            assert(grid.tile_at(old_suffix[0]) == grid.tiles@[cursor as int]);
            suffix = seq![pp] + suffix;
            assert forall|k: int| 0 <= k < suffix.len() - 1 implies manhattan_distance(#[trigger] suffix[k], suffix[k + 1]) == 1 by {
                if k > 0 {
                    assert(suffix[k] == old_suffix[k - 1]);
                    assert(suffix[k + 1] == old_suffix[k]);
                }
            }
            assert forall|k: int| 0 <= k < suffix.len() implies open_at(*grid, #[trigger] suffix[k], body, allow, occupied@) by {
                if k > 0 {
                    assert(suffix[k] == old_suffix[k - 1]);
                } else {
                    assert(came@[parent as int] is Some);
                }
            }
        }
        cursor = parent;
    }
}

/// First step of a cheapest ground route from `start` to `goal`.
pub fn next_ground_step(
    grid: &FarmGrid,
    start: TilePos,
    goal: TilePos,
    body: RobotBody,
    allow_planted_fields: bool,
) -> (r: Option<TilePos>)
    requires
        grid.wf(),
    ensures
        r is Some ==> grid.in_bounds(start) && grid.in_bounds(goal),
        grid.in_bounds(start) && start == goal ==> r == Some(start),
        r matches Some(step) ==> valid_first_step(
            *grid,
            start,
            goal,
            body,
            allow_planted_fields,
            Seq::<TilePos>::empty(),
            step,
        ),
        small_grid(*grid) && route_exists(
            *grid,
            start,
            goal,
            body,
            allow_planted_fields,
            Seq::<TilePos>::empty(),
        ) ==> r is Some,
{
    let none: Vec<TilePos> = Vec::new();
    next_ground_step_avoiding(grid, start, goal, body, allow_planted_fields, &none)
}

/// Whether a ground robot can travel from `start` to `goal`.
pub fn path_exists(
    grid: &FarmGrid,
    start: TilePos,
    goal: TilePos,
    body: RobotBody,
    allow_planted_fields: bool,
) -> (r: bool)
    requires
        grid.wf(),
    ensures
        r ==> route_exists(*grid, start, goal, body, allow_planted_fields, Seq::<TilePos>::empty()),
        grid.in_bounds(start) && start == goal ==> r,
        small_grid(*grid) && route_exists(
            *grid,
            start,
            goal,
            body,
            allow_planted_fields,
            Seq::<TilePos>::empty(),
        ) ==> r,
{
    let step = next_ground_step(grid, start, goal, body, allow_planted_fields);
    proof {
        if let Some(st) = step {
            if start != goal {
                lemma_step_extends_route(*grid, start, goal, body, allow_planted_fields, Seq::<TilePos>::empty(), st);
            }
        }
    }
    step.is_some()
}

/// Whether a ground robot can travel from `start` to `goal` without entering an occupied cell.
pub fn path_exists_avoiding(
    grid: &FarmGrid,
    start: TilePos,
    goal: TilePos,
    body: RobotBody,
    allow_planted_fields: bool,
    occupied: &Vec<TilePos>,
) -> (r: bool)
    requires
        grid.wf(),
    ensures
        r ==> route_exists(*grid, start, goal, body, allow_planted_fields, occupied@),
        grid.in_bounds(start) && start == goal ==> r,
        small_grid(*grid) && route_exists(*grid, start, goal, body, allow_planted_fields, occupied@) ==> r,
{
    let step = next_ground_step_avoiding(grid, start, goal, body, allow_planted_fields, occupied);
    proof {
        if let Some(st) = step {
            if start != goal {
                lemma_step_extends_route(*grid, start, goal, body, allow_planted_fields, occupied@, st);
            }
        }
    }
    step.is_some()
}

/// A valid first step together with the start cell is a route from the start to the goal.
pub proof fn lemma_step_extends_route(
    grid: FarmGrid,
    start: TilePos,
    goal: TilePos,
    body: RobotBody,
    allow: bool,
    occupied: Seq<TilePos>,
    step: TilePos,
)
    requires
        grid.in_bounds(start),
        start != goal,
        valid_first_step(grid, start, goal, body, allow, occupied, step),
    ensures
        reachable(grid, start, goal, body, allow, occupied),
{
    let route = choose|route: Seq<TilePos>|
        #[trigger] is_route(grid, route, body, allow, occupied) && route[0] == step && route.last() == goal;
    let longer = seq![start] + route;
    assert forall|k: int| 0 <= k < longer.len() - 1 implies manhattan_distance(#[trigger] longer[k], longer[k + 1]) == 1 by {
        if k > 0 {
            assert(longer[k] == route[k - 1]);
            assert(longer[k + 1] == route[k]);
        }
    }
    assert forall|k: int| 1 <= k < longer.len() implies open_at(grid, #[trigger] longer[k], body, allow, occupied) by {
        assert(longer[k] == route[k - 1]);
        if k == 1 {
            assert(route[0] == step);
        }
    }
    assert(longer.last() == route.last());
    assert(is_route(grid, longer, body, allow, occupied));
}

} // verus!

verus! {

/// A wheeled robot that may not cross planted fields never steps onto an irrigation
/// channel, a paddy bund or a planted tile (nor onto water or rock).
pub proof fn wheeled_steps_avoid_channels_bunds_and_crops(
    grid: FarmGrid,
    start: TilePos,
    goal: TilePos,
    occupied: Seq<TilePos>,
    step: TilePos,
)
    requires
        start != goal,
        valid_first_step(grid, start, goal, RobotBody::Wheeled, false, occupied, step),
    ensures
        grid.in_bounds(step),
        !(grid.tile_at(step).terrain is IrrigationChannel),
        !(grid.tile_at(step).terrain is PaddyBund),
        !(grid.tile_at(step).terrain is Water),
        !(grid.tile_at(step).terrain is Rock),
        grid.tile_at(step).crop is None,
        !occupied.contains(step),
{
}

/// Every suffix of a cheapest route is a cheapest route itself: after the first step
/// of a cheapest route to the goal, the rest of it costs exactly what the cheapest way
/// from that step to the goal costs, and the whole route costs the step plus the rest.
pub proof fn cheapest_route_rest_is_cheapest(
    grid: FarmGrid,
    route: Seq<TilePos>,
    start: TilePos,
    goal: TilePos,
    body: RobotBody,
    allow: bool,
    occupied: Seq<TilePos>,
)
    requires
        cheapest_route(grid, route, start, goal, body, allow, occupied),
        route.len() >= 2,
    ensures
        cheapest_route(grid, route.subrange(1, route.len() as int), route[1], goal, body, allow, occupied),
        route_cost(grid, route, body) == step_cost_of(grid.tile_at(route[1]), body) + route_cost(
            grid,
            route.subrange(1, route.len() as int),
            body,
        ),
{
    let rest = route.subrange(1, route.len() as int);
    assert(route =~= seq![start] + rest);
    lemma_route_cost_prepend(grid, start, rest, body);
    assert(open_at(grid, route[1], body, allow, occupied));
    assert forall|k: int| 0 <= k < rest.len() - 1 implies manhattan_distance(#[trigger] rest[k], rest[k + 1]) == 1 by {
        assert(rest[k] == route[k + 1] && rest[k + 1] == route[k + 2]);
    }
    assert forall|k: int| 1 <= k < rest.len() implies open_at(grid, #[trigger] rest[k], body, allow, occupied) by {
        assert(rest[k] == route[k + 1]);
    }
    assert(is_route(grid, rest, body, allow, occupied));
    assert forall|other: Seq<TilePos>|
        is_route(grid, other, body, allow, occupied) && other[0] == route[1] && other.last() == goal implies route_cost(
        grid,
        rest,
        body,
    ) <= #[trigger] route_cost(grid, other, body) by {
        let full = seq![start] + other;
        lemma_route_cost_prepend(grid, start, other, body);
        assert forall|k: int| 0 <= k < full.len() - 1 implies manhattan_distance(#[trigger] full[k], full[k + 1]) == 1 by {
            if k == 0 {
                assert(full[1] == route[1]);
                assert(manhattan_distance(route[0], route[1]) == 1);
            } else {
                assert(full[k] == other[k - 1] && full[k + 1] == other[k]);
            }
        }
        assert forall|k: int| 1 <= k < full.len() implies open_at(grid, #[trigger] full[k], body, allow, occupied) by {
            assert(full[k] == other[k - 1]);
        }
        assert(is_route(grid, full, body, allow, occupied));
        assert(full.last() == goal);
        assert(route_cost(grid, route, body) <= route_cost(grid, full, body));
    }
}

} // verus!
