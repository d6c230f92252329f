use vstd::prelude::*;
use vstd::set_lib::{lemma_int_range, lemma_len_subset, set_int_range};
use std::collections::VecDeque;
use crate::camera::{MAP_W, MAP_H};
use crate::map::{GameMap, PathPlan, cell, grid_get, idx, in_bounds, in_grid, lemma_cell_inj, n_cells};

verus! {

/// The eight steps a walker may take, in the order the search tries them.
pub open spec fn dir_dx(d: int) -> int {
    if d == 0 { 0 } else if d == 1 { 1 } else if d == 2 { 0 } else if d == 3 { -1 }
    else if d == 4 { 1 } else if d == 5 { 1 } else if d == 6 { -1 } else { -1 }
}

pub open spec fn dir_dy(d: int) -> int {
    if d == 0 { 1 } else if d == 1 { 0 } else if d == 2 { -1 } else if d == 3 { 0 }
    else if d == 4 { 1 } else if d == 5 { -1 } else if d == 6 { 1 } else { -1 }
}

fn dir(d: usize) -> (r: (i32, i32))
    requires
        d < 8,
    ensures
        r.0 as int == dir_dx(d as int),
        r.1 as int == dir_dy(d as int),
{
    match d {
        0 => (0, 1),
        1 => (1, 0),
        2 => (0, -1),
        3 => (-1, 0),
        4 => (1, 1),
        5 => (1, -1),
        6 => (-1, 1),
        _ => (-1, -1),
    }
}

impl GameMap {
    /// Every walk from (sx, sy) to (ex, ey) takes at least `n` steps.
    pub open spec fn walks_at_least(&self, sx: int, sy: int, ex: int, ey: int, n: int) -> bool {
        forall|q: Seq<(i32, i32)>|
            #![trigger self.is_walk(sx, sy, q)]
            q.len() > 0 && self.is_walk(sx, sy, q) && q.last().0 == ex && q.last().1 == ey ==> n
                <= q.len()
    }

    /// A step from (x, y) to (x + dx, y + dy) leads to a marked tile no
    /// farther from the start than one more than (x, y).
    pub open spec fn nb_seen(&self, vis: Seq<bool>, dist: Seq<int>, x: int, y: int, dx: int, dy: int) -> bool {
        self.legal_step(x, y, x + dx, y + dy) ==> vis[cell(x + dx, y + dy)] && dist[cell(
            x + dx,
            y + dy,
        )] <= dist[cell(x, y)] + 1
    }

    /// The first `d` directions out of (x, y) are seen to.
    pub open spec fn seen_upto(&self, vis: Seq<bool>, dist: Seq<int>, x: int, y: int, d: int) -> bool {
        &&& (d > 0 ==> self.nb_seen(vis, dist, x, y, 0, 1))
        &&& (d > 1 ==> self.nb_seen(vis, dist, x, y, 1, 0))
        &&& (d > 2 ==> self.nb_seen(vis, dist, x, y, 0, -1))
        &&& (d > 3 ==> self.nb_seen(vis, dist, x, y, -1, 0))
        &&& (d > 4 ==> self.nb_seen(vis, dist, x, y, 1, 1))
        &&& (d > 5 ==> self.nb_seen(vis, dist, x, y, 1, -1))
        &&& (d > 6 ==> self.nb_seen(vis, dist, x, y, -1, 1))
        &&& (d > 7 ==> self.nb_seen(vis, dist, x, y, -1, -1))
    }

    /// Every step out of (x, y) is seen to.
    pub open spec fn closed(&self, vis: Seq<bool>, dist: Seq<int>, x: int, y: int) -> bool {
        self.seen_upto(vis, dist, x, y, 8)
    }

    /// What the search knows of a marked tile (x, y) other than the start:
    /// its parent is a marked tile, found earlier, one legal step away and
    /// one step nearer the start.
    pub open spec fn parent_ok(&self, vis: Seq<bool>, par: Seq<(i16, i16)>, pos: Seq<int>, dist: Seq<int>, sx: int, sy: int, x: int, y: int) -> bool {
        (in_grid(x, y) && vis[cell(x, y)] && !(x == sx && y == sy)) ==> {
            let p = par[cell(x, y)];
            &&& in_grid(p.0 as int, p.1 as int)
            &&& vis[cell(p.0 as int, p.1 as int)]
            &&& self.legal_step(p.0 as int, p.1 as int, x, y)
            &&& pos[cell(p.0 as int, p.1 as int)] < pos[cell(x, y)]
            &&& dist[cell(x, y)] == dist[cell(p.0 as int, p.1 as int)] + 1
        }
    }

    proof fn lemma_closed_step(&self, vis: Seq<bool>, dist: Seq<int>, px: int, py: int, qx: int, qy: int)
        requires
            self.closed(vis, dist, px, py),
            self.legal_step(px, py, qx, qy),
        ensures
            vis[cell(qx, qy)],
            dist[cell(qx, qy)] <= dist[cell(px, py)] + 1,
    {
        let dx = qx - px;
        let dy = qy - py;
        if dx == 0 && dy == 1 {
            assert(self.nb_seen(vis, dist, px, py, 0, 1));
        } else if dx == 1 && dy == 0 {
            assert(self.nb_seen(vis, dist, px, py, 1, 0));
        } else if dx == 0 && dy == -1 {
            assert(self.nb_seen(vis, dist, px, py, 0, -1));
        } else if dx == -1 && dy == 0 {
            assert(self.nb_seen(vis, dist, px, py, -1, 0));
        } else if dx == 1 && dy == 1 {
            assert(self.nb_seen(vis, dist, px, py, 1, 1));
        } else if dx == 1 && dy == -1 {
            assert(self.nb_seen(vis, dist, px, py, 1, -1));
        } else if dx == -1 && dy == 1 {
            assert(self.nb_seen(vis, dist, px, py, -1, 1));
        } else {
            assert(self.nb_seen(vis, dist, px, py, -1, -1));
        }
    }

    proof fn lemma_walk_marked(&self, vis: Seq<bool>, dist: Seq<int>, sx: int, sy: int, path: Seq<(i32, i32)>, i: int)
        requires
            vis.len() == n_cells(),
            in_grid(sx, sy),
            vis[cell(sx, sy)],
            forall|x: int, y: int|
                in_grid(x, y) && #[trigger] grid_get(vis, x, y) ==> self.closed(vis, dist, x, y),
            self.is_walk(sx, sy, path),
            0 <= i < path.len(),
        ensures
            in_grid(path[i].0 as int, path[i].1 as int),
            vis[cell(path[i].0 as int, path[i].1 as int)],
        decreases i,
    {
        let px = if i == 0 { sx } else { path[i - 1].0 as int };
        let py = if i == 0 { sy } else { path[i - 1].1 as int };
        if i > 0 {
            self.lemma_walk_marked(vis, dist, sx, sy, path, i - 1);
        }
        assert(grid_get(vis, px, py));
        assert(self.legal_step(px, py, path[i].0 as int, path[i].1 as int));
        self.lemma_closed_step(vis, dist, px, py, path[i].0 as int, path[i].1 as int);
    }

    /// When every step out of a marked tile leads to a marked tile, the start
    /// is marked and the goal is not, no walk from the start reaches the goal.
    proof fn lemma_no_walk(&self, vis: Seq<bool>, dist: Seq<int>, sx: int, sy: int, ex: int, ey: int)
        requires
            vis.len() == n_cells(),
            in_grid(sx, sy),
            in_grid(ex, ey),
            vis[cell(sx, sy)],
            !vis[cell(ex, ey)],
            forall|x: int, y: int|
                in_grid(x, y) && #[trigger] grid_get(vis, x, y) ==> self.closed(vis, dist, x, y),
        ensures
            !self.reaches(sx, sy, ex, ey),
    {
        assert forall|path: Seq<(i32, i32)>|
            path.len() > 0 && #[trigger] self.is_walk(sx, sy, path) implies !(path.last().0 == ex
            && path.last().1 == ey) by {
            self.lemma_walk_marked(vis, dist, sx, sy, path, path.len() - 1);
        }
    }

    /// In the breadth-first order `order`, with the tiles before index `hm`
    /// seen to and `d` the distance of tile `order[hm]`, the first `i + 1`
    /// tiles of a walk no longer than `d` are marked, the tile at index `i`
    /// at distance at most `i + 1`.
    proof fn lemma_walk_early(&self, vis: Seq<bool>, dist: Seq<int>, pos: Seq<int>, order: Seq<(i32, i32)>, hm: int, sx: int, sy: int, path: Seq<(i32, i32)>, i: int)
        requires
            vis.len() == n_cells(),
            dist.len() == n_cells(),
            pos.len() == n_cells(),
            in_grid(sx, sy),
            vis[cell(sx, sy)],
            dist[cell(sx, sy)] == 0,
            0 <= hm < order.len(),
            forall|k: int|
                #![trigger order[k]]
                0 <= k < order.len() ==> {
                    &&& in_grid(order[k].0 as int, order[k].1 as int)
                    &&& vis[cell(order[k].0 as int, order[k].1 as int)]
                    &&& pos[cell(order[k].0 as int, order[k].1 as int)] == k
                },
            forall|x: int, y: int|
                in_grid(x, y) && #[trigger] grid_get(vis, x, y) ==> 0 <= pos[cell(x, y)]
                    < order.len() && order[pos[cell(x, y)]] == (x as i32, y as i32),
            forall|k1: int, k2: int|
                #![trigger order[k1], order[k2]]
                0 <= k1 <= k2 < order.len() ==> dist[cell(order[k1].0 as int, order[k1].1 as int)]
                    <= dist[cell(order[k2].0 as int, order[k2].1 as int)],
            forall|k: int|
                #![trigger order[k]]
                0 <= k < hm ==> self.closed(vis, dist, order[k].0 as int, order[k].1 as int),
            self.is_walk(sx, sy, path),
            0 <= i < path.len(),
            i < dist[cell(order[hm].0 as int, order[hm].1 as int)],
        ensures
            in_grid(path[i].0 as int, path[i].1 as int),
            vis[cell(path[i].0 as int, path[i].1 as int)],
            dist[cell(path[i].0 as int, path[i].1 as int)] <= i + 1,
        decreases i,
    {
        let px = if i == 0 { sx } else { path[i - 1].0 as int };
        let py = if i == 0 { sy } else { path[i - 1].1 as int };
        if i > 0 {
            self.lemma_walk_early(vis, dist, pos, order, hm, sx, sy, path, i - 1);
        }
        assert(grid_get(vis, px, py));
        let k = pos[cell(px, py)];
        assert(order[k] == (px as i32, py as i32));
        if k >= hm {
            assert(order[hm] == order[hm]);
        }
        assert(self.legal_step(px, py, path[i].0 as int, path[i].1 as int));
        self.lemma_closed_step(vis, dist, px, py, path[i].0 as int, path[i].1 as int);
    }

    /// Breadth-first search over the tile grid for a shortest walk from tile
    /// (sx, sy) to tile (ex, ey). Steps go to the eight neighbouring tiles,
    /// never into a solid tile and never diagonally between two solid tiles.
    /// The same tile and a goal off the map or solid are answered without
    /// looking at the start; only the search itself starts from its tile.
    pub fn find_path(&self, sx: i32, sy: i32, ex: i32, ey: i32) -> (r: PathPlan)
        requires
            self.wf(),
            !(sx == ex && sy == ey) && in_grid(ex as int, ey as int) && !self.solid_at(
                ex as int,
                ey as int,
            ) ==> in_grid(sx as int, sy as int),
        ensures
            r is Arrived <==> (sx == ex && sy == ey),
            r is Blocked <==> (!(sx == ex && sy == ey) && (!in_grid(ex as int, ey as int)
                || self.solid_at(ex as int, ey as int))),
            r is Unreachable <==> (!(sx == ex && sy == ey) && in_grid(ex as int, ey as int)
                && !self.solid_at(ex as int, ey as int) && !self.reaches(
                sx as int,
                sy as int,
                ex as int,
                ey as int,
            )),
            r matches PathPlan::Route(p) ==> {
                &&& p@.len() > 0
                &&& self.is_walk(sx as int, sy as int, p@)
                &&& p@.last() == (ex, ey)
                &&& self.walks_at_least(sx as int, sy as int, ex as int, ey as int, p@.len() as int)
            },
    {
        if sx == ex && sy == ey {
            return PathPlan::Arrived;
        }
        if !in_bounds(ex, ey) || self.is_solid(ex, ey) {
            return PathPlan::Blocked;
        }
        let cap = MAP_W * MAP_H;
        let mut parent: Vec<(i16, i16)> = vec![(i16::MIN, i16::MIN); cap];
        let mut visited: Vec<bool> = vec![false; cap];
        let mut queue: VecDeque<(i32, i32)> = VecDeque::new();
        let start_idx = idx(sx, sy);
        visited.set(start_idx, true);
        queue.push_back((sx, sy));
        let ghost s = cell(sx as int, sy as int);
        let ghost e = cell(ex as int, ey as int);
        let ghost mut order: Seq<(i32, i32)> = seq![(sx, sy)];
        let ghost mut pos: Seq<int> = Seq::new(n_cells() as nat, |i: int| 0int);
        let ghost mut dist: Seq<int> = Seq::new(n_cells() as nat, |i: int| 0int);
        let ghost mut seen: Set<int> = Set::empty().insert(s);
        let ghost mut head: int = 0;
        let mut found = false;
        proof {
            assert(queue@ =~= order.subrange(head, order.len() as int));
            lemma_int_range(0, n_cells());
            lemma_len_subset(seen, set_int_range(0, n_cells()));
            assert forall|x: int, y: int|
                in_grid(x, y) && #[trigger] grid_get(visited@, x, y) implies 0 <= pos[cell(x, y)]
                < order.len() && order[pos[cell(x, y)]] == (x as i32, y as i32) by {
                if cell(x, y) != s {
                    assert(visited@[cell(x, y)] == false);
                } else {
                    lemma_cell_inj(x, y, sx as int, sy as int);
                }
            }
            assert forall|x: int, y: int|
                #[trigger] self.parent_ok(visited@, parent@, pos, dist, sx as int, sy as int, x, y) by {
                if in_grid(x, y) && cell(x, y) == s {
                    lemma_cell_inj(x, y, sx as int, sy as int);
                }
            }
        }
        while !found && queue.len() > 0
            invariant
                self.wf(),
                in_grid(sx as int, sy as int),
                in_grid(ex as int, ey as int),
                !self.solid_at(ex as int, ey as int),
                !(sx == ex && sy == ey),
                s == cell(sx as int, sy as int),
                e == cell(ex as int, ey as int),
                visited@.len() == n_cells(),
                parent@.len() == n_cells(),
                pos.len() == n_cells(),
                dist.len() == n_cells(),
                visited@[s],
                pos[s] == 0,
                dist[s] == 0,
                order.len() > 0,
                order[0] == (sx, sy),
                0 <= head <= order.len(),
                queue@ == order.subrange(head, order.len() as int),
                seen.finite(),
                seen.len() == order.len(),
                seen.len() <= n_cells(),
                forall|i: int|
                    #![trigger visited@[i]]
                    #![trigger seen.contains(i)]
                    0 <= i < n_cells() ==> (visited@[i] <==> seen.contains(i)),
                forall|i: int| seen.contains(i) ==> 0 <= i < n_cells(),
                forall|k: int|
                    #![trigger order[k]]
                    0 <= k < order.len() ==> {
                        &&& in_grid(order[k].0 as int, order[k].1 as int)
                        &&& visited@[cell(order[k].0 as int, order[k].1 as int)]
                        &&& pos[cell(order[k].0 as int, order[k].1 as int)] == k
                    },
                forall|x: int, y: int|
                    in_grid(x, y) && #[trigger] grid_get(visited@, x, y) ==> 0 <= pos[cell(x, y)]
                        < order.len() && order[pos[cell(x, y)]] == (x as i32, y as i32),
                forall|x: int, y: int|
                    #[trigger] self.parent_ok(visited@, parent@, pos, dist, sx as int, sy as int, x, y),
                forall|k1: int, k2: int|
                    #![trigger order[k1], order[k2]]
                    0 <= k1 <= k2 < order.len() ==> dist[cell(order[k1].0 as int, order[k1].1 as int)]
                        <= dist[cell(order[k2].0 as int, order[k2].1 as int)],
                head >= 1 ==> forall|k: int|
                    #![trigger order[k]]
                    0 <= k < order.len() ==> dist[cell(order[k].0 as int, order[k].1 as int)] <= dist[cell(
                        order[head - 1].0 as int,
                        order[head - 1].1 as int,
                    )] + 1,
                head == 0 ==> order.len() == 1,
                found <==> visited@[e],
                found ==> self.walks_at_least(sx as int, sy as int, ex as int, ey as int, dist[e]),
                !found ==> forall|k: int|
                    #![trigger order[k]]
                    0 <= k < head ==> self.closed(visited@, dist, order[k].0 as int, order[k].1 as int),
            decreases 2 * (n_cells() - seen.len()) + queue@.len(),
        {
            let ghost m0 = 2 * (n_cells() - seen.len()) + queue@.len();
            let (cx, cy) = queue.pop_front().unwrap();
            proof {
                head = head + 1;
                assert(queue@ =~= order.subrange(head, order.len() as int));
                assert(order[head - 1] == (cx, cy));
            }
            let ghost c = cell(cx as int, cy as int);
            let mut d: usize = 0;
            while d < 8 && !found
                invariant
                    self.wf(),
                    in_grid(sx as int, sy as int),
                    in_grid(ex as int, ey as int),
                    !self.solid_at(ex as int, ey as int),
                    !(sx == ex && sy == ey),
                    s == cell(sx as int, sy as int),
                    e == cell(ex as int, ey as int),
                    0 <= d <= 8,
                    2 * (n_cells() - seen.len()) + queue@.len() < m0,
                    1 <= head <= order.len(),
                    order[head - 1] == (cx, cy),
                    c == cell(cx as int, cy as int),
                    in_grid(cx as int, cy as int),
                    visited@[c],
                    visited@.len() == n_cells(),
                    parent@.len() == n_cells(),
                    pos.len() == n_cells(),
                    dist.len() == n_cells(),
                    visited@[s],
                    pos[s] == 0,
                    dist[s] == 0,
                    order.len() > 0,
                    order[0] == (sx, sy),
                    queue@ == order.subrange(head, order.len() as int),
                    seen.finite(),
                    seen.len() == order.len(),
                    seen.len() <= n_cells(),
                    forall|i: int|
                        #![trigger visited@[i]]
                        #![trigger seen.contains(i)]
                        0 <= i < n_cells() ==> (visited@[i] <==> seen.contains(i)),
                    forall|i: int| seen.contains(i) ==> 0 <= i < n_cells(),
                    forall|k: int|
                        #![trigger order[k]]
                        0 <= k < order.len() ==> {
                            &&& in_grid(order[k].0 as int, order[k].1 as int)
                            &&& visited@[cell(order[k].0 as int, order[k].1 as int)]
                            &&& pos[cell(order[k].0 as int, order[k].1 as int)] == k
                        },
                    forall|x: int, y: int|
                        in_grid(x, y) && #[trigger] grid_get(visited@, x, y) ==> 0 <= pos[cell(x, y)]
                            < order.len() && order[pos[cell(x, y)]] == (x as i32, y as i32),
                    forall|x: int, y: int|
                        #[trigger] self.parent_ok(visited@, parent@, pos, dist, sx as int, sy as int, x, y),
                    forall|k1: int, k2: int|
                        #![trigger order[k1], order[k2]]
                        0 <= k1 <= k2 < order.len() ==> dist[cell(order[k1].0 as int, order[k1].1 as int)]
                            <= dist[cell(order[k2].0 as int, order[k2].1 as int)],
                    forall|k: int|
                        #![trigger order[k]]
                        0 <= k < order.len() ==> dist[cell(order[k].0 as int, order[k].1 as int)]
                            <= dist[c] + 1,
                    found <==> visited@[e],
                    found ==> self.walks_at_least(sx as int, sy as int, ex as int, ey as int, dist[e]),
                    !found ==> forall|k: int|
                        #![trigger order[k]]
                        0 <= k < head - 1 ==> self.closed(
                            visited@,
                            dist,
                            order[k].0 as int,
                            order[k].1 as int,
                        ),
                    !found ==> self.seen_upto(visited@, dist, cx as int, cy as int, d as int),
                decreases 8 - d,
            {
                let (dx, dy) = dir(d);
                let nx = cx + dx;
                let ny = cy + dy;
                if in_bounds(nx, ny) {
                    let ni = idx(nx, ny);
                    if visited[ni] {
                        proof {
                            assert(grid_get(visited@, nx as int, ny as int));
                            let k = pos[ni as int];
                            assert(order[k] == (nx, ny));
                        }
                    }
                    if !visited[ni] && !self.is_solid(nx, ny) && !(dx != 0 && dy != 0 && self.is_solid(
                        cx + dx,
                        cy,
                    ) && self.is_solid(cx, cy + dy)) {
                        let ghost old_vis = visited@;
                        let ghost old_par = parent@;
                        let ghost old_pos = pos;
                        let ghost old_dist = dist;
                        let ghost old_order = order;
                        let ghost old_seen = seen;
                        visited.set(ni, true);
                        parent.set(ni, (cx as i16, cy as i16));
                        queue.push_back((nx, ny));
                        proof {
                            pos = pos.update(ni as int, order.len() as int);
                            dist = dist.update(ni as int, dist[c] + 1);
                            order = order.push((nx, ny));
                            seen = seen.insert(ni as int);
                            assert(!old_seen.contains(ni as int));
                            assert(queue@ =~= order.subrange(head, order.len() as int));
                            lemma_int_range(0, n_cells());
                            lemma_len_subset(seen, set_int_range(0, n_cells()));
                            assert forall|k: int|
                                #![trigger order[k]]
                                0 <= k < order.len() implies {
                                    &&& in_grid(order[k].0 as int, order[k].1 as int)
                                    &&& visited@[cell(order[k].0 as int, order[k].1 as int)]
                                    &&& pos[cell(order[k].0 as int, order[k].1 as int)] == k
                                    &&& dist[cell(order[k].0 as int, order[k].1 as int)] == if k
                                        < old_order.len() {
                                        old_dist[cell(order[k].0 as int, order[k].1 as int)]
                                    } else {
                                        old_dist[c] + 1
                                    }
                                } by {
                                if k < old_order.len() {
                                    assert(old_order[k] == order[k]);
                                    if cell(order[k].0 as int, order[k].1 as int) == ni as int {
                                        lemma_cell_inj(
                                            order[k].0 as int,
                                            order[k].1 as int,
                                            nx as int,
                                            ny as int,
                                        );
                                    }
                                }
                            }
                            assert forall|x: int, y: int|
                                in_grid(x, y) && #[trigger] grid_get(visited@, x, y) implies 0
                                <= pos[cell(x, y)] < order.len() && order[pos[cell(x, y)]] == (
                                x as i32,
                                y as i32,
                            ) by {
                                if cell(x, y) == ni as int {
                                    lemma_cell_inj(x, y, nx as int, ny as int);
                                } else {
                                    assert(grid_get(old_vis, x, y));
                                }
                            }
                            assert forall|x: int, y: int|
                                #[trigger] self.parent_ok(
                                    visited@,
                                    parent@,
                                    pos,
                                    dist,
                                    sx as int,
                                    sy as int,
                                    x,
                                    y,
                                ) by {
                                if in_grid(x, y) && cell(x, y) == ni as int {
                                    lemma_cell_inj(x, y, nx as int, ny as int);
                                    assert(pos[cell(cx as int, cy as int)] == head - 1);
                                } else {
                                    assert(self.parent_ok(
                                        old_vis,
                                        old_par,
                                        old_pos,
                                        old_dist,
                                        sx as int,
                                        sy as int,
                                        x,
                                        y,
                                    ));
                                    if in_grid(x, y) && old_vis[cell(x, y)] && !(x == sx && y
                                        == sy) {
                                        let p = old_par[cell(x, y)];
                                        assert(old_vis[cell(p.0 as int, p.1 as int)]);
                                    }
                                }
                            }
                            assert forall|k1: int, k2: int|
                                #![trigger order[k1], order[k2]]
                                0 <= k1 <= k2 < order.len() implies dist[cell(
                                    order[k1].0 as int,
                                    order[k1].1 as int,
                                )] <= dist[cell(order[k2].0 as int, order[k2].1 as int)] by {
                                if k2 >= old_order.len() {
                                    if k1 < old_order.len() {
                                        assert(old_order[k1] == order[k1]);
                                    }
                                } else {
                                    assert(old_order[k1] == order[k1]);
                                    assert(old_order[k2] == order[k2]);
                                }
                            }
                            if nx == ex && ny == ey {
                                // Every walk to the goal is at least one step
                                // longer than the walk to the tile being expanded.
                                assert forall|q: Seq<(i32, i32)>|
                                    q.len() > 0 && #[trigger] self.is_walk(sx as int, sy as int, q)
                                        && q.last().0 == ex && q.last().1 == ey implies dist[e]
                                    <= q.len() by {
                                    if q.len() <= old_dist[c] {
                                        self.lemma_walk_early(
                                            old_vis,
                                            old_dist,
                                            old_pos,
                                            old_order,
                                            head - 1,
                                            sx as int,
                                            sy as int,
                                            q,
                                            q.len() - 1,
                                        );
                                    }
                                }
                            }
                        }
                        if nx == ex && ny == ey {
                            found = true;
                        }
                    }
                }
                d = d + 1;
            }
        }
        if !found {
            proof {
                assert forall|x: int, y: int|
                    in_grid(x, y) && #[trigger] grid_get(visited@, x, y) implies self.closed(
                    visited@,
                    dist,
                    x,
                    y,
                ) by {
                    let k = pos[cell(x, y)];
                    assert(order[k] == (x as i32, y as i32));
                }
                self.lemma_no_walk(visited@, dist, sx as int, sy as int, ex as int, ey as int);
            }
            return PathPlan::Unreachable;
        }
        // Walk the parent links back from the goal to the start.

        let mut rev: Vec<(i32, i32)> = Vec::new();
        let mut px = ex;
        let mut py = ey;
        while !(px == sx && py == sy)
            invariant
                self.wf(),
                in_grid(px as int, py as int),
                visited@.len() == n_cells(),
                parent@.len() == n_cells(),
                pos.len() == n_cells(),
                dist.len() == n_cells(),
                dist[cell(sx as int, sy as int)] == 0,
                visited@[cell(px as int, py as int)],
                forall|x: int, y: int|
                    in_grid(x, y) && #[trigger] grid_get(visited@, x, y) ==> 0 <= pos[cell(x, y)],
                forall|x: int, y: int|
                    #[trigger] self.parent_ok(visited@, parent@, pos, dist, sx as int, sy as int, x, y),
                rev@.len() + dist[cell(px as int, py as int)] == dist[cell(ex as int, ey as int)],
                rev@.len() == 0 ==> px == ex && py == ey,
                rev@.len() > 0 ==> rev@[0] == (ex, ey) && self.legal_step(
                    px as int,
                    py as int,
                    rev@.last().0 as int,
                    rev@.last().1 as int,
                ),
                forall|i: int|
                    #![trigger rev@[i]]
                    0 <= i < rev@.len() - 1 ==> self.legal_step(
                        rev@[i + 1].0 as int,
                        rev@[i + 1].1 as int,
                        rev@[i].0 as int,
                        rev@[i].1 as int,
                    ),
            decreases pos[cell(px as int, py as int)],
        {
            rev.push((px, py));
            let (ppx, ppy) = parent[idx(px, py)];
            proof {
                assert(self.parent_ok(visited@, parent@, pos, dist, sx as int, sy as int, px as int, py as int));
                assert(grid_get(visited@, ppx as int, ppy as int));
            }
            px = ppx as i32;
            py = ppy as i32;
        }
        let mut path: Vec<(i32, i32)> = Vec::new();
        let mut j = rev.len();
        while j > 0
            invariant
                j <= rev@.len(),
                path@.len() == rev@.len() - j,
                forall|i: int|
                    #![trigger path@[i]]
                    0 <= i < path@.len() ==> path@[i] == rev@[rev@.len() - 1 - i],
            decreases j,
        {
            j = j - 1;
            path.push(rev[j]);
        }
        proof {
            assert(rev@.len() > 0);
            assert forall|i: int|
                #![trigger path@[i]]
                0 <= i < path@.len() implies self.legal_step(
                if i == 0 { sx as int } else { path@[i - 1].0 as int },
                if i == 0 { sy as int } else { path@[i - 1].1 as int },
                path@[i].0 as int,
                path@[i].1 as int,
            ) by {
                if i > 0 {
                    assert(path@[i - 1] == rev@[rev@.len() - 1 - (i - 1)]);
                    assert(rev@[(rev@.len() - 1 - i) + 1] == rev@[rev@.len() - 1 - (i - 1)]);
                }
            }
            assert(self.is_walk(sx as int, sy as int, path@));
            assert(path@.last() == (ex, ey));
        }
        PathPlan::Route(path)
    }
}

} // verus!
