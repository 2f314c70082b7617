//! Connected regions of a binary mask.
//!
//! A region is a set of set mask cells that are pairwise joined by paths of
//! 8-connected set cells. Motion is declared when some region's area (its
//! cell count) exceeds the configured minimum.

use vstd::prelude::*;
use vstd::pervasive::VecAdditionalExecFns;
use vstd::set_lib::lemma_len_subset;
use vstd::set_lib::lemma_set_empty_equivalency_len;
use crate::frame::Frame;
use crate::frame::FrameView;
use crate::frame::lemma_flat_index_bounds;
use crate::frame::lemma_flat_index_injective;

verus! {

/// The cell `p = (row, col)` is a set cell of the mask.
pub open spec fn cell_on(m: FrameView, p: (int, int)) -> bool {
    m.on(p.0, p.1)
}

/// Two distinct cells touch, including diagonally (8-connectivity).
pub open spec fn adjacent(p: (int, int), q: (int, int)) -> bool {
    &&& p != q
    &&& -1 <= p.0 - q.0 <= 1
    &&& -1 <= p.1 - q.1 <= 1
}

/// `path` is a walk over set cells of `m`, each step between adjacent cells.
pub open spec fn path_ok(m: FrameView, path: Seq<(int, int)>) -> bool {
    &&& path.len() >= 1
    &&& forall|i: int| 0 <= i < path.len() ==> cell_on(m, #[trigger] path[i])
    &&& forall|i: int| 0 <= i < path.len() - 1 ==> adjacent(#[trigger] path[i], path[i + 1])
}

/// Some walk over set cells of `m` leads from `p` to `q`.
pub open spec fn connected(m: FrameView, p: (int, int), q: (int, int)) -> bool {
    exists|path: Seq<(int, int)>|
        #[trigger] path_ok(m, path) && path.first() == p && path.last() == q
}

/// Every set cell adjacent to a cell of `s` is itself in `s`.
pub open spec fn closed_under_adjacency(m: FrameView, s: Set<(int, int)>) -> bool {
    forall|p: (int, int), q: (int, int)|
        #![trigger s.contains(p), adjacent(p, q)]
        s.contains(p) && cell_on(m, q) && adjacent(p, q) ==> s.contains(q)
}

/// All cells reachable from `p` by walks over set cells.
pub open spec fn component_of(m: FrameView, p: (int, int)) -> Set<(int, int)> {
    Set::new(|q: (int, int)| connected(m, p, q))
}

/// `s` is a finite set of set cells of `m`, pairwise connected: a region or
/// a part of one.
pub open spec fn is_blob(m: FrameView, s: Set<(int, int)>) -> bool {
    &&& s.finite()
    &&& forall|p: (int, int)| #[trigger] s.contains(p) ==> cell_on(m, p)
    &&& forall|p: (int, int), q: (int, int)|
        #![trigger s.contains(p), s.contains(q)]
        s.contains(p) && s.contains(q) ==> connected(m, p, q)
}

/// Some region of `m` has more than `min_area` cells.
pub open spec fn has_blob(m: FrameView, min_area: int) -> bool {
    exists|s: Set<(int, int)>| #[trigger] is_blob(m, s) && s.len() > min_area
}

/// The end cells of a walk are set cells.
pub proof fn lemma_connected_ends(m: FrameView, p: (int, int), q: (int, int))
    requires
        connected(m, p, q),
    ensures
        cell_on(m, p),
        cell_on(m, q),
{
    let path = choose|path: Seq<(int, int)>|
        #[trigger] path_ok(m, path) && path.first() == p && path.last() == q;
    assert(cell_on(m, path[0]));
    assert(cell_on(m, path[path.len() - 1]));
}

/// A set cell is connected to itself.
pub proof fn lemma_connected_refl(m: FrameView, p: (int, int))
    requires
        cell_on(m, p),
    ensures
        connected(m, p, p),
{
    let path: Seq<(int, int)> = seq![p];
    assert(path_ok(m, path));
}

/// Walks can be reversed.
pub proof fn lemma_connected_sym(m: FrameView, p: (int, int), q: (int, int))
    requires
        connected(m, p, q),
    ensures
        connected(m, q, p),
{
    let path = choose|path: Seq<(int, int)>|
        #[trigger] path_ok(m, path) && path.first() == p && path.last() == q;
    let n = path.len() as int;
    let rev: Seq<(int, int)> = Seq::new(path.len(), |i: int| path[n - 1 - i]);
    assert forall|i: int| 0 <= i < rev.len() - 1 implies adjacent(#[trigger] rev[i], rev[i + 1]) by {
        assert(adjacent(path[n - 2 - i], path[n - 1 - i]));
    }
    assert(path_ok(m, rev));
    assert(rev.first() == q && rev.last() == p);
}

/// Walks compose.
pub proof fn lemma_connected_trans(m: FrameView, p: (int, int), q: (int, int), r: (int, int))
    requires
        connected(m, p, q),
        connected(m, q, r),
    ensures
        connected(m, p, r),
{
    let path1 = choose|path: Seq<(int, int)>|
        #[trigger] path_ok(m, path) && path.first() == p && path.last() == q;
    let path2 = choose|path: Seq<(int, int)>|
        #[trigger] path_ok(m, path) && path.first() == q && path.last() == r;
    let n1 = path1.len() as int;
    let n2 = path2.len() as int;
    if n2 == 1 {
        assert(path1.last() == r);
    } else {
        let joined: Seq<(int, int)> = Seq::new(
            (n1 + n2 - 1) as nat,
            |i: int|
                if i < n1 {
                    path1[i]
                } else {
                    path2[i - n1 + 1]
                },
        );
        assert forall|i: int| 0 <= i < joined.len() implies cell_on(m, #[trigger] joined[i]) by {
            if i < n1 {
                assert(cell_on(m, path1[i]));
            } else {
                assert(cell_on(m, path2[i - n1 + 1]));
            }
        }
        assert forall|i: int| 0 <= i < joined.len() - 1 implies adjacent(
            #[trigger] joined[i],
            joined[i + 1],
        ) by {
            if i < n1 - 1 {
                assert(adjacent(path1[i], path1[i + 1]));
            } else if i == n1 - 1 {
                assert(joined[i] == path1[n1 - 1]);
                assert(joined[i + 1] == path2[1]);
                assert(adjacent(path2[0], path2[1]));
            } else {
                assert(adjacent(path2[i - n1 + 1], path2[i - n1 + 2]));
            }
        }
        assert(path_ok(m, joined));
        assert(joined.first() == p && joined.last() == r);
    }
}

/// A walk that starts in a set closed under adjacency ends in it.
pub proof fn lemma_closed_path(m: FrameView, s: Set<(int, int)>, path: Seq<(int, int)>)
    requires
        path_ok(m, path),
        s.contains(path.first()),
        closed_under_adjacency(m, s),
    ensures
        s.contains(path.last()),
    decreases path.len(),
{
    if path.len() == 1 {
    } else {
        assert(cell_on(m, path[1]));
        assert(adjacent(path[0], path[1]));
        assert(s.contains(path[1]));
        let rest = path.subrange(1, path.len() as int);
        assert forall|i: int| 0 <= i < rest.len() implies cell_on(m, #[trigger] rest[i]) by {
            assert(cell_on(m, path[i + 1]));
        }
        assert forall|i: int| 0 <= i < rest.len() - 1 implies adjacent(
            #[trigger] rest[i],
            rest[i + 1],
        ) by {
            assert(adjacent(path[i + 1], path[i + 2]));
        }
        assert(path_ok(m, rest));
        lemma_closed_path(m, s, rest);
    }
}

/// Connected cells see the same component.
pub proof fn lemma_component_eq(m: FrameView, p: (int, int), q: (int, int))
    requires
        connected(m, p, q),
    ensures
        component_of(m, p) == component_of(m, q),
{
    assert forall|x: (int, int)| component_of(m, p).contains(x) implies component_of(
        m,
        q,
    ).contains(x) by {
        lemma_connected_sym(m, p, q);
        lemma_connected_trans(m, q, p, x);
    }
    assert forall|x: (int, int)| component_of(m, q).contains(x) implies component_of(
        m,
        p,
    ).contains(x) by {
        lemma_connected_trans(m, p, q, x);
    }
    assert(component_of(m, p) =~= component_of(m, q));
}

/// A finite set of cells all reachable from one seed is a blob.
pub proof fn lemma_blob_from_seed(m: FrameView, seed: (int, int), s: Set<(int, int)>)
    requires
        s.finite(),
        forall|p: (int, int)| #[trigger] s.contains(p) ==> connected(m, seed, p),
    ensures
        is_blob(m, s),
{
    assert forall|p: (int, int)| #[trigger] s.contains(p) implies cell_on(m, p) by {
        lemma_connected_ends(m, seed, p);
    }
    assert forall|p: (int, int), q: (int, int)|
        s.contains(p) && s.contains(q) implies connected(m, p, q) by {
        lemma_connected_sym(m, seed, p);
        lemma_connected_trans(m, p, seed, q);
    }
}

/// Raising the area gate can only turn motion off, never on.
///
/// If some region exceeds the larger bound `a2`, it also exceeds any
/// smaller bound `a1`.
pub proof fn lemma_blob_monotone(m: FrameView, a1: int, a2: int)
    requires
        a1 <= a2,
        has_blob(m, a2),
    ensures
        has_blob(m, a1),
{
    let s = choose|s: Set<(int, int)>| #[trigger] is_blob(m, s) && s.len() > a2;
    assert(is_blob(m, s) && s.len() > a1);
}

/// Two adjacent set cells are connected.
pub proof fn lemma_connected_step(m: FrameView, p: (int, int), q: (int, int))
    requires
        cell_on(m, p),
        cell_on(m, q),
        adjacent(p, q),
    ensures
        connected(m, p, q),
{
    let path: Seq<(int, int)> = seq![p, q];
    assert(path_ok(m, path));
}

/// A mask with no set cell has no region at all, so no region exceeds any
/// non-negative area bound.
pub proof fn lemma_all_off_no_blob(m: FrameView, min_area: int)
    requires
        m.all_off(),
        min_area >= 0,
    ensures
        !has_blob(m, min_area),
{
    if has_blob(m, min_area) {
        let s = choose|s: Set<(int, int)>| #[trigger] is_blob(m, s) && s.len() > min_area;
        lemma_set_empty_equivalency_len(s);
        let p = choose|p: (int, int)| s.contains(p);
        assert(cell_on(m, p));
        assert(!m.on(p.0, p.1));
    }
}

/// The row-major buffer position of the cell `p`.
pub open spec fn flat_cell(w: int, p: (int, int)) -> int {
    p.0 * w + p.1
}

/// The cell named by a pair of machine indices.
pub open spec fn grid_cell(e: (usize, usize)) -> (int, int) {
    (e.0 as int, e.1 as int)
}

/// The visit buffer marks exactly the cells of `v`.
spec fn vis_ok(m: FrameView, vis: Seq<bool>, v: Set<(int, int)>) -> bool {
    &&& vis.len() == m.width * m.height
    &&& forall|p: (int, int)|
        m.in_bounds(p.0, p.1) ==> vis[#[trigger] flat_cell(m.width, p)] == v.contains(p)
}

/// The cell `p` sits somewhere in the pending stack.
spec fn in_stack(st: Seq<(usize, usize)>, p: (int, int)) -> bool {
    exists|i: int| 0 <= i < st.len() && grid_cell(#[trigger] st[i]) == p
}

/// The cell `p` comes before position `(r, c)` in row-major order.
spec fn scanned_before(p: (int, int), r: int, c: int) -> bool {
    p.0 < r || (p.0 == r && p.1 < c)
}

/// What the sweep knows about the visited set `v`: it holds only set
/// cells, whole regions at a time, and every region it holds has at most
/// `a` cells.
spec fn swept(m: FrameView, v: Set<(int, int)>, a: int) -> bool {
    &&& v.finite()
    &&& closed_under_adjacency(m, v)
    &&& forall|p: (int, int)| #[trigger] v.contains(p) ==> cell_on(m, p)
    &&& forall|p: (int, int)| #[trigger] v.contains(p) ==> component_of(m, p).finite()
        && component_of(m, p).len() <= a
}

/// Marking a cell keeps the visit buffer and the visited set in step.
proof fn lemma_mark_cell(m: FrameView, vis: Seq<bool>, v: Set<(int, int)>, p: (int, int))
    requires
        vis_ok(m, vis, v),
        m.in_bounds(p.0, p.1),
    ensures
        vis_ok(m, vis.update(flat_cell(m.width, p), true), v.insert(p)),
{
    let vis2 = vis.update(flat_cell(m.width, p), true);
    let v2 = v.insert(p);
    lemma_flat_index_bounds(m.width, m.height, p.0, p.1);
    assert forall|q: (int, int)| m.in_bounds(q.0, q.1) implies vis2[#[trigger] flat_cell(
        m.width,
        q,
    )] == v2.contains(q) by {
        lemma_flat_index_bounds(m.width, m.height, q.0, q.1);
        if q != p {
            lemma_flat_index_injective(m.width, m.height, q.0, q.1, p.0, p.1);
        }
    }
}

/// Decides whether some region of the mask has more than `min_area` cells.
///
/// This is the area gate of the detection pipeline: it sweeps the mask in
/// row-major order and grows each unvisited region cell by cell, stopping
/// as soon as one region exceeds the bound.
#[verifier::loop_isolation(false)]
#[verifier::rlimit(100)]
pub fn mask_has_blob(mask: &Frame, min_area: u32) -> (b: bool)
    requires
        mask.wf(),
    ensures
        b == has_blob(mask@, min_area as int),
{
    let ghost m = mask@;
    let w: usize = mask.width();
    let h: usize = mask.height();
    let n: usize = mask.pixels.len();
    let min_area_us: usize = min_area as usize;

    let mut visited: Vec<bool> = Vec::new();
    let mut i: usize = 0;
    while i < n
        invariant
            i <= n,
            visited@.len() == i,
            forall|k: int| 0 <= k < i ==> !visited@[k],
        decreases n - i,
    {
        visited.push(false);
        i += 1;
    }
    let ghost mut vset: Set<(int, int)> = Set::empty();
    proof {
        assert forall|p: (int, int)| m.in_bounds(p.0, p.1) implies visited@[#[trigger] flat_cell(
            m.width,
            p,
        )] == vset.contains(p) by {
            lemma_flat_index_bounds(m.width, m.height, p.0, p.1);
        }
        assert(vis_ok(m, visited@, vset));
    }

    let mut r: usize = 0;
    while r < h
        invariant
            r <= h,
            visited@.len() == n,
            vis_ok(m, visited@, vset),
            swept(m, vset, min_area as int),
            forall|p: (int, int)|
                cell_on(m, p) && #[trigger] scanned_before(p, r as int, 0) ==> vset.contains(p),
        decreases h - r,
    {
        let mut c: usize = 0;
        while c < w
            invariant
                c <= w,
                visited@.len() == n,
                vis_ok(m, visited@, vset),
                swept(m, vset, min_area as int),
                forall|p: (int, int)|
                    cell_on(m, p) && #[trigger] scanned_before(p, r as int, c as int)
                        ==> vset.contains(p),
            decreases w - c,
        {
            proof {
                lemma_flat_index_bounds(w as int, h as int, r as int, c as int);
            }
            let idx: usize = r * w + c;
            let seed_on = mask.at(r, c) != 0;
            let fresh = !visited[idx];
            if seed_on && fresh {
                let ghost seed: (int, int) = (r as int, c as int);
                let ghost v0 = vset;
                let ghost mut cset: Set<(int, int)> = Set::empty().insert(seed);
                let mut count: usize = 0;
                let mut stack: Vec<(usize, usize)> = Vec::new();
                let ghost vis_before = visited@;
                visited.set(idx, true);
                stack.push((r, c));
                proof {
                    assert(flat_cell(m.width, seed) == idx as int);
                    assert(!vset.contains(seed));
                    vset = v0.insert(seed);
                    lemma_mark_cell(m, vis_before, v0, seed);
                    lemma_connected_refl(m, seed);
                    assert(vset =~= v0.union(cset));
                    assert(grid_cell(stack@[0]) == seed);
                    assert(in_stack(stack@, seed));
                }
                if count >= min_area_us {
                    proof {
                        lemma_blob_from_seed(m, seed, cset);
                        assert(is_blob(m, cset) && cset.len() > min_area as int);
                    }
                    return true;
                }
                count = 1;

                while stack.len() != 0
                    invariant
                        visited@.len() == n,
                        vis_ok(m, visited@, vset),
                        vset =~= v0.union(cset),
                        vset.finite(),
                        cset.finite(),
                        cset.contains(seed),
                        cset.len() == count,
                        count <= min_area_us,
                        forall|p: (int, int)| #[trigger]
                            cset.contains(p) ==> connected(m, seed, p) && !v0.contains(p),
                        forall|k: int|
                            0 <= k < stack@.len() ==> cset.contains(grid_cell(#[trigger] stack@[k]))
                                && stack@[k].0 < h && stack@[k].1 < w,
                        forall|p: (int, int), q: (int, int)|
                            #![trigger cset.contains(p), adjacent(p, q)]
                            cset.contains(p) && !in_stack(stack@, p) && cell_on(m, q)
                                && adjacent(p, q) ==> cset.contains(q),
                        forall|p: (int, int)|
                            cell_on(m, p) && #[trigger] scanned_before(p, r as int, c as int)
                                ==> vset.contains(p),
                    decreases min_area_us + 1 - count, stack@.len(),
                {
                    let ghost stack_at_pop = stack@;
                    let ghost count_at_pop = count as int;
                    let top = stack.pop();
                    if let Some(cell) = top {
                        let (pr, pc) = cell;
                        let ghost pstar: (int, int) = (pr as int, pc as int);
                        proof {
                            assert(grid_cell(stack_at_pop[stack_at_pop.len() - 1]) == pstar);
                            assert(cset.contains(pstar));
                            assert forall|p: (int, int)|
                                in_stack(stack_at_pop, p) && p != pstar implies in_stack(
                                stack@,
                                p,
                            ) by {
                                let k = choose|k: int|
                                    0 <= k < stack_at_pop.len() && grid_cell(
                                        #[trigger] stack_at_pop[k],
                                    ) == p;
                                assert(k < stack_at_pop.len() - 1);
                                assert(grid_cell(stack@[k]) == p);
                            }
                        }

                        let r_lo: usize = if pr > 0 {
                            pr - 1
                        } else {
                            0
                        };
                        let r_hi: usize = if pr + 1 < h {
                            pr + 1
                        } else {
                            h - 1
                        };
                        let c_lo: usize = if pc > 0 {
                            pc - 1
                        } else {
                            0
                        };
                        let c_hi: usize = if pc + 1 < w {
                            pc + 1
                        } else {
                            w - 1
                        };
                        let mut rr: usize = r_lo;
                        while rr <= r_hi
                            invariant
                                r_lo <= rr,
                                visited@.len() == n,
                                vis_ok(m, visited@, vset),
                                vset =~= v0.union(cset),
                                vset.finite(),
                                cset.finite(),
                                cset.contains(seed),
                                cset.contains(pstar),
                                cset.len() == count,
                                count_at_pop <= count <= min_area_us,
                                count > count_at_pop || stack@.len() == stack_at_pop.len() - 1,
                                forall|p: (int, int)| #[trigger]
                                    cset.contains(p) ==> connected(m, seed, p) && !v0.contains(p),
                                forall|k: int|
                                    0 <= k < stack@.len() ==> cset.contains(
                                        grid_cell(#[trigger] stack@[k]),
                                    ) && stack@[k].0 < h && stack@[k].1 < w,
                                forall|p: (int, int), q: (int, int)|
                                    #![trigger cset.contains(p), adjacent(p, q)]
                                    cset.contains(p) && !in_stack(stack@, p) && p != pstar
                                        && cell_on(m, q) && adjacent(p, q) ==> cset.contains(q),
                                forall|q: (int, int)|
                                    cell_on(m, q) && adjacent(pstar, q) && (q.0 < rr || q.0
                                        > pstar.0 + 1) ==> #[trigger] cset.contains(q),
                                forall|p: (int, int)|
                                    cell_on(m, p) && #[trigger] scanned_before(
                                        p,
                                        r as int,
                                        c as int,
                                    ) ==> vset.contains(p),
                            decreases r_hi + 1 - rr,
                        {
                            let mut cc: usize = c_lo;
                            while cc <= c_hi
                                invariant
                                    r_lo <= rr <= r_hi,
                                    c_lo <= cc,
                                    visited@.len() == n,
                                    vis_ok(m, visited@, vset),
                                    vset =~= v0.union(cset),
                                    vset.finite(),
                                    cset.finite(),
                                    cset.contains(seed),
                                    cset.contains(pstar),
                                    cset.len() == count,
                                    count_at_pop <= count <= min_area_us,
                                    count > count_at_pop || stack@.len() == stack_at_pop.len() - 1,
                                    forall|p: (int, int)| #[trigger]
                                        cset.contains(p) ==> connected(m, seed, p) && !v0.contains(
                                            p,
                                        ),
                                    forall|k: int|
                                        0 <= k < stack@.len() ==> cset.contains(
                                            grid_cell(#[trigger] stack@[k]),
                                        ) && stack@[k].0 < h && stack@[k].1 < w,
                                    forall|p: (int, int), q: (int, int)|
                                        #![trigger cset.contains(p), adjacent(p, q)]
                                        cset.contains(p) && !in_stack(stack@, p) && p != pstar
                                            && cell_on(m, q) && adjacent(p, q) ==> cset.contains(
                                            q,
                                        ),
                                    forall|q: (int, int)|
                                        cell_on(m, q) && adjacent(pstar, q) && (q.0 < rr || q.0
                                            > pstar.0 + 1 || (q.0 == rr && (q.1 < cc || q.1
                                            > pstar.1 + 1))) ==> #[trigger] cset.contains(q),
                                    forall|p: (int, int)|
                                        cell_on(m, p) && #[trigger] scanned_before(
                                            p,
                                            r as int,
                                            c as int,
                                        ) ==> vset.contains(p),
                                decreases c_hi + 1 - cc,
                            {
                                let ghost q: (int, int) = (rr as int, cc as int);
                                proof {
                                    lemma_flat_index_bounds(
                                        w as int,
                                        h as int,
                                        rr as int,
                                        cc as int,
                                    );
                                }
                                let nidx: usize = rr * w + cc;
                                if mask.at(rr, cc) != 0 {
                                    if !visited[nidx] {
                                        proof {
                                            assert(flat_cell(m.width, q) == nidx as int);
                                            assert(!vset.contains(q));
                                            assert(cell_on(m, q));
                                            assert(cell_on(m, pstar));
                                            assert(q != pstar);
                                            assert(adjacent(pstar, q));
                                            lemma_connected_step(m, pstar, q);
                                            lemma_connected_trans(m, seed, pstar, q);
                                        }
                                        let ghost vis_at_mark = visited@;
                                        let ghost stack_at_push = stack@;
                                        visited.set(nidx, true);
                                        stack.push((rr, cc));
                                        proof {
                                            lemma_mark_cell(m, vis_at_mark, vset, q);
                                            vset = vset.insert(q);
                                            cset = cset.insert(q);
                                            assert(vset =~= v0.union(cset));
                                            assert(grid_cell(stack@[stack@.len() - 1]) == q);
                                            assert forall|p: (int, int)|
                                                in_stack(stack_at_push, p) implies in_stack(
                                                stack@,
                                                p,
                                            ) by {
                                                let k = choose|k: int|
                                                    0 <= k < stack_at_push.len() && grid_cell(
                                                        #[trigger] stack_at_push[k],
                                                    ) == p;
                                                assert(grid_cell(stack@[k]) == p);
                                            }
                                        }
                                        if count >= min_area_us {
                                            proof {
                                                lemma_blob_from_seed(m, seed, cset);
                                                assert(is_blob(m, cset) && cset.len() > min_area
                                                    as int);
                                            }
                                            return true;
                                        }
                                        count += 1;
                                    } else {
                                        proof {
                                            assert(flat_cell(m.width, q) == nidx as int);
                                            assert(vset.contains(q));
                                            if !cset.contains(q) {
                                                assert(v0.contains(q));
                                                assert(q != pstar);
                                                assert(cell_on(m, pstar));
                                                assert(adjacent(q, pstar));
                                                assert(v0.contains(pstar));
                                                assert(false);
                                            }
                                        }
                                    }
                                }
                                cc += 1;
                            }
                            proof {
                                assert forall|q2: (int, int)|
                                    cell_on(m, q2) && adjacent(pstar, q2) && (q2.0 < rr + 1 || q2.0
                                        > pstar.0 + 1) implies cset.contains(q2) by {
                                    if q2.0 == rr {
                                        assert(0 <= q2.1 < m.width);
                                        assert(q2.1 >= pstar.1 - 1 && q2.1 <= pstar.1 + 1);
                                        assert(q2.1 >= c_lo as int);
                                        assert(q2.1 <= c_hi as int);
                                        assert(q2.1 < cc);
                                    }
                                }
                            }
                            rr += 1;
                        }
                        proof {
                            assert forall|q2: (int, int)|
                                cell_on(m, q2) && adjacent(pstar, q2) implies cset.contains(
                                q2,
                            ) by {
                                assert(0 <= q2.0 < m.height);
                                assert(q2.0 >= pstar.0 - 1 && q2.0 <= pstar.0 + 1);
                                assert(q2.0 <= r_hi as int);
                                assert(q2.0 < rr);
                            }
                        }
                    }
                }

                proof {
                    assert forall|p: (int, int)| !in_stack(stack@, p) by {
                        assert(stack@.len() == 0);
                    }
                    assert(closed_under_adjacency(m, cset));
                    assert forall|p: (int, int)| component_of(m, seed).contains(p)
                        implies cset.contains(p) by {
                        assert(connected(m, seed, p));
                        let path = choose|path: Seq<(int, int)>|
                            #[trigger] path_ok(m, path) && path.first() == seed && path.last() == p;
                        lemma_closed_path(m, cset, path);
                    }
                    assert(cset =~= component_of(m, seed));
                    assert forall|p: (int, int)| #[trigger] vset.contains(p) implies cell_on(m, p)
                        && component_of(m, p).finite() && component_of(m, p).len() <= min_area
                        as int by {
                        if cset.contains(p) {
                            lemma_connected_ends(m, seed, p);
                            lemma_component_eq(m, seed, p);
                        }
                    }
                    assert forall|p: (int, int), q: (int, int)|
                        #![trigger vset.contains(p), adjacent(p, q)]
                        vset.contains(p) && cell_on(m, q) && adjacent(p, q) implies vset.contains(
                        q,
                    ) by {
                        if cset.contains(p) {
                            assert(cset.contains(q));
                        }
                    }
                    assert(swept(m, vset, min_area as int));
                }
            }
            proof {
                assert forall|p: (int, int)|
                    cell_on(m, p) && #[trigger] scanned_before(p, r as int, c as int + 1)
                    implies vset.contains(p) by {
                    if p.0 == r as int && p.1 == c as int {
                        if !(seed_on && fresh) {
                            assert(visited@[flat_cell(m.width, p)] == vset.contains(p));
                        }
                    } else {
                        assert(scanned_before(p, r as int, c as int));
                    }
                }
            }
            c += 1;
        }
        proof {
            assert forall|p: (int, int)|
                cell_on(m, p) && #[trigger] scanned_before(p, r as int + 1, 0)
                implies vset.contains(p) by {
                assert(0 <= p.1 < m.width);
                assert(scanned_before(p, r as int, w as int));
            }
        }
        r += 1;
    }
    proof {
        if has_blob(m, min_area as int) {
            let s = choose|s: Set<(int, int)>| #[trigger] is_blob(m, s) && s.len() > min_area
                as int;
            lemma_set_empty_equivalency_len(s);
            let x = choose|x: (int, int)| s.contains(x);
            assert(cell_on(m, x));
            assert(scanned_before(x, h as int, 0));
            assert(vset.contains(x));
            assert forall|q2: (int, int)| s.contains(q2) implies component_of(m, x).contains(
                q2,
            ) by {
                assert(connected(m, x, q2));
            }
            lemma_len_subset(s, component_of(m, x));
            assert(false);
        }
    }
    false
}

} // verus!
