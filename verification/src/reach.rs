//! Reachability over the tile grid: 4-directional movement through walkable
//! tiles.  The dungeon generator's connectivity guarantee is stated with
//! `reachable` and proved with the lemmas in this module.

use vstd::prelude::*;

use crate::grid::{grid_wf, carved_at, walkable_at, TileGrid};

verus! {

/// Two positions adjacent under 4-directional movement.
pub open spec fn adjacent(p: (int, int), q: (int, int)) -> bool {
    ||| (q.0 == p.0 + 1 && q.1 == p.1)
    ||| (q.0 == p.0 - 1 && q.1 == p.1)
    ||| (q.0 == p.0 && q.1 == p.1 + 1)
    ||| (q.0 == p.0 && q.1 == p.1 - 1)
}

/// There is a path of at most `n` steps from `s` to `p` through walkable
/// tiles (both endpoints walkable).
pub open spec fn reach_n(g: TileGrid, s: (int, int), p: (int, int), n: nat) -> bool
    decreases n,
{
    walkable_at(g, p.0, p.1) && (p == s || (n > 0 && exists|q: (int, int)|
        adjacent(q, p) && reach_n(g, s, q, (n - 1) as nat)))
}

/// `p` can be reached from `s` by 4-directional moves through walkable
/// tiles.
pub open spec fn reachable(g: TileGrid, s: (int, int), p: (int, int)) -> bool {
    exists|n: nat| reach_n(g, s, p, n)
}

/// A reachable position is walkable, hence carved.
pub proof fn lemma_reachable_is_carved(g: TileGrid, s: (int, int), p: (int, int))
    requires
        grid_wf(g),
        reachable(g, s, p),
    ensures
        walkable_at(g, p.0, p.1),
        carved_at(g, p.0, p.1),
{
    let n = choose|n: nat| reach_n(g, s, p, n);
    assert(reach_n(g, s, p, n));
    crate::grid::lemma_carved_is_walkable(g, p.0, p.1);
}

/// Reachability is preserved by one step to an adjacent walkable tile.
pub proof fn lemma_reach_step(g: TileGrid, s: (int, int), p: (int, int), q: (int, int))
    requires
        reachable(g, s, p),
        adjacent(p, q),
        walkable_at(g, q.0, q.1),
    ensures
        reachable(g, s, q),
{
    let n = choose|n: nat| reach_n(g, s, p, n);
    assert(reach_n(g, s, p, n));
    assert(reach_n(g, s, q, n + 1));
}

/// A walkable start reaches itself.
pub proof fn lemma_reach_refl(g: TileGrid, s: (int, int))
    requires
        walkable_at(g, s.0, s.1),
    ensures
        reachable(g, s, s),
{
    assert(reach_n(g, s, s, 0));
}

proof fn lemma_reach_n_mono(g1: TileGrid, g2: TileGrid, s: (int, int), p: (int, int), n: nat)
    requires
        forall|x: int, y: int| walkable_at(g1, x, y) ==> walkable_at(g2, x, y),
        reach_n(g1, s, p, n),
    ensures
        reach_n(g2, s, p, n),
    decreases n,
{
    assert(walkable_at(g1, p.0, p.1));
    if p != s {
        let q = choose|q: (int, int)| adjacent(q, p) && reach_n(g1, s, q, (n - 1) as nat);
        lemma_reach_n_mono(g1, g2, s, q, (n - 1) as nat);
        assert(adjacent(q, p) && reach_n(g2, s, q, (n - 1) as nat));
    }
}

/// Carving can only open tiles up: if every tile walkable in `g1` stays
/// walkable in `g2`, reachability carries over from `g1` to `g2`.
pub proof fn lemma_reach_mono(g1: TileGrid, g2: TileGrid, s: (int, int), p: (int, int))
    requires
        forall|x: int, y: int| walkable_at(g1, x, y) ==> walkable_at(g2, x, y),
        reachable(g1, s, p),
    ensures
        reachable(g2, s, p),
{
    let n = choose|n: nat| reach_n(g1, s, p, n);
    assert(reach_n(g1, s, p, n));
    lemma_reach_n_mono(g1, g2, s, p, n);
}

proof fn lemma_reach_n_trans(g: TileGrid, a: (int, int), b: (int, int), c: (int, int), n: nat)
    requires
        reachable(g, a, b),
        reach_n(g, b, c, n),
    ensures
        reachable(g, a, c),
    decreases n,
{
    if c == b {
    } else {
        let q = choose|q: (int, int)| adjacent(q, c) && reach_n(g, b, q, (n - 1) as nat);
        lemma_reach_n_trans(g, a, b, q, (n - 1) as nat);
        lemma_reach_step(g, a, q, c);
    }
}

/// Reachability is transitive.
pub proof fn lemma_reach_trans(g: TileGrid, a: (int, int), b: (int, int), c: (int, int))
    requires
        reachable(g, a, b),
        reachable(g, b, c),
    ensures
        reachable(g, a, c),
{
    let n = choose|n: nat| reach_n(g, b, c, n);
    assert(reach_n(g, b, c, n));
    lemma_reach_n_trans(g, a, b, c, n);
}

/// Along a fully walkable horizontal run of tiles, any tile of the run
/// reaches any other.
pub proof fn lemma_h_run_reach(g: TileGrid, y: int, xa: int, xb: int, xf: int, xt: int)
    requires
        xa <= xf <= xb,
        xa <= xt <= xb,
        forall|x: int| xa <= x <= xb ==> walkable_at(g, x, y),
    ensures
        reachable(g, (xf, y), (xt, y)),
    decreases
            (if xt >= xf {
                xt - xf
            } else {
                xf - xt
            }),
{
    if xt == xf {
        lemma_reach_refl(g, (xf, y));
    } else if xt > xf {
        lemma_h_run_reach(g, y, xa, xb, xf, xt - 1);
        lemma_reach_step(g, (xf, y), (xt - 1, y), (xt, y));
    } else {
        lemma_h_run_reach(g, y, xa, xb, xf, xt + 1);
        lemma_reach_step(g, (xf, y), (xt + 1, y), (xt, y));
    }
}

/// Along a fully walkable vertical run of tiles, any tile of the run
/// reaches any other.
pub proof fn lemma_v_run_reach(g: TileGrid, x: int, ya: int, yb: int, yf: int, yt: int)
    requires
        ya <= yf <= yb,
        ya <= yt <= yb,
        forall|y: int| ya <= y <= yb ==> walkable_at(g, x, y),
    ensures
        reachable(g, (x, yf), (x, yt)),
    decreases
            (if yt >= yf {
                yt - yf
            } else {
                yf - yt
            }),
{
    if yt == yf {
        lemma_reach_refl(g, (x, yf));
    } else if yt > yf {
        lemma_v_run_reach(g, x, ya, yb, yf, yt - 1);
        lemma_reach_step(g, (x, yf), (x, yt - 1), (x, yt));
    } else {
        lemma_v_run_reach(g, x, ya, yb, yf, yt + 1);
        lemma_reach_step(g, (x, yf), (x, yt + 1), (x, yt));
    }
}

/// Inside a fully walkable rectangular block of tiles, any tile reaches any
/// other (go along the row, then along the column).
pub proof fn lemma_block_reach(
    g: TileGrid,
    x1: int,
    y1: int,
    x2: int,
    y2: int,
    f: (int, int),
    t: (int, int),
)
    requires
        x1 <= f.0 <= x2,
        y1 <= f.1 <= y2,
        x1 <= t.0 <= x2,
        y1 <= t.1 <= y2,
        forall|x: int, y: int| x1 <= x <= x2 && y1 <= y <= y2 ==> walkable_at(g, x, y),
    ensures
        reachable(g, f, t),
{
    assert forall|x: int| x1 <= x <= x2 implies walkable_at(g, x, f.1) by {}
    lemma_h_run_reach(g, f.1, x1, x2, f.0, t.0);
    assert forall|y: int| y1 <= y <= y2 implies walkable_at(g, t.0, y) by {}
    lemma_v_run_reach(g, t.0, y1, y2, f.1, t.1);
    lemma_reach_trans(g, f, (t.0, f.1), t);
}

} // verus!
