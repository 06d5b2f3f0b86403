//! A small loop-bound helper: the Cartesian product of `0..x` and `0..y`,
//! in row-major order, with mapping and iteration conveniences.

use vstd::prelude::*;

verus! {

/// A pair of loop bounds: the product ranges over `0..0 x 0..1`.
#[derive(Debug)]
pub struct Combination(pub usize, pub usize);

impl Combination {
    /// Bounds for a rectangle of `x` by `y`.
    pub fn new_2d(x: usize, y: usize) -> (c: Self)
        ensures
            c.0 == x,
            c.1 == y,
    {
        Combination(x, y)
    }

    /// Bounds for a square of side `sz`.
    pub fn new(sz: usize) -> (c: Self)
        ensures
            c.0 == sz,
            c.1 == sz,
    {
        Combination(sz, sz)
    }
}

impl From<usize> for Combination {
    /// The square bounds of side `u`.
    fn from(u: usize) -> (c: Self) {
        Combination(u, u)
    }
}

impl vstd::std_specs::convert::FromSpecImpl<usize> for Combination {
    open spec fn obeys_from_spec() -> bool {
        true
    }

    open spec fn from_spec(u: usize) -> Self {
        Combination(u, u)
    }
}

impl From<(usize, usize)> for Combination {
    /// The rectangular bounds given by the pair.
    fn from(tup: (usize, usize)) -> (c: Self) {
        let (x, y) = tup;
        Combination(x, y)
    }
}

impl vstd::std_specs::convert::FromSpecImpl<(usize, usize)> for Combination {
    open spec fn obeys_from_spec() -> bool {
        true
    }

    open spec fn from_spec(tup: (usize, usize)) -> Self {
        Combination(tup.0, tup.1)
    }
}

/// Splitting a row-major index into its row and column.
proof fn lemma_rowmajor_decompose(i: int, j: int, y: int)
    requires
        0 <= i,
        0 <= j < y,
    ensures
        (i * y + j) / y == i,
        (i * y + j) % y == j,
{
    assert((i * y + j) / y == i && (i * y + j) % y == j) by (nonlinear_arith)
        requires
            0 <= i,
            0 <= j < y,
    ;
}

impl Combination {
    /// Every pair of the product `0..x times 0..y`, in row-major order:
    /// the pair at index `k` is `(k / y, k % y)`.
    pub fn combine(&self) -> (v: Vec<(usize, usize)>)
        ensures
            v@.len() == self.0 * self.1,
            forall|k: int|
                0 <= k < v@.len() ==> #[trigger] v@[k] == (
                    ((k / (self.1 as int)) as usize),
                    ((k % (self.1 as int)) as usize),
                ),
    {
        let mut v: Vec<(usize, usize)> = Vec::new();
        let mut i: usize = 0;
        while i < self.0
            invariant
                i <= self.0,
                v@.len() == i * self.1,
                forall|k: int|
                    0 <= k < v@.len() ==> #[trigger] v@[k] == (
                        ((k / (self.1 as int)) as usize),
                        ((k % (self.1 as int)) as usize),
                    ),
            decreases self.0 - i,
        {
            let mut j: usize = 0;
            while j < self.1
                invariant
                    i < self.0,
                    j <= self.1,
                    v@.len() == i * self.1 + j,
                    forall|k: int|
                        0 <= k < v@.len() ==> #[trigger] v@[k] == (
                            ((k / (self.1 as int)) as usize),
                            ((k % (self.1 as int)) as usize),
                        ),
                decreases self.1 - j,
            {
                proof {
                    lemma_rowmajor_decompose(i as int, j as int, self.1 as int);
                }
                v.push((i, j));
                j = j + 1;
            }
            proof {
                assert((i + 1) * self.1 == i * self.1 + self.1) by (nonlinear_arith);
            }
            i = i + 1;
        }
        v
    }

    /// Apply `f` to every pair of the product, collecting the results in
    /// row-major order.
    pub fn consume<A>(&self, f: impl Fn(&usize, &usize) -> A) -> (out: Vec<A>)
        requires
            forall|i: usize, j: usize| i < self.0 && j < self.1 ==> f.requires((&i, &j)),
        ensures
            out@.len() == self.0 * self.1,
            forall|k: int|
                0 <= k < out@.len() ==> call_ensures(
                    f,
                    (&(((k / (self.1 as int)) as usize)), &(((k % (self.1 as int)) as usize))),
                    #[trigger] out@[k],
                ),
    {
        let pairs = self.combine();
        let mut out: Vec<A> = Vec::new();
        let mut k: usize = 0;
        while k < pairs.len()
            invariant
                forall|i: usize, j: usize| i < self.0 && j < self.1 ==> f.requires((&i, &j)),
                pairs@.len() == self.0 * self.1,
                forall|kk: int|
                    0 <= kk < pairs@.len() ==> #[trigger] pairs@[kk] == (
                        ((kk / (self.1 as int)) as usize),
                        ((kk % (self.1 as int)) as usize),
                    ),
                k <= pairs@.len(),
                out@.len() == k,
                forall|kk: int|
                    0 <= kk < out@.len() ==> call_ensures(
                        f,
                        (
                            &(((kk / (self.1 as int)) as usize)),
                            &(((kk % (self.1 as int)) as usize)),
                        ),
                        #[trigger] out@[kk],
                    ),
            decreases pairs@.len() - k,
        {
            let p = pairs[k];
            proof {
                assert(0 <= (k as int) / (self.1 as int) && (k as int) / (self.1 as int) < self.0
                    && 0 <= (k as int) % (self.1 as int) < self.1) by (nonlinear_arith)
                    requires
                        0 <= k < self.0 * self.1,
                ;
            }
            out.push(f(&p.0, &p.1));
            k = k + 1;
        }
        out
    }

    /// `Combination::map(u, f)` applies `f` over the square product of
    /// side `u`: the same as `Combination::new(u).consume(f)`.
    pub fn map<A>(u: usize, f: impl Fn(&usize, &usize) -> A) -> (out: Vec<A>)
        requires
            forall|i: usize, j: usize| i < u && j < u ==> f.requires((&i, &j)),
        ensures
            out@.len() == u * u,
            forall|k: int|
                0 <= k < out@.len() ==> call_ensures(
                    f,
                    (&(((k / (u as int)) as usize)), &(((k % (u as int)) as usize))),
                    #[trigger] out@[k],
                ),
    {
        Combination::new(u).consume(f)
    }

    /// Call `f` on every pair of the product, in row-major order.
    pub fn for_each(&self, f: impl Fn(&(usize, usize)))
        requires
            forall|p: (usize, usize)| p.0 < self.0 && p.1 < self.1 ==> f.requires((&p,)),
    {
        let pairs = self.combine();
        let mut k: usize = 0;
        while k < pairs.len()
            invariant
                forall|p: (usize, usize)| p.0 < self.0 && p.1 < self.1 ==> f.requires((&p,)),
                pairs@.len() == self.0 * self.1,
                forall|kk: int|
                    0 <= kk < pairs@.len() ==> #[trigger] pairs@[kk] == (
                        ((kk / (self.1 as int)) as usize),
                        ((kk % (self.1 as int)) as usize),
                    ),
                k <= pairs@.len(),
            decreases pairs@.len() - k,
        {
            let p = pairs[k];
            proof {
                assert(0 <= (k as int) / (self.1 as int) && (k as int) / (self.1 as int) < self.0
                    && 0 <= (k as int) % (self.1 as int) < self.1) by (nonlinear_arith)
                    requires
                        0 <= k < self.0 * self.1,
                ;
                assert(p.0 < self.0 && p.1 < self.1);
                assert(f.requires((&p,)));
            }
            f(&p);
            k = k + 1;
        }
    }
}

} // verus!
