//! The sub-pixel pattern of anti-aliasing.
//!
//! Every pixel is sampled on a regular grid of `n` by `n` points, centred on
//! the pixel and `1/n` apart. The offsets are exact fractions: each is a whole
//! numerator over the common denominator `2n`, so that the point in the middle
//! of an odd grid is exactly zero and the offsets of a grid add up to exactly
//! zero.

use vstd::arithmetic::div_mod::{
    lemma_fundamental_div_mod, lemma_fundamental_div_mod_converse, lemma_mod_pos_bound,
};
use vstd::prelude::*;

verus! {

/// The numerators of the grid of size `n`, column by column: the offset at
/// place `x * n + y` is `((2x - (n - 1)) / 2n, (2y - (n - 1)) / 2n)`.
pub open spec fn grid(n: nat) -> Seq<(int, int)> {
    Seq::new(n * n, |k: int| (2 * (k / n as int) - (n - 1), 2 * (k % n as int) - (n - 1)))
}

/// The sum of the first numerators of a series of offsets.
pub open spec fn sum_x(s: Seq<(int, int)>) -> int
    decreases s.len(),
{
    if s.len() == 0 {
        0
    } else {
        sum_x(s.drop_last()) + s.last().0
    }
}

/// The sum of the second numerators of a series of offsets.
pub open spec fn sum_y(s: Seq<(int, int)>) -> int
    decreases s.len(),
{
    if s.len() == 0 {
        0
    } else {
        sum_y(s.drop_last()) + s.last().1
    }
}

/// The sample offsets within one pixel.
#[derive(Debug)]
pub struct AntiAliasing {
    size: u8,
    cells: Vec<(i16, i16)>,
}

impl View for AntiAliasing {
    type V = Seq<(int, int)>;

    /// The numerators of the offsets, in their order.
    closed spec fn view(&self) -> Seq<(int, int)> {
        Seq::new(self.cells@.len(), |k: int| (self.cells@[k].0 as int, self.cells@[k].1 as int))
    }
}

impl AntiAliasing {
    /// The size `n` of the grid.
    pub closed spec fn size(&self) -> nat {
        self.size as nat
    }

    #[verifier::type_invariant]
    spec fn inv(&self) -> bool {
        self.size >= 1 && self@ == grid(self.size as nat)
    }

    /// The grid of `n` by `n` offsets.
    pub fn create(n: u8) -> (aa: AntiAliasing)
        requires
            n >= 1,
        ensures
            aa.size() == n,
            aa@ == grid(n as nat),
            aa@.len() == n * n,
    {
        let mut cells: Vec<(i16, i16)> = Vec::new();
        let last: i16 = n as i16 - 1;
        let mut x: u8 = 0;
        while x < n
            invariant
                1 <= n,
                x <= n,
                last == n - 1,
                cells@.len() == x * n,
                forall|k: int|
                    0 <= k < cells@.len() ==> (#[trigger] cells@[k]).0 == 2 * (k / n as int) - (n
                        - 1) && cells@[k].1 == 2 * (k % n as int) - (n - 1),
            decreases n - x,
        {
            let mut y: u8 = 0;
            while y < n
                invariant
                    1 <= n,
                    x < n,
                    y <= n,
                    last == n - 1,
                    cells@.len() == x * n + y,
                    forall|k: int|
                        0 <= k < cells@.len() ==> (#[trigger] cells@[k]).0 == 2 * (k / n as int)
                            - (n - 1) && cells@[k].1 == 2 * (k % n as int) - (n - 1),
                decreases n - y,
            {
                proof {
                    lemma_fundamental_div_mod_converse(x * n + y, n as int, x as int, y as int);
                }
                cells.push((2 * (x as i16) - last, 2 * (y as i16) - last));
                y = y + 1;
            }
            assert(x * n + n == (x + 1) * n) by (nonlinear_arith);
            x = x + 1;
        }
        let ghost numerators = Seq::new(
            cells@.len(),
            |k: int| (cells@[k].0 as int, cells@[k].1 as int),
        );
        assert(numerators =~= grid(n as nat));
        AntiAliasing { size: n, cells }
    }

    /// The grid of `n` by `n` offsets, or nothing where `n` is zero: there is
    /// no grid without a sample.
    pub fn try_create(n: u8) -> (r: Option<AntiAliasing>)
        ensures
            r is None <==> n == 0,
            r matches Some(aa) ==> aa.size() == n && aa@ == grid(n as nat),
    {
        if n == 0 {
            None
        } else {
            Some(AntiAliasing::create(n))
        }
    }

    /// The numerators of the offsets, in their order: first across, then down.
    /// Each is over the common `denominator`.
    pub fn offsets(&self) -> (s: &[(i16, i16)])
        ensures
            self@ == grid(self.size()),
            s@.len() == self@.len(),
            forall|k: int| 0 <= k < s@.len() ==> (s@[k].0 as int, s@[k].1 as int) == self@[k],
    {
        proof {
            use_type_invariant(self);
        }
        self.cells.as_slice()
    }

    /// The common denominator of the offsets: twice the size of the grid.
    pub fn denominator(&self) -> (d: u16)
        ensures
            d == 2 * self.size(),
            d >= 2,
    {
        proof {
            use_type_invariant(self);
        }
        2 * (self.size as u16)
    }

    /// The number of offsets: the square of the size of the grid.
    pub fn len(&self) -> (n: usize)
        ensures
            n == self@.len(),
            n == self.size() * self.size(),
            n >= 1,
    {
        proof {
            use_type_invariant(self);
            assert(self@.len() == grid(self.size()).len());
            assert(self.size() * self.size() >= 1) by (nonlinear_arith)
                requires
                    self.size() >= 1,
            ;
        }
        self.cells.len()
    }
}

/// The sums of the numerators of the first `m` offsets of a grid.
proof fn lemma_partial_sums(n: nat, m: nat)
    requires
        n >= 1,
        m <= n * n,
    ensures
        sum_x(grid(n).take(m as int)) == n * (m / n) * (m / n - n) + (m % n) * (2 * (m / n) - n
            + 1),
        sum_y(grid(n).take(m as int)) == (m % n) * (m % n - n),
    decreases m,
{
    let d = n as int;
    if m == 0 {
        assert(grid(n).take(0).len() == 0);
        lemma_fundamental_div_mod_converse(0, d, 0, 0);
        assert(d * 0 * (0 - d) + 0 * (2 * 0 - d + 1) == 0) by (nonlinear_arith);
        assert(0 * (0 - d) == 0) by (nonlinear_arith);
    } else {
        let p = (m - 1) as nat;
        lemma_partial_sums(n, p);
        let q = p as int / d;
        let r = p as int % d;
        lemma_fundamental_div_mod(p as int, d);
        lemma_mod_pos_bound(p as int, d);
        assert(p == q * d + r) by (nonlinear_arith)
            requires
                p == d * q + r,
        ;
        let now = grid(n).take(m as int);
        assert(now.drop_last() =~= grid(n).take(p as int));
        assert(now.last() == (2 * q - (n - 1), 2 * r - (n - 1)));
        if r + 1 < d {
            lemma_fundamental_div_mod_converse(m as int, d, q, r + 1);
            assert(d * q * (q - d) + r * (2 * q - d + 1) + (2 * q - (d - 1)) == d * q * (q - d) + (r
                + 1) * (2 * q - d + 1)) by (nonlinear_arith);
            assert(r * (r - d) + (2 * r - (d - 1)) == (r + 1) * (r + 1 - d)) by (nonlinear_arith);
        } else {
            assert(m == (q + 1) * d + 0) by (nonlinear_arith)
                requires
                    m == q * d + r + 1,
                    r + 1 == d,
            ;
            lemma_fundamental_div_mod_converse(m as int, d, q + 1, 0);
            assert(d * q * (q - d) + r * (2 * q - d + 1) + (2 * q - (d - 1)) == d * (q + 1) * (q + 1
                - d) + 0 * (2 * (q + 1) - d + 1)) by (nonlinear_arith)
                requires
                    r + 1 == d,
            ;
            assert(r * (r - d) + (2 * r - (d - 1)) == 0 * (0 - d)) by (nonlinear_arith)
                requires
                    r + 1 == d,
            ;
        }
    }
}

/// A grid of size `n` has `n * n` offsets; their numerators add up to zero
/// across and down, so the offsets are centred on the pixel; and every
/// offset lies within half a pixel of the centre.
pub proof fn lemma_grid_is_centered(n: nat)
    requires
        n >= 1,
    ensures
        grid(n).len() == n * n,
        sum_x(grid(n)) == 0,
        sum_y(grid(n)) == 0,
        forall|k: int|
            0 <= k < grid(n).len() ==> -(n as int) < (#[trigger] grid(n)[k]).0 < n && -(n as int)
                < grid(n)[k].1 < n,
{
    let d = n as int;
    lemma_partial_sums(n, n * n);
    assert(grid(n).take((n * n) as int) =~= grid(n));
    assert(d * d == d * d + 0) by (nonlinear_arith);
    lemma_fundamental_div_mod_converse(d * d, d, d, 0);
    assert(d * d * (d - d) + 0 * (2 * d - d + 1) == 0) by (nonlinear_arith);
    assert(0 * (0 - d) == 0) by (nonlinear_arith);
    assert forall|k: int| 0 <= k < grid(n).len() implies -(n as int) < (#[trigger] grid(n)[k]).0
        < n && -(n as int) < grid(n)[k].1 < n by {
        lemma_fundamental_div_mod(k, d);
        lemma_mod_pos_bound(k, d);
        let q = k / d;
        assert(0 <= q < d) by (nonlinear_arith)
            requires
                0 <= k < d * d,
                k == d * q + k % d,
                0 <= k % d < d,
                d >= 1,
        ;
    }
}

/// The grid of size one is the single offset zero.
pub proof fn lemma_single_sample_is_centre()
    ensures
        grid(1) =~= seq![(0int, 0int)],
{
    assert(grid(1).len() == 1);
    assert(grid(1)[0] == (0int, 0int));
}

/// Along a column of the grid the offsets are `1/n` apart, and from one
/// column to the next as well: neighbouring numerators differ by two, over
/// the denominator `2n`.
pub proof fn lemma_grid_spacing(n: nat, x: int, y: int)
    requires
        0 <= x < n,
        0 <= y < n,
    ensures
        0 <= x * n + y < grid(n).len(),
        grid(n)[x * n + y] == (2 * x - (n - 1), 2 * y - (n - 1)),
        y + 1 < n ==> grid(n)[x * n + y + 1].1 - grid(n)[x * n + y].1 == 2,
        x + 1 < n ==> grid(n)[(x + 1) * n + y].0 - grid(n)[x * n + y].0 == 2,
{
    let d = n as int;
    assert(0 <= x * d + y < d * d) by (nonlinear_arith)
        requires
            0 <= x < d,
            0 <= y < d,
    ;
    lemma_fundamental_div_mod_converse(x * d + y, d, x, y);
    if y + 1 < n {
        assert(0 <= x * d + y + 1 < d * d) by (nonlinear_arith)
            requires
                0 <= x < d,
                0 <= y + 1 < d,
        ;
        lemma_fundamental_div_mod_converse(x * d + y + 1, d, x, y + 1);
    }
    if x + 1 < n {
        assert(0 <= (x + 1) * d + y < d * d) by (nonlinear_arith)
            requires
                0 <= x + 1 < d,
                0 <= y < d,
        ;
        lemma_fundamental_div_mod_converse((x + 1) * d + y, d, x + 1, y);
    }
}

} // verus!
