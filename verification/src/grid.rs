//! Startup layout: particle positions in a fixed square grid, uniformly
//! spaced and centered on the origin. Spacing is given in half-units so the
//! centering is exact in integers.

use crate::kernel::COORD_LIMIT;
use crate::vec2::{bounded, GVec2, Vec2i};
use vstd::arithmetic::div_mod::lemma_fundamental_div_mod_converse;
use vstd::prelude::*;

verus! {

/// The world position of grid slot `k` in an `n` by `n` grid whose columns
/// and rows are `2 * h` apart: column `k / n`, row `k % n`.
pub open spec fn grid_point(n: int, h: int, k: int) -> GVec2 {
    GVec2 { x: h * (2 * (k / n) - n + 1), y: h * (2 * (k % n) - n + 1) }
}

/// Positions for an `n` by `n` spawn grid with spacing `2 * half_spacing`,
/// centered on the origin, column-major as spawned.
#[verifier::loop_isolation(false)]
pub fn grid_positions(n: usize, half_spacing: i64) -> (r: Vec<Vec2i>)
    requires
        1 <= n <= 4096,
        0 <= half_spacing <= 65536,
    ensures
        r@.len() == n * n,
        forall|k: int|
            0 <= k < r@.len() ==> #[trigger] r@[k]@ == grid_point(
                n as int,
                half_spacing as int,
                k,
            ),
        forall|k: int| 0 <= k < r@.len() ==> bounded(#[trigger] r@[k]@, COORD_LIMIT as int),
{
    let mut out: Vec<Vec2i> = Vec::new();
    let mut i: usize = 0;
    while i < n
        invariant
            i <= n,
            out@.len() == i * n,
            forall|k: int|
                0 <= k < out@.len() ==> #[trigger] out@[k]@ == grid_point(
                    n as int,
                    half_spacing as int,
                    k,
                ),
            forall|k: int| 0 <= k < out@.len() ==> bounded(#[trigger] out@[k]@, COORD_LIMIT as int),
        decreases n - i,
    {
        let mut j: usize = 0;
        while j < n
            invariant
                j <= n,
                out@.len() == i * n + j,
                forall|k: int|
                    0 <= k < out@.len() ==> #[trigger] out@[k]@ == grid_point(
                        n as int,
                        half_spacing as int,
                        k,
                    ),
                forall|k: int|
                    0 <= k < out@.len() ==> bounded(#[trigger] out@[k]@, COORD_LIMIT as int),
            decreases n - j,
        {
            proof {
                assert(-8192 <= 2 * (i as int) - (n as int) + 1 <= 8192);
                assert(-8192 <= 2 * (j as int) - (n as int) + 1 <= 8192);
                assert((half_spacing as int) * (2 * (i as int) - (n as int) + 1) <= 0x40000000
                    && (half_spacing as int) * (2 * (i as int) - (n as int) + 1) >= -0x40000000)
                    by (nonlinear_arith)
                    requires
                        0 <= half_spacing <= 65536,
                        -8192 <= 2 * (i as int) - (n as int) + 1 <= 8192,
                ;
                assert((half_spacing as int) * (2 * (j as int) - (n as int) + 1) <= 0x40000000
                    && (half_spacing as int) * (2 * (j as int) - (n as int) + 1) >= -0x40000000)
                    by (nonlinear_arith)
                    requires
                        0 <= half_spacing <= 65536,
                        -8192 <= 2 * (j as int) - (n as int) + 1 <= 8192,
                ;
            }
            let xi: i64 = half_spacing * (2 * (i as i64) - (n as i64) + 1);
            let yi: i64 = half_spacing * (2 * (j as i64) - (n as i64) + 1);
            proof {
                lemma_fundamental_div_mod_converse(
                    (i * n + j) as int,
                    n as int,
                    i as int,
                    j as int,
                );
            }
            out.push(Vec2i { x: xi, y: yi });
            j = j + 1;
        }
        proof {
            assert((i as int + 1) * (n as int) == (i as int) * (n as int) + (n as int))
                by (nonlinear_arith);
        }
        i = i + 1;
    }
    out
}

} // verus!
