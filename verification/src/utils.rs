//! Integral square root test, used by the square-matrix convenience
//! constructor to infer the side length of a square matrix from the length
//! of a flat element sequence.

use vstd::prelude::*;

verus! {

/// Returns the integral square root of `val` if `val` is a perfect square,
/// and `None` otherwise. The root is found by binary search over the
/// candidates, whose squares are computed in 128-bit arithmetic so that no
/// candidate square overflows.
#[verifier::loop_isolation(false)]
pub fn get_integral_square_root(val: usize) -> (r: Option<usize>)
    ensures
        match r {
            Some(root) => root * root == val,
            None => forall|k: int| 0 <= k ==> #[trigger] (k * k) != val,
        },
{
    let target: u128 = val as u128;
    let mut lo: u128 = 0;
    let mut hi: u128 = 0x1_0000_0000;
    proof {
        assert(hi * hi > target) by (nonlinear_arith)
            requires
                hi == 0x1_0000_0000,
                target <= 0xFFFF_FFFF_FFFF_FFFFu128,
        {
        }
    }
    while lo + 1 < hi
        invariant
            0 <= lo < hi <= 0x1_0000_0000,
            lo * lo <= target,
            hi * hi > target,
        decreases hi - lo,
    {
        let mid: u128 = lo + (hi - lo) / 2;
        proof {
            assert(mid * mid <= u128::MAX) by (nonlinear_arith)
                requires
                    0 <= mid <= 0x1_0000_0000,
            {
            }
        }
        if mid * mid <= target {
            lo = mid;
        } else {
            hi = mid;
        }
    }
    if lo * lo == target {
        proof {
            assert(lo * lo >= lo) by (nonlinear_arith)
                requires
                    lo >= 0,
            {
            }
            assert(lo <= usize::MAX);
            assert((lo as usize) * (lo as usize) == val);
        }
        Some(lo as usize)
    } else {
        proof {
            assert forall|k: int| 0 <= k implies #[trigger] (k * k) != val by {
                if k <= lo {
                    assert(k * k <= lo * lo) by (nonlinear_arith)
                        requires
                            0 <= k <= lo,
                    {
                    }
                } else {
                    assert(k * k >= hi * hi) by (nonlinear_arith)
                        requires
                            k >= hi >= 0,
                    {
                    }
                }
            }
        }
        None
    }
}

} // verus!
