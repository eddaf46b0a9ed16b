use vstd::arithmetic::power2::{lemma2_to64, lemma_pow2_unfold, pow2};
use vstd::prelude::*;

verus! {

/// Number of grid steps spanning the yield bracket `[0, 2]`: grid point `k`
/// stands for the annual rate `k / 2^31`.
pub const RATE_GRID_TOP: u64 = 4294967296;

/// The search stops once the bracket is this many grid steps wide, the first
/// width not above a tolerance of `1e-9` in rate.
pub const RATE_GRID_TOLERANCE: u64 = 2;

/// `lo` and `lo + 2` are the ends of the last bracket the search kept: at its
/// lower end the present value exceeded the price (or it is the bracket's
/// floor), at its upper end it did not (or it is the bracket's ceiling).
pub open spec fn final_bracket<F: Fn(u64) -> bool>(pv_above_price: F, lo: int) -> bool {
    &&& 0 <= lo
    &&& lo + RATE_GRID_TOLERANCE <= RATE_GRID_TOP
    &&& lo % 2 == 0
    &&& lo == 0 || pv_above_price.ensures((lo as u64,), true)
    &&& lo + RATE_GRID_TOLERANCE == RATE_GRID_TOP || pv_above_price.ensures(
        ((lo + RATE_GRID_TOLERANCE) as u64,),
        false,
    )
}

/// With a predicate that holds up to some grid point and fails beyond it, as
/// "present value above price" does when the present value falls as the rate
/// rises, the final bracket straddles the switch: the predicate holds at every
/// grid point from 1 up to `lo` and fails at every one from `lo + 2` below the
/// top of the grid.
pub proof fn lemma_bracket_straddles_switch<F: Fn(u64) -> bool>(
    pv_above_price: F,
    p: spec_fn(u64) -> bool,
    lo: int,
)
    requires
        forall|k: u64, b: bool| pv_above_price.ensures((k,), b) ==> b == p(k),
        forall|a: u64, b: u64| a <= b && #[trigger] p(b) ==> #[trigger] p(a),
        final_bracket(pv_above_price, lo),
    ensures
        forall|k: u64| 1 <= k <= lo ==> #[trigger] p(k),
        forall|k: u64| lo + RATE_GRID_TOLERANCE <= k < RATE_GRID_TOP ==> !#[trigger] p(k),
{
    if lo > 0 {
        assert(p(lo as u64));
    }
    if lo + RATE_GRID_TOLERANCE < RATE_GRID_TOP {
        assert(!p((lo + RATE_GRID_TOLERANCE) as u64));
    }
}

/// Bisection for the yield on the rate grid. `pv_above_price(k)` tells whether
/// the present value at grid rate `k` exceeds the target price; while it does
/// the yield lies higher. Returns the midpoint of the final bracket.
pub fn bisection_find<F: Fn(u64) -> bool>(pv_above_price: F) -> (r: u64)
    requires
        forall|k: u64| pv_above_price.requires((k,)),
    ensures
        r >= 1,
        final_bracket(pv_above_price, r - 1),
{
    let mut low: u64 = 0;
    let mut high: u64 = RATE_GRID_TOP;
    let ghost mut n: nat = 32;
    proof {
        lemma2_to64();
    }
    while high - low > RATE_GRID_TOLERANCE
        invariant
            low < high <= RATE_GRID_TOP,
            high - low == pow2(n),
            1 <= n <= 32,
            low % 2 == 0,
            low == 0 || pv_above_price.ensures((low,), true),
            high == RATE_GRID_TOP || pv_above_price.ensures((high,), false),
            forall|k: u64| pv_above_price.requires((k,)),
        decreases high - low,
    {
        proof {
            lemma_pow2_unfold(n);
            lemma2_to64();
            if n == 1 {
                assert(false);
            }
            lemma_pow2_unfold((n - 1) as nat);
        }
        let mid = low + (high - low) / 2;
        if pv_above_price(mid) {
            low = mid;
        } else {
            high = mid;
        }
        proof {
            n = (n - 1) as nat;
        }
    }
    proof {
        lemma2_to64();
        if n > 1 {
            lemma_pow2_unfold(n);
            lemma_pow2_unfold((n - 1) as nat);
            vstd::arithmetic::power2::lemma_pow2_pos((n - 2) as nat);
        }
        assert(n == 1);
    }
    low + (high - low) / 2
}

} // verus!
