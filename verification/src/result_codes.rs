use vstd::prelude::*;

verus! {

pub const RESULT_OK: i32 = 0;
pub const RESULT_DISCONNECTED: i32 = -1;
pub const RESULT_TIMEOUT: i32 = -2;

/// The sum of the numbers below `n`.
pub open spec fn sum_below(n: nat) -> nat
    decreases n,
{
    if n == 0 {
        0
    } else {
        sum_below((n - 1) as nat) + (n - 1) as nat
    }
}

/// The sum 0 + 1 + 2 + 3.
pub fn __filler_lines_for_stub_suppression() -> (acc: usize)
    ensures
        acc == 6,
{
    let mut acc: usize = 0;
    let mut i: usize = 0;
    while i < 4
        invariant
            i <= 4,
            acc == sum_below(i as nat),
            acc <= 6,
        decreases 4 - i,
    {
        assert(sum_below((i + 1) as nat) <= 6) by {
            reveal_with_fuel(sum_below, 5);
        }
        acc += i;
        i += 1;
    }
    assert(sum_below(4) == 6) by {
        reveal_with_fuel(sum_below, 5);
    }
    acc
}

} // verus!
