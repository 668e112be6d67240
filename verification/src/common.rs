//! Small helpers shared by every subsystem.

use vstd::prelude::*;

verus! {

/// Bit `i` of `x`, as 0 or 1.
pub open spec fn bit_of(x: u8, i: u8) -> u8 {
    (x >> i) & 1
}

/// Returns bit `i` of `x` (0 or 1).
pub fn get_bit(x: u8, i: u8) -> (r: u8)
    requires
        i < 8,
    ensures
        r == bit_of(x, i),
        r == 0 || r == 1,
{
    assert(((x >> i) & 1) == 0 || ((x >> i) & 1) == 1) by (bit_vector);
    (x >> i) & 1
}

/// Chooses between two values.
pub fn ternary<T>(cond: bool, on_true: T, on_false: T) -> (r: T)
    ensures
        r == if cond { on_true } else { on_false },
{
    if cond {
        on_true
    } else {
        on_false
    }
}

/// Something that advances in steps of one clock. Its view is its
/// mathematical state and `clocked` the state after one step.
pub trait Clocked: View + Sized {
    /// The state after one step.
    spec fn clocked(v: Self::V) -> Self::V;

    /// Advances by one step.
    fn clock(&mut self)
        ensures
            final(self)@ == Self::clocked(old(self)@),
    ;
}

/// The state after `n` steps.
pub open spec fn clocked_times<T: Clocked>(v: T::V, n: nat) -> T::V
    decreases n,
{
    if n == 0 {
        v
    } else {
        clocked_times::<T>(T::clocked(v), (n - 1) as nat)
    }
}

/// Advances `x` by `num_clocks` steps.
pub fn run_clocks<T: Clocked>(x: &mut T, num_clocks: u32)
    ensures
        final(x)@ == clocked_times::<T>(old(x)@, num_clocks as nat),
{
    let mut i: u32 = 0;
    while i < num_clocks
        invariant
            i <= num_clocks,
            clocked_times::<T>(x@, (num_clocks - i) as nat) == clocked_times::<T>(
                old(x)@,
                num_clocks as nat,
            ),
        decreases num_clocks - i,
    {
        x.clock();
        i = i + 1;
    }
}

} // verus!
