//! The source of random cell values: the thread-local generator of `rand`.

use rand::rngs::ThreadRng;
use rand::Rng;
use vstd::prelude::*;

verus! {

/// `rand::rngs::ThreadRng`, a handle to the thread-local generator.  Nothing
/// is known of its contents.
#[verifier::external_type_specification]
#[verifier::external_body]
pub struct ExThreadRng(ThreadRng);

/// `rand::thread_rng` hands out the handle to the thread-local generator,
/// seeded by the operating system.  Nothing is claimed of the handle.  Where
/// the operating system gives no seed the call stops the program; no
/// argument decides that, so no precondition can rule it out.
pub assume_specification[ rand::thread_rng ]() -> (rng: ThreadRng)
;

/// `Rng::gen_range` on `u8`: a value drawn from the half-open range from `low`
/// to `high`.  The call panics unless `low < high`, hence the precondition.
/// Which value of the range comes back is left open.
#[verifier::external_body]
pub(crate) fn gen_range_u8(rng: &mut ThreadRng, low: u8, high: u8) -> (value: u8)
    requires
        low < high,
    ensures
        low <= value < high,
{
    rng.gen_range(low, high)
}

/// Draws `count` cell values, each dead (0) or alive (1).
pub(crate) fn random_cells(rng: &mut ThreadRng, count: usize) -> (cells: Vec<u8>)
    ensures
        cells@.len() == count,
        forall|i: int| 0 <= i < cells@.len() ==> cells@[i] <= 1,
{
    let mut cells: Vec<u8> = Vec::new();
    let mut drawn: usize = 0;
    while drawn < count
        invariant
            drawn <= count,
            cells@.len() == drawn,
            forall|i: int| 0 <= i < cells@.len() ==> cells@[i] <= 1,
        decreases count - drawn,
    {
        let bit: u8 = gen_range_u8(rng, 0, 2);
        cells.push(bit);
        drawn += 1;
    }
    cells
}

} // verus!
