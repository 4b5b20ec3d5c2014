use vstd::prelude::*;

use bracket_lib::prelude::RandomNumberGenerator;

verus! {

/// The random number generator of bracket-lib, seeded by the caller.
#[verifier::external_type_specification]
#[verifier::external_body]
pub struct ExRandomNumberGenerator(RandomNumberGenerator);

/// `RandomNumberGenerator::range(min, max)`: a number drawn from `min` included to `max`
/// excluded. The source asserts that the range is not empty, hence the `requires`.
/// Which number comes out depends on the generator's state and is not stated.
#[verifier::external_body]
pub(crate) fn random_range(rng: &mut RandomNumberGenerator, min: i32, max: i32) -> (r: i32)
    requires
        min < max,
    ensures
        min <= r < max,
{
    rng.range(min, max)
}

/// `RandomNumberGenerator::roll_dice(n, die_type)`: the sum of `n` draws, each from 1 to
/// `die_type`, so between `n` and `n * die_type`. Each draw asks `range(1, die_type + 1)`,
/// which must not be empty and must not overflow, and the sum must fit in an `i32`.
/// Which sum comes out depends on the generator's state and is not stated.
#[verifier::external_body]
pub(crate) fn roll_dice(rng: &mut RandomNumberGenerator, n: i32, die_type: i32) -> (r: i32)
    requires
        1 <= n,
        1 <= die_type < i32::MAX,
        n * die_type <= i32::MAX,
    ensures
        n <= r <= n * die_type,
{
    rng.roll_dice(n, die_type)
}

/// `RandomNumberGenerator::random_slice_index(slice)`: `None` for an empty slice, otherwise
/// an index into the slice. The source converts the length to an `i32` and rolls a die
/// with that many faces, which needs a length below `i32::MAX`. Which index comes out
/// depends on the generator's state and is not stated.
#[verifier::external_body]
pub(crate) fn random_slice_index<T>(rng: &mut RandomNumberGenerator, slice: &[T]) -> (r: Option<usize>)
    requires
        slice@.len() < i32::MAX,
    ensures
        r.is_none() <==> slice@.len() == 0,
        r matches Some(i) ==> i < slice@.len(),
{
    rng.random_slice_index(slice)
}

} // verus!
