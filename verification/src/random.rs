use vstd::prelude::*;

use rand::rngs::StdRng;
use rand::seq::IteratorRandom;
use rand::seq::SliceRandom;
use rand::Rng;

verus! {

/// The seedable random number generator of `rand`, carried through opaquely.
#[verifier::external_type_specification]
#[verifier::external_body]
pub struct ExStdRng(StdRng);

/// A uniformly chosen index below `len`, or `None` when `len` is zero.
///
/// Trusted: calls `rand`'s `IteratorRandom::choose` on the range `0..len`. Its
/// source returns `None` for an empty iterator and otherwise an element of it;
/// which element depends on the generator's state, so nothing more is stated.
#[verifier::external_body]
pub(crate) fn choose_index(rng: &mut StdRng, len: usize) -> (r: Option<usize>)
    ensures
        r is None <==> len == 0,
        r matches Some(i) ==> i < len,
{
    (0..len).choose(rng)
}

/// A uniformly chosen number below `len`.
///
/// Trusted: calls `rand`'s `Rng::random_range` on `0..len`, whose source
/// asserts that the range is not empty (hence `len > 0` is required) and
/// returns a value inside it; which one depends on the generator's state.
#[verifier::external_body]
pub(crate) fn random_below(rng: &mut StdRng, len: usize) -> (r: usize)
    requires
        len > 0,
    ensures
        r < len,
{
    rng.random_range(0..len)
}

/// Puts `indices` in a random order.
///
/// Trusted: calls `rand`'s `SliceRandom::shuffle`. Its source only swaps
/// elements of the slice in place, so the same indices come out, each as
/// often as it went in; their order depends on the generator's state and is
/// not stated.
#[verifier::external_body]
pub(crate) fn shuffle_indices(indices: &mut Vec<usize>, rng: &mut StdRng)
    ensures
        final(indices)@.to_multiset() == old(indices)@.to_multiset(),
{
    indices.shuffle(rng);
}

} // verus!
