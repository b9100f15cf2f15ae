//! Random draws that the order and news generators make: an index into a
//! list and an integer within bounds, from a seeded `StdRng`.
use vstd::prelude::*;

use rand::rngs::StdRng;
use rand::Rng;

use crate::market::Symbol;

verus! {

/// The random number source of the generators.
#[verifier::external_type_specification]
#[verifier::external_body]
pub struct ExStdRng(StdRng);

/// `Rng::gen_range(0..len)` on a `StdRng`: a uniformly drawn index below
/// `len`. Which index comes out depends on the generator's state, so
/// nothing is said of it beyond the bound.
#[verifier::external_body]
pub(crate) fn random_index(rng: &mut StdRng, len: usize) -> (i: usize)
    requires
        len > 0,
    ensures
        i < len,
{
    rng.gen_range(0..len)
}

/// A symbol drawn from a non-empty list.
pub fn pick_symbol(rng: &mut StdRng, symbols: &Vec<Symbol>) -> (s: Symbol)
    requires
        symbols@.len() > 0,
    ensures
        exists|i: int| 0 <= i < symbols@.len() && symbols@[i]@ == s@,
{
    let i = random_index(rng, symbols.len());
    let s = symbols[i].clone();
    assert(symbols@[i as int]@ == s@);
    s
}

/// `Rng::gen_range(low..=high)` on a `StdRng`: a uniformly drawn integer
/// from `low` to `high` inclusive; which one depends on the generator's state.
#[verifier::external_body]
pub(crate) fn random_between(rng: &mut StdRng, low: i64, high: i64) -> (x: i64)
    requires
        low <= high,
    ensures
        low <= x <= high,
{
    rng.gen_range(low..=high)
}

} // verus!
