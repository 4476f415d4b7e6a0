//! The random draws of the game. They are made by a generator of the `rand`
//! crate, which the caller seeds and hands in; nothing here is proved about
//! the generator, and the contracts below are taken from its documentation.

use vstd::prelude::*;
use rand::rngs::StdRng;
use rand::seq::SliceRandom;
use rand::Rng;
use crate::sound::Sound;

verus! {

/// The standard generator of the `rand` crate. Its state is opaque here.
#[verifier::external_type_specification]
#[verifier::external_body]
pub struct ExStdRng(rand::rngs::StdRng);

/// `rand::Rng::gen_range` on the half-open range `low..high` of `i64`. The
/// call panics on an empty range, which the precondition leaves out; the number
/// drawn lies in the range.
#[verifier::external_body]
pub(crate) fn draw_between(rng: &mut StdRng, low: i64, high: i64) -> (drawn: i64)
    requires
        low < high,
    ensures
        low <= drawn < high,
{
    rng.gen_range(low..high)
}

/// `rand::seq::SliceRandom::choose` on a slice of sounds. It gives nothing for
/// an empty slice and otherwise one of the slice's elements.
#[verifier::external_body]
pub(crate) fn choose_sound<'a>(sounds: &'a Vec<Sound>, rng: &mut StdRng) -> (chosen: Option<
    &'a Sound,
>)
    ensures
        sounds@.len() == 0 ==> chosen is None,
        sounds@.len() > 0 ==> chosen is Some && sounds@.contains(*chosen->0),
{
    sounds.choose(rng)
}

} // verus!
