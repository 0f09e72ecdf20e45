//! The two sources of chance: random draws and fresh identifiers.

use vstd::prelude::*;
use rand::rngs::StdRng;
use rand::Rng;
use uuid::Uuid;

verus! {

/// The seedable generator of the `rand` crate, `rand::rngs::StdRng`. Its
/// state is opaque here.
#[verifier::external_type_specification]
#[verifier::external_body]
pub struct ExStdRng(StdRng);

/// Draws a number between zero and `max`, both included, with
/// `rand::Rng::random_range` on the range `0..=max`. The range is never
/// empty, so the call does not panic; all that is claimed of the draw is that
/// it lies in the range.
#[verifier::external_body]
pub(crate) fn draw_upto(rng: &mut StdRng, max: usize) -> (draw: usize)
    ensures
        draw <= max,
{
    rng.random_range(0..=max)
}

/// Whether `id` has the shape of a random identifier: version 4 in bits 76
/// to 79 and the variant bits 62 and 63 set to binary 10.
pub open spec fn is_fresh_uuid(id: u128) -> bool {
    (id >> 76) & 0xf == 4 && (id >> 62) & 0x3 == 2
}

/// Makes a random version-4 identifier with `uuid::Uuid::new_v4` and hands it
/// out as the 128-bit number that `Uuid::as_u128` gives. `new_v4` fixes the
/// version bits to 4 and the variant bits to binary 10; the other 122 bits
/// are random and nothing is claimed of them.
#[verifier::external_body]
pub(crate) fn fresh_uuid() -> (id: u128)
    ensures
        is_fresh_uuid(id),
{
    Uuid::new_v4().as_u128()
}

} // verus!
