//! Object identifiers.

use vstd::prelude::*;

verus! {

/// The bits of an identifier that say how it was made.
pub const ID_KIND_MASK: u128 = 0xf000_c000_0000_0000_0000;

/// What those bits hold in an identifier that was drawn at random.
pub const ID_KIND_RANDOM: u128 = 0x4000_8000_0000_0000_0000;

/// Whether `id` has the form of an identifier that was drawn at random.
pub open spec fn is_random_id(id: u128) -> bool {
    id & ID_KIND_MASK == ID_KIND_RANDOM
}

/// Tests whether `id` has the form of an identifier that was drawn at
/// random.
pub fn has_random_form(id: u128) -> (r: bool)
    ensures
        r == is_random_id(id),
{
    id & ID_KIND_MASK == ID_KIND_RANDOM
}

/// Draws a new identifier at random.
///
/// Calls `uuid::Uuid::new_v4` and takes the result as a number with
/// `uuid::Uuid::as_u128`. This is not proved; it is taken from the source of
/// `uuid` that a version 4 identifier carries the version `4` and the
/// variant `10` in the bits of [`ID_KIND_MASK`]. Nothing is claimed of the
/// other bits, and two calls may return the same number. `new_v4` panics
/// where the operating system cannot supply random bytes.
#[verifier::external_body]
pub(crate) fn fresh_id() -> (id: u128)
    ensures
        is_random_id(id),
{
    uuid::Uuid::new_v4().as_u128()
}

} // verus!
