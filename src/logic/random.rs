use vstd::prelude::*;

verus! {

/// Relies on macroquad::rand::rand (quad-rand's global generator): it returns
/// any `u32` and does not panic; nothing more can be said of its value.
#[verifier::external_body]
pub(crate) fn random_u32() -> (r: u32) {
    macroquad::rand::rand()
}

} // verus!
