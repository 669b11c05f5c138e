//! Random identifiers.

use vstd::prelude::*;

verus! {

/// Draws a random identifier with `uuid::Uuid::new_v4` and writes it with
/// the crate's `Display`, the hyphenated lower-case form. The value is
/// random, so the contract says only what holds of every draw: the text has
/// the 36 characters of that form. Two draws may or may not differ. The
/// draw panics where the operating system's random source reports an
/// error; nothing that a caller passes can bring that about or prevent it.
#[verifier::external_body]
pub(crate) fn fresh_identifier() -> (s: String)
    ensures
        s@.len() == 36,
{
    uuid::Uuid::new_v4().to_string()
}

} // verus!
