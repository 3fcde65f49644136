//! Opaque unique identifiers of accounts and tasks.

use vstd::prelude::*;

verus! {

/// A 128-bit identifier. Nothing is read from one but whether two are equal.
#[derive(Copy, Clone, Debug, PartialEq, Eq, Structural, Hash)]
pub struct Uid(pub u128);

/// Draws a fresh random identifier with `uuid::Uuid::new_v4` and hands over
/// its 128 bits. Nothing is claimed of the value: it is random.
#[verifier::external_body]
pub(crate) fn random_uid() -> Uid {
    Uid(uuid::Uuid::new_v4().as_u128())
}

} // verus!
