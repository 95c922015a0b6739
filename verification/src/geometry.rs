//! Plain coordinate pairs, as they are stored and exchanged.

use vstd::prelude::*;

verus! {

/// A pair of coordinates with no arithmetic of its own.
#[derive(Debug)]
pub struct Vec2<T>(pub T, pub T);

} // verus!
