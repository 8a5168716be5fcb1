use vstd::prelude::*;

verus! {

/// Types that only this library can make into bit storage.
pub trait Sealed {}

} // verus!
