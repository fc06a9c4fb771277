//! Wrapping a data struct with its extra struct.

use vstd::prelude::*;

use crate::transform::Transform;

verus! {

/// Wraps a data struct with the extra struct that its existing
/// conversions build.
pub trait Wrap: core::fmt::Debug + Clone {
    type Wrapper;

    fn to_wrapped(self) -> Self::Wrapper;
}

/// Wraps a data struct with the extra struct that transformer `T` builds.
pub trait WrapWith<T>: core::fmt::Debug + Clone where T: Transform {
    type Wrapper;

    fn to_wrapped_with(self, transform: &T, options: &T::Options) -> Self::Wrapper;
}

} // verus!
