//! The traits that generated code implements and calls: a transformer type
//! converts a data struct into each of its groups.

use vstd::prelude::*;

verus! {

/// Marks a transformer type, and gives the type of the options that its
/// conversions take.
pub trait Transform {
    type Options;
}

/// Converts a data struct (`Data`) into the group struct `N`; implemented
/// by the user on the transformer, once per group.
pub trait TransformToNest<N>: Transform {
    type Data;

    fn transform_to_nest(&self, data: &Self::Data, options: &Self::Options) -> N;
}

/// Converts a data struct into group `N` by reusing an existing
/// `From<&Self>` conversion.
pub trait ToNest<N> {
    fn to_nest(&self) -> N;
}

/// Converts a data struct into group `N` with a transformer; available
/// wherever the transformer converts this data struct into `N`.
pub trait ToNestWith<N, T: Transform>: Sized where T: TransformToNest<N, Data = Self> {
    fn to_nest_with(&self, transform: &T, options: &T::Options) -> N;
}

impl<D, N, T> ToNestWith<N, T> for D where T: TransformToNest<N, Data = D> {
    fn to_nest_with(&self, transform: &T, options: &T::Options) -> N {
        transform.transform_to_nest(self, options)
    }
}

/// Wraps a data struct with the extra struct that transformer `T` builds;
/// generated where every group of the data struct delegates to `T`.
pub trait ToWrappedWith<T>: core::fmt::Debug + Clone where T: Transform {
    type Wrapper;

    fn to_wrapped_with(self, transform: &T, options: &T::Options) -> Self::Wrapper;
}

/// Builds a wrapper from its data; available on every wrapper of a data
/// struct that `ToWrappedWith` wraps.
pub trait WrapDataWith<D, T>: Sized where T: Transform, D: ToWrappedWith<T> {
    fn wrap_data_with(data: D, transform: &T, options: &T::Options) -> Self;
}

impl<D, T> WrapDataWith<D, T> for <D as ToWrappedWith<T>>::Wrapper where
    T: Transform,
    D: ToWrappedWith<T>,
 {
    fn wrap_data_with(data: D, transform: &T, options: &T::Options) -> Self {
        data.to_wrapped_with(transform, options)
    }
}

} // verus!
