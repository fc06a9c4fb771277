//! Derives presentation-oriented companion structs ("wrapper", "extra" and
//! "nest" structs) from a declarative configuration of a data struct, and the
//! conversion impls that link them.
//!
//! The engine is a pure function from a [`config::DeriveItemOpts`] value to the
//! text of the generated definitions, or to a configuration error.

pub mod config;
pub mod naming;
pub mod error;
pub mod mapping;
pub mod model;
pub mod parse;
pub mod render;
pub mod generate;
pub mod transform;
pub mod wrap;

pub use transform::{ToNest, ToNestWith, ToWrappedWith, Transform, TransformToNest, WrapDataWith};
pub use wrap::{Wrap, WrapWith};
