//! Building blocks for models that are trained.

pub mod nn;
