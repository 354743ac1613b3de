//! Wrappers that keep values of different domains apart.

pub mod index;
