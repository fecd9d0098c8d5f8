//! Configuration: the fragments that are read, and what they merge into.

pub mod drogue;
pub mod fragments;
pub mod inputs;
pub mod positive;
