//! Configuration overlay and weekly maintenance windows of an update agent.
//!
//! [`config`] merges an ordered list of configuration fragments into one
//! fully-populated configuration. [`weekly`] represents recurring windows in
//! a seven-day cycle and answers whether a point in the week lies in one.

pub mod config;
pub mod weekly;
