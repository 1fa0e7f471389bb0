//! Workspace overrides of the standard field rules.

pub mod specs;
