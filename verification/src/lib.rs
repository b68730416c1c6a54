//! A declarative, inheritable description of a multi-repository workspace:
//! named repositories ("trees"), named collections of trees ("groups"),
//! higher-order collections binding groups and trees to variables and
//! commands ("gardens"), and reusable configuration fragments ("templates").
//!
//! The crate covers the configuration-resolution engine: lazy, memoized,
//! cycle-safe string interpolation; template composition with multiple
//! inheritance; the precedence-ordered query resolver; and the git
//! working-tree topology classifier.

pub mod compose;
pub mod git;
pub mod interp;
pub mod model;
pub mod query;
