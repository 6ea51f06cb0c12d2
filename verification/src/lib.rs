//! Core logic of the Pact toolchain: project-name rules, manifest
//! validation, project discovery, the `pact new` templates and the
//! command-line model.

pub mod cli;
pub mod manifest;
pub mod name;
pub mod order;
pub mod project;
pub mod template;
pub mod text;

use vstd::prelude::*;

verus! {

/// The toolchain's version, as its package manifest states it.
pub const VERSION: &'static str = "0.1.0";

} // verus!
