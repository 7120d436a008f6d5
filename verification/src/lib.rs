//! Launch planning, manifest resolution and install bookkeeping for a
//! Minecraft launcher, with the decisions verified by Verus.
use vstd::prelude::*;

pub mod classpath;
pub mod dependencies;
pub mod discovery;
pub mod error;
pub mod hash;
pub mod install;
pub mod java;
pub mod launch;
pub mod manifest;
pub mod optifine;
pub mod order;
pub mod memory;
pub mod paths;
pub mod patterns;
pub mod rules;
pub mod runtime;
pub mod state;
pub mod text;

verus! {
} // verus!
