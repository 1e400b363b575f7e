//! A build orchestrator that drives Cargo across the crates of a workspace.
//!
//! The library holds the logic: argument parsing, settings lookup with
//! workspace fallback, assembly of Cargo invocations and the build traversal,
//! written as a state machine whose actions an outer driver performs.

pub mod args;
pub mod cargo;
pub mod orchestrate;
pub mod output;
pub mod plan;
pub mod text;
pub mod value;

pub use args::{ArgType, Args, Subcommand};
pub use cargo::{CargoCommand, Crate, Manifest};
pub use orchestrate::{Action, Build, Ctx, Event, HookPath};
pub use output::{help, BuildError, Error, SyntaxError, TomlError, UnknownCrateSource};
pub use plan::{Invocation, PrebuildMetadata, TargetArg};
pub use value::{TomlTable, TomlValue, TomlValueType};
