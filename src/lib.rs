//! A local registry of capability packages ("talons"): the manifest model,
//! the persisted index of installed packages, search and lookup over it, and
//! the capability view that a host application builds from a manifest.
pub mod error;
pub mod loader;
pub mod manifest;
pub mod registry;
pub mod text;

pub use error::TalonError;
pub use loader::{CapabilityArg, TalonCapability, TalonLoader};
pub use registry::{TalonEntry, TalonIndex, TalonRegistry};
pub use manifest::{CommandArg, EnvVar, TalonCommand, TalonInfo, TalonManifest, TalonRuntime};
