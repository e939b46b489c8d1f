//! A version-manager core: toolset resolution, shim dispatch decisions and
//! shim-directory regeneration plans, all over plain in-memory values.
//!
//! The crate decides; a thin host around it performs the filesystem work.

pub mod strutil;
pub mod toolset;
pub mod legacy_version;
pub mod runtimes;
pub mod plugins_link;
pub mod shims;
