//! The API version that this SDK supports and the size limits of module packages.

use vstd::prelude::*;

verus! {

/// The module API version that this SDK implements.
pub const SUPPORTED_API: &'static str = "1.0.0";

/// The largest `module.toml` accepted, in bytes.
pub const MAX_MANIFEST_BYTES: u64 = 64 * 1024;

/// The largest package file, and the largest compressed package, in bytes.
pub const MAX_PACKAGE_BYTES: u64 = 32 * 1024 * 1024;

/// The largest icon file, in bytes.
pub const MAX_ICON_BYTES: u64 = 512 * 1024;

/// The largest `module.wasm`, in bytes.
pub const MAX_WASM_BYTES: u64 = 16 * 1024 * 1024;

} // verus!
