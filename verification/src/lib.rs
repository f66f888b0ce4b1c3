//! Validation rules for rayslash module manifests and packages: the manifest rules of
//! module API v1, the package layout and checksum, release signing keys, and the query
//! logic of the module template.

pub mod checksum;
pub mod error;
pub mod ident;
pub mod keys;
pub mod limits;
pub mod manifest;
pub mod origin;
pub mod outcome;
pub mod package;
pub mod paths;
pub mod selection;
pub mod template;
pub mod text;
pub mod unicode;
pub mod version;

pub use error::{check_manifest_size, ManifestError};
pub use ident::{valid_id_part, validate_module_id, validate_provider_id};
pub use limits::{MAX_ICON_BYTES, MAX_MANIFEST_BYTES, MAX_PACKAGE_BYTES, MAX_WASM_BYTES, SUPPORTED_API};
pub use manifest::{ModuleKind, ModuleManifest, Permissions, ProviderManifest};
pub use origin::is_https_origin;
pub use paths::validate_relative_path;
pub use text::validate_text;
pub use version::{ComparatorOp, SemVersion, VersionComparator, VersionRequirement};
