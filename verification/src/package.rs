//! The rules for building a module package: which files it must hold, which files it
//! leaves out, the size limits, the package's name and its SHA-256 checksum file.

use vstd::prelude::*;
use crate::limits::{MAX_ICON_BYTES, MAX_PACKAGE_BYTES, MAX_WASM_BYTES};
use crate::manifest::{ModuleKind, ModuleManifest};
use crate::version::{core_text, displayed_version, identifiers_ok};
use crate::unicode::decimal;

verus! {

/// A file that a module directory must hold, with its size limit if it has one.
#[derive(Clone, Debug, PartialEq, Eq)]
pub struct RequiredFile {
    /// The file's path relative to the module directory.
    pub path: String,
    /// The largest size allowed, in bytes.
    pub limit: Option<u64>,
}

impl View for RequiredFile {
    type V = (Seq<char>, Option<u64>);

    open spec fn view(&self) -> (Seq<char>, Option<u64>) {
        (self.path@, self.limit)
    }
}

/// The files a module directory must hold: `README.md`, `LICENSE`, the icon (at most
/// `MAX_ICON_BYTES`) and, for a WASM module, `module.wasm` (at most `MAX_WASM_BYTES`).
pub open spec fn required_files_of(m: ModuleManifest) -> Seq<(Seq<char>, Option<u64>)> {
    let common = seq![("README.md"@, None), ("LICENSE"@, None), (m.icon@, Some(MAX_ICON_BYTES))];
    if m.kind == ModuleKind::Wasm {
        common.push(("module.wasm"@, Some(MAX_WASM_BYTES)))
    } else {
        common
    }
}

/// The files that the module directory of `manifest` must hold, in the order they are
/// checked.
pub fn required_files(manifest: &ModuleManifest) -> (res: Vec<RequiredFile>)
    ensures
        res@.map_values(|f: RequiredFile| f@) == required_files_of(*manifest),
{
    let mut files: Vec<RequiredFile> = Vec::new();
    files.push(RequiredFile { path: String::from_str("README.md"), limit: None });
    files.push(RequiredFile { path: String::from_str("LICENSE"), limit: None });
    files.push(RequiredFile { path: manifest.icon.clone(), limit: Some(MAX_ICON_BYTES) });
    if manifest.kind == ModuleKind::Wasm {
        files.push(RequiredFile { path: String::from_str("module.wasm"), limit: Some(MAX_WASM_BYTES) });
    }
    proof {
        assert(files@.map_values(|f: RequiredFile| f@) =~= required_files_of(*manifest));
    }
    files
}

/// The refusal text for a module kind that API v1 does not install.
pub open spec fn module_kind_error() -> Seq<char> {
    "the declarative module kind is reserved; API v1 packages must be wasm modules"@
}

/// Checks that a module directory holds a kind that API v1 installs: only `wasm`. The
/// manifest rules accept the reserved `declarative` kind; a module directory with it is
/// refused here.
pub fn check_module_kind(kind: ModuleKind) -> (res: Result<(), String>)
    ensures
        res is Ok <==> kind == ModuleKind::Wasm,
        res matches Err(m) ==> m@ == module_kind_error(),
{
    match kind {
        ModuleKind::Wasm => Ok(()),
        ModuleKind::Declarative => Err(String::from_str(
            "the declarative module kind is reserved; API v1 packages must be wasm modules",
        )),
    }
}

/// The outcome of the check on one required file: it must be a regular file, not a
/// symbolic link, and within its size limit.
pub open spec fn package_file_check(path: Seq<char>, is_file: bool, is_symlink: bool, len: u64, limit: Option<u64>) -> Result<(), Seq<char>> {
    if !is_file || is_symlink {
        Err(path + " must be a regular package file"@)
    } else if limit matches Some(max) && len > max {
        Err(path + " exceeds its size limit"@)
    } else {
        Ok(())
    }
}

/// Whether `res` agrees with the expected outcome of a package check.
pub open spec fn package_outcome(res: Result<(), String>, expected: Result<(), Seq<char>>) -> bool {
    match expected {
        Ok(()) => res is Ok,
        Err(msg) => res matches Err(m) && m@ == msg,
    }
}

/// Checks a required file found at `path` (as displayed), given what the file system
/// reports of it.
pub fn check_package_file(path: &str, is_file: bool, is_symlink: bool, len: u64, limit: Option<u64>) -> (res: Result<(), String>)
    ensures
        package_outcome(res, package_file_check(path@, is_file, is_symlink, len, limit)),
{
    if !is_file || is_symlink {
        let mut msg = String::from_str(path);
        msg.append(" must be a regular package file");
        return Err(msg);
    }
    if let Some(max) = limit {
        if len > max {
            let mut msg = String::from_str(path);
            msg.append(" exceeds its size limit");
            return Err(msg);
        }
    }
    Ok(())
}

/// Checks a file about to be packed from `path` (as displayed): at most
/// `MAX_PACKAGE_BYTES`.
pub fn check_packed_file(path: &str, len: u64) -> (res: Result<(), String>)
    ensures
        package_outcome(res, if len > MAX_PACKAGE_BYTES { Err(path@ + " is too large"@) } else { Ok(()) }),
{
    if len > MAX_PACKAGE_BYTES {
        let mut msg = String::from_str(path);
        msg.append(" is too large");
        return Err(msg);
    }
    Ok(())
}

/// Checks the size of the finished compressed package: at most `MAX_PACKAGE_BYTES`.
pub fn check_package_size(len: u64) -> (res: Result<(), String>)
    ensures
        package_outcome(res, if len > MAX_PACKAGE_BYTES { Err("package exceeds the maximum compressed size"@) } else { Ok(()) }),
{
    if len > MAX_PACKAGE_BYTES {
        return Err(String::from_str("package exceeds the maximum compressed size"));
    }
    Ok(())
}

/// `<id>-<version>`: the top directory inside the package, and the stem of its file name.
pub open spec fn package_stem(m: ModuleManifest) -> Seq<char> {
    m.id@ + "-"@ + displayed_version(m.version@)
}

/// The package stem spells the whole version: the module id, `-`, then
/// `major.minor.patch` in decimal with every number written (a patch of `0` included),
/// then `-pre` and `+build` when the version has them.
pub proof fn lemma_package_stem_spells_version(m: ModuleManifest)
    requires
        identifiers_ok(m.version.pre@, true),
        identifiers_ok(m.version.build@, false),
    ensures
        package_stem(m) == m.id@ + "-"@ + decimal(m.version.major as nat) + "."@ + decimal(m.version.minor as nat)
            + "."@ + decimal(m.version.patch as nat)
            + (if m.version.pre@.len() > 0 { "-"@ + m.version.pre@ } else { Seq::empty() })
            + (if m.version.build@.len() > 0 { "+"@ + m.version.build@ } else { Seq::empty() }),
        m.version.pre@.len() == 0 && m.version.build@.len() == 0 ==> package_stem(m) == m.id@ + "-"@
            + core_text(m.version.major, m.version.minor, m.version.patch),
{
}

/// The decimal text of a number is never empty, and that of `0` is `0`.
pub proof fn lemma_decimal_written(n: nat)
    ensures
        decimal(n).len() > 0,
        n == 0 ==> decimal(n) == seq!['0'],
    decreases n,
{
    if n >= 10 {
        lemma_decimal_written(n / 10);
    }
}

/// The top directory inside the package of `manifest`: `<id>-<version>`.
pub fn package_root(manifest: &ModuleManifest) -> (res: String)
    ensures
        res@ == package_stem(*manifest),
{
    let mut out = manifest.id.clone();
    out.append("-");
    let version = manifest.version.to_text();
    out.append(version.as_str());
    out
}

/// The package file name used when none is given: `<id>-<version>.tar.zst`.
pub fn default_package_file_name(manifest: &ModuleManifest) -> (res: String)
    ensures
        res@ == package_stem(*manifest) + ".tar.zst"@,
{
    let mut out = package_root(manifest);
    out.append(".tar.zst");
    out
}

} // verus!
