# rayslash module manifest rules

A verified library for rayslash module API v1: the rules a `module.toml` must meet,
the layout, size limits and SHA-256 checksum of a module package, the files written for a
release signing key, and the query logic of the module template. The functions in
`src/` carry contracts that Verus checks; the few that call `semver`, `sha2`, `base64`,
`ed25519-dalek` or a std formatter are trusted wrappers, and their doc comments say what
their contracts assume.

- `src/manifest.rs` — the manifest model, `ModuleManifest::validate`, and the laws about it
- `src/ident.rs`, `src/text.rs`, `src/paths.rs`, `src/origin.rs` — the field rules
- `src/version.rs` — versions and version requirements, evaluated and displayed by `semver`
- `src/selection.rs` — which files enter a package, and their order
- `src/package.rs`, `src/checksum.rs` — package layout, limits and checksum file
- `src/keys.rs` — key id rule and key file contents
- `src/template.rs` — the `hello` query of the module template
- `app/` — the `rayslash-module` command: reading files, TOML, archives, randomness
