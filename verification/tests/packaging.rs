use base64::Engine;
use rayslash_module_manifest::checksum::{checksum_file_name, checksum_line, package_digest, to_hex_lower};
use rayslash_module_manifest::keys::{key_files, validate_key_id};
use rayslash_module_manifest::selection::{is_kept_in_package, select_package_entries, PackagePath};
use rayslash_module_manifest::package::{
    check_module_kind, check_package_file, check_package_size, check_packed_file, default_package_file_name,
    package_root, required_files, RequiredFile,
};
use rayslash_module_manifest::{
    ComparatorOp, ModuleKind, ModuleManifest, Permissions, ProviderManifest, SemVersion,
    VersionComparator, VersionRequirement, MAX_ICON_BYTES, MAX_PACKAGE_BYTES, MAX_WASM_BYTES,
};

fn manifest(kind: ModuleKind) -> ModuleManifest {
    ModuleManifest {
        id: "io.github.example.docs".to_string(),
        name: "Docs".to_string(),
        description: "Search documentation.".to_string(),
        author: "example".to_string(),
        version: SemVersion { major: 1, minor: 2, patch: 3, pre: String::new(), build: String::new() },
        api_version: VersionRequirement {
            comparators: vec![VersionComparator { op: ComparatorOp::Caret, major: 1, minor: Some(0), patch: None, pre: String::new() }],
        },
        license: "MIT".to_string(),
        source: "https://github.com/example/docs".to_string(),
        homepage: Some("https://example.com".to_string()),
        icon: "assets/icon.svg".to_string(),
        kind,
        permissions: Permissions::default(),
        providers: vec![ProviderManifest {
            id: "docs".to_string(),
            name: "Docs".to_string(),
            description: "Search documentation.".to_string(),
            triggers: vec![],
        }],
    }
}

#[test]
fn required_files_depend_on_kind() {
    let files = required_files(&manifest(ModuleKind::Declarative));
    assert_eq!(
        files,
        vec![
            RequiredFile { path: "README.md".into(), limit: None },
            RequiredFile { path: "LICENSE".into(), limit: None },
            RequiredFile { path: "assets/icon.svg".into(), limit: Some(MAX_ICON_BYTES) },
        ]
    );
    let files = required_files(&manifest(ModuleKind::Wasm));
    assert_eq!(files.len(), 4);
    assert_eq!(files[3], RequiredFile { path: "module.wasm".into(), limit: Some(MAX_WASM_BYTES) });
    assert_eq!(MAX_ICON_BYTES, 524288);
    assert_eq!(MAX_WASM_BYTES, 16777216);
}

#[test]
fn package_file_checks() {
    assert!(check_package_file("d/README.md", true, false, 10, None).is_ok());
    assert_eq!(check_package_file("d/README.md", false, false, 10, None), Err("d/README.md must be a regular package file".to_string()));
    assert_eq!(check_package_file("d/LICENSE", true, true, 10, None), Err("d/LICENSE must be a regular package file".to_string()));
    assert_eq!(check_package_file("d/icon.svg", true, false, 11, Some(10)), Err("d/icon.svg exceeds its size limit".to_string()));
    assert!(check_package_file("d/icon.svg", true, false, 10, Some(10)).is_ok());
    assert!(check_packed_file("d/a", MAX_PACKAGE_BYTES).is_ok());
    assert_eq!(check_packed_file("d/a", MAX_PACKAGE_BYTES + 1), Err("d/a is too large".to_string()));
    assert!(check_package_size(MAX_PACKAGE_BYTES).is_ok());
    assert_eq!(check_package_size(MAX_PACKAGE_BYTES + 1), Err("package exceeds the maximum compressed size".to_string()));
}

#[test]
fn package_names() {
    let mut m = manifest(ModuleKind::Wasm);
    assert_eq!(package_root(&m), "io.github.example.docs-1.2.3");
    assert_eq!(default_package_file_name(&m), "io.github.example.docs-1.2.3.tar.zst");
    m.version.pre = "beta.2".into();
    assert_eq!(package_root(&m), "io.github.example.docs-1.2.3-beta.2");
}

#[test]
fn checksum_of_known_input() {
    assert_eq!(
        package_digest(b"abc"),
        "ba7816bf8f01cfea414140de5dae2223b00361a396177a9cb410ff61f20015ad"
    );
    assert_eq!(
        package_digest(b""),
        "e3b0c44298fc1c149afbf4c8996fb92427ae41e4649b934ca495991b7852b855"
    );
    assert_eq!(to_hex_lower(&[0x0a, 0x14, 0x1e, 0xff]), "0a141eff");
    assert_eq!(checksum_file_name("m-1.0.0.tar.zst"), "m-1.0.0.tar.zst.sha256");
    assert_eq!(checksum_line("abcd", "m-1.0.0.tar.zst"), "abcd  m-1.0.0.tar.zst\n");
}

#[test]
fn key_ids() {
    assert!(validate_key_id("release-2024").is_ok());
    assert_eq!(validate_key_id(""), Err("key ID must be non-empty and contain no whitespace".to_string()));
    assert!(validate_key_id("   ").is_err());
    assert!(validate_key_id("a b").is_err());
    assert!(validate_key_id("a\u{2003}").is_err());
}

#[test]
fn key_files_of_known_secret() {
    let secret = [0u8; 32];
    let files = key_files("release", &secret);
    assert_eq!(files.private_file, "release.private");
    assert_eq!(files.public_file, "release.public");
    assert_eq!(files.private_text, "AAAAAAAAAAAAAAAAAAAAAAAAAAAAAAAAAAAAAAAAAAA=\n");
    // RFC 8032 derivation of the public key of the all-zero seed.
    let public: [u8; 32] = [
        0x3b, 0x6a, 0x27, 0xbc, 0xce, 0xb6, 0xa4, 0x2d, 0x62, 0xa3, 0xa8, 0xd0, 0x2a, 0x6f, 0x0d, 0x73,
        0x65, 0x32, 0x15, 0x77, 0x1d, 0xe2, 0x43, 0xa6, 0x3a, 0xc0, 0x48, 0xa1, 0x8b, 0x59, 0xda, 0x29,
    ];
    let expected = format!("release {}\n", base64::engine::general_purpose::STANDARD.encode(public));
    assert_eq!(files.public_text, expected);
}

#[test]
fn key_files_from_encoded_keys() {
    let files = rayslash_module_manifest::keys::KeyFiles::from_encoded("k1", "c2VjcmV0", "cHVibGlj");
    assert_eq!(files.private_file, "k1.private");
    assert_eq!(files.private_text, "c2VjcmV0\n");
    assert_eq!(files.public_file, "k1.public");
    assert_eq!(files.public_text, "k1 cHVibGlj\n");
}

#[test]
fn declarative_modules_are_refused_as_packages() {
    assert!(check_module_kind(ModuleKind::Wasm).is_ok());
    assert_eq!(
        check_module_kind(ModuleKind::Declarative),
        Err("the declarative module kind is reserved; API v1 packages must be wasm modules".to_string())
    );
    // The manifest rules themselves still accept the reserved kind.
    let mut m = manifest(ModuleKind::Declarative);
    m.providers[0].triggers = vec!["docs".into()];
    assert!(m.validate(false).is_ok());
}

fn path(text: &str) -> PackagePath {
    PackagePath { components: text.split('/').map(|c| c.as_bytes().to_vec()).collect() }
}

#[test]
fn package_selection_and_order() {
    let entries = vec![
        path("src/lib.rs"),
        path("module.toml"),
        path(".git/config"),
        path("README.md"),
        path("target/release/m.wasm"),
        path("src/a/b.rs"),
        path("m-1.0.0.tar.zst"),
        path("m-1.0.0.tar.zst.tmp"),
        path("a/targets"),
        path("LICENSE"),
    ];
    let output = path("m-1.0.0.tar.zst");
    let temporary = path("m-1.0.0.tar.zst.tmp");
    let order = select_package_entries(&entries, &output, &temporary);
    let names: Vec<&str> = order.iter().map(|&i| match i {
        0 => "src/lib.rs",
        1 => "module.toml",
        3 => "README.md",
        5 => "src/a/b.rs",
        8 => "a/targets",
        9 => "LICENSE",
        _ => panic!("entry {i} should be left out"),
    }).collect();
    assert_eq!(names, vec!["LICENSE", "README.md", "a/targets", "module.toml", "src/a/b.rs", "src/lib.rs"]);
    assert!(is_kept_in_package(&path("icon.svg"), &output, &temporary));
    assert!(!is_kept_in_package(&path("x/.git/y"), &output, &temporary));
}

#[test]
fn package_order_is_by_component() {
    // "a/b" comes before "a-b" because the component "a" is a prefix of "a-b",
    // although the byte '/' is larger than '-'.
    let entries = vec![path("a-b"), path("a/b")];
    let none = path("none");
    assert_eq!(select_package_entries(&entries, &none, &none), vec![1, 0]);
}

#[test]
fn equal_paths_keep_their_listed_order() {
    let entries = vec![path("b"), path("a"), path("b"), path("a")];
    let none = path("none");
    assert_eq!(select_package_entries(&entries, &none, &none), vec![1, 3, 0, 2]);
}

#[test]
fn walk_order_does_not_change_the_archive() {
    let first = vec![path("src/lib.rs"), path("README.md"), path("LICENSE"), path("target/x")];
    let second = vec![path("target/x"), path("LICENSE"), path("src/lib.rs"), path("README.md")];
    let none = path("none");
    let names = |entries: &Vec<PackagePath>| -> Vec<Vec<Vec<u8>>> {
        select_package_entries(entries, &none, &none).into_iter().map(|i| entries[i].components.clone()).collect()
    };
    assert_eq!(names(&first), names(&second));
    assert_eq!(names(&first).len(), 3);
}
