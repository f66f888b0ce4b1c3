use rayslash_module_manifest::{
    ComparatorOp, ManifestError, ModuleKind, ModuleManifest, Permissions, ProviderManifest,
    SemVersion, VersionComparator, VersionRequirement,
};

fn requirement(op: ComparatorOp, major: u64, minor: Option<u64>, patch: Option<u64>, pre: &str) -> VersionRequirement {
    VersionRequirement {
        comparators: vec![VersionComparator { op, major, minor, patch, pre: pre.to_string() }],
    }
}

/// A community manifest that passes every rule:
/// id "io.github.example.docs", version 1.0.0, api_version "^1.0", kind declarative,
/// one network origin and one provider "docs".
fn manifest() -> ModuleManifest {
    ModuleManifest {
        id: "io.github.example.docs".to_string(),
        name: "Docs".to_string(),
        description: "Search documentation.".to_string(),
        author: "example".to_string(),
        version: SemVersion { major: 1, minor: 0, patch: 0, pre: String::new(), build: String::new() },
        api_version: requirement(ComparatorOp::Caret, 1, Some(0), None, ""),
        license: "MIT".to_string(),
        source: "https://github.com/example/docs".to_string(),
        homepage: None,
        icon: "icon.svg".to_string(),
        kind: ModuleKind::Declarative,
        permissions: Permissions {
            network: vec!["https://docs.example.com".to_string()],
            ..Permissions::default()
        },
        providers: vec![ProviderManifest {
            id: "docs".to_string(),
            name: "Docs".to_string(),
            description: "Search documentation.".to_string(),
            triggers: vec!["docs".to_string()],
        }],
    }
}

fn invalid_text(result: Result<(), ManifestError>) -> String {
    match result {
        Err(ManifestError::Invalid(text)) => text,
        other => panic!("expected an Invalid refusal, got {other:?}"),
    }
}

#[test]
fn accepts_valid_community_manifest() {
    manifest().validate(false).unwrap();
}

#[test]
fn rejects_reserved_identity() {
    let mut value = manifest();
    value.author = "rayslash".into();
    assert!(value.validate(false).is_err());
    assert!(value.validate(true).is_ok());
}

#[test]
fn rejects_paths_and_non_origin_permissions() {
    let mut value = manifest();
    value.icon = "../icon.svg".into();
    assert!(value.validate(false).is_err());
    value.icon = "icon.svg".into();
    value.permissions.network = vec!["https://example.com/path".into()];
    assert!(value.validate(false).is_err());
}

#[test]
fn reserved_author_in_any_case_and_reserved_namespace() {
    let mut value = manifest();
    value.author = "RaySlash".into();
    assert_eq!(invalid_text(value.validate(false)), "the rayslash namespace and author are reserved");
    let mut value = manifest();
    value.id = "rayslash.docs".into();
    assert_eq!(invalid_text(value.validate(false)), "the rayslash namespace and author are reserved");
    assert!(value.validate(true).is_ok());
    let mut value = manifest();
    value.id = "rayslashx.docs".into();
    assert!(value.validate(false).is_ok());
}

#[test]
fn reports_module_id_first() {
    let mut value = manifest();
    value.id = "Docs".into();
    value.name = String::new();
    assert_eq!(
        invalid_text(value.validate(false)),
        "module id \"Docs\" must be dot-separated lowercase ASCII identifiers"
    );
}

#[test]
fn reports_text_fields_with_their_bounds() {
    let mut value = manifest();
    value.name = " Docs".into();
    assert_eq!(
        invalid_text(value.validate(false)),
        "name must be trimmed printable text between 1 and 80 characters"
    );
    let mut value = manifest();
    value.description = "x".repeat(201);
    assert_eq!(
        invalid_text(value.validate(false)),
        "description must be trimmed printable text between 1 and 200 characters"
    );
    let mut value = manifest();
    value.license = "MIT\u{7}".into();
    assert_eq!(
        invalid_text(value.validate(false)),
        "license must be trimmed printable text between 1 and 80 characters"
    );
}

#[test]
fn reports_source_icon_and_providers() {
    let mut value = manifest();
    value.source = "https://github.com/example/docs?tab=readme".into();
    assert_eq!(invalid_text(value.validate(false)), "source must be a canonical HTTPS GitHub repository URL");
    let mut value = manifest();
    value.source = "https://gitlab.com/example/docs".into();
    assert!(value.validate(false).is_err());
    let mut value = manifest();
    value.icon = "/icon.svg".into();
    assert_eq!(invalid_text(value.validate(false)), "icon must be a safe relative package path");
    let mut value = manifest();
    value.providers.clear();
    assert_eq!(invalid_text(value.validate(false)), "at least one provider is required");
}

#[test]
fn reports_api_version_that_excludes_supported_api() {
    let mut value = manifest();
    value.api_version = requirement(ComparatorOp::Caret, 2, Some(0), None, "");
    assert_eq!(
        invalid_text(value.validate(false)),
        "api_version ^2.0 does not include supported API 1.0.0"
    );
    value.api_version = VersionRequirement {
        comparators: vec![
            VersionComparator { op: ComparatorOp::GreaterEq, major: 1, minor: None, patch: None, pre: String::new() },
            VersionComparator { op: ComparatorOp::Less, major: 1, minor: Some(0), patch: Some(0), pre: String::new() },
        ],
    };
    assert_eq!(
        invalid_text(value.validate(false)),
        "api_version >=1, <1.0.0 does not include supported API 1.0.0"
    );
    value.api_version = VersionRequirement { comparators: vec![] };
    assert!(value.validate(false).is_ok());
    value.api_version = requirement(ComparatorOp::Exact, 1, Some(0), Some(0), "alpha");
    assert!(value.validate(false).is_err());
    value.api_version = requirement(ComparatorOp::GreaterEq, 1, Some(0), Some(0), "alpha");
    assert!(value.validate(false).is_ok());
    value.api_version = requirement(ComparatorOp::Tilde, 1, None, None, "");
    assert!(value.validate(false).is_ok());
}

#[test]
fn reports_provider_rules_in_order() {
    let mut value = manifest();
    value.providers[0].id = "-docs".into();
    assert_eq!(
        invalid_text(value.validate(false)),
        "provider id \"-docs\" must be a lowercase ASCII identifier"
    );
    let mut value = manifest();
    value.providers[0].name = String::new();
    assert_eq!(
        invalid_text(value.validate(false)),
        "provider name must be trimmed printable text between 1 and 80 characters"
    );
    let mut value = manifest();
    value.providers[0].triggers = vec!["ok".into(), "two words".into()];
    assert_eq!(
        invalid_text(value.validate(false)),
        "trigger \"two words\" must not contain whitespace"
    );
    let mut value = manifest();
    value.providers[0].triggers = vec!["x".repeat(41)];
    assert_eq!(
        invalid_text(value.validate(false)),
        "trigger must be trimmed printable text between 1 and 40 characters"
    );
    let mut value = manifest();
    value.providers[0].triggers = vec!["a\u{3000}b".into()];
    assert!(value.validate(false).is_err());
}

#[test]
fn reports_network_origin() {
    let mut value = manifest();
    value.permissions.network = vec!["https://docs.example.com".into(), "http://example.com".into()];
    assert_eq!(
        invalid_text(value.validate(false)),
        "network permission \"http://example.com\" must be an HTTPS origin without path/query/fragment"
    );
}

#[test]
fn wasm_kind_and_empty_triggers_are_accepted() {
    let mut value = manifest();
    value.kind = ModuleKind::Wasm;
    value.providers[0].triggers.clear();
    value.permissions.network.clear();
    assert!(value.validate(false).is_ok());
}

#[test]
fn summary_names_id_version_and_kind() {
    let mut value = manifest();
    value.version = SemVersion { major: 2, minor: 10, patch: 3, pre: "rc.1".into(), build: "abc".into() };
    assert_eq!(value.summary(), "valid io.github.example.docs 2.10.3-rc.1+abc (declarative)");
    value.kind = ModuleKind::Wasm;
    assert_eq!(value.kind.name(), "wasm");
}

#[test]
fn error_messages() {
    assert_eq!(ManifestError::TooLarge.message(), "module manifest is larger than 65536 bytes");
    assert_eq!(ManifestError::Invalid("x".into()).message(), "invalid module manifest: x");
    assert_eq!(ManifestError::Parse("bad".into()).message(), "invalid TOML: bad");
    assert_eq!(
        ManifestError::Read { path: "m/module.toml".into(), message: "denied".into() }.message(),
        "failed to read m/module.toml: denied"
    );
    assert!(rayslash_module_manifest::check_manifest_size(65536).is_ok());
    assert!(matches!(rayslash_module_manifest::check_manifest_size(65537), Err(ManifestError::TooLarge)));
}

#[test]
fn api_support_is_decided_before_the_remaining_rules() {
    let value = manifest();
    assert!(value.validate_with_api_support(false, true).is_ok());
    assert_eq!(
        invalid_text(value.validate_with_api_support(false, false)),
        "api_version ^1.0 does not include supported API 1.0.0"
    );
    let mut value = manifest();
    value.icon = "..".into();
    assert_eq!(
        invalid_text(value.validate_with_api_support(false, false)),
        "icon must be a safe relative package path"
    );
}

#[test]
fn official_flag_keeps_every_other_rule() {
    let mut value = manifest();
    value.author = "RAYSLASH".into();
    value.id = "rayslash.core".into();
    assert!(value.validate(true).is_ok());
    value.providers[0].id = "Core".into();
    assert!(value.validate(true).is_err());
    let mut value = manifest();
    value.license = String::new();
    assert!(value.validate(true).is_err());
}
