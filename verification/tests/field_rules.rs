use rayslash_module_manifest::{
    is_https_origin, valid_id_part, validate_module_id, validate_provider_id,
    validate_relative_path, validate_text, ManifestError,
};

#[test]
fn id_parts() {
    assert!(valid_id_part("docs"));
    assert!(valid_id_part("a-1"));
    assert!(valid_id_part(&"a".repeat(63)));
    assert!(!valid_id_part(&"a".repeat(64)));
    assert!(!valid_id_part(""));
    assert!(!valid_id_part("-a"));
    assert!(!valid_id_part("a-"));
    assert!(!valid_id_part("Docs"));
    assert!(!valid_id_part("do_cs"));
    assert!(!valid_id_part("dé"));
}

#[test]
fn module_ids() {
    assert!(validate_module_id("io.github.example.docs").is_ok());
    assert!(validate_module_id("a.b").is_ok());
    assert!(validate_module_id("docs").is_err());
    assert!(validate_module_id(".a.b").is_err());
    assert!(validate_module_id("a..b").is_err());
    assert!(validate_module_id("a.b.").is_err());
    assert!(validate_module_id("a.-b").is_err());
    let long = format!("{}.{}", "a".repeat(63), "b".repeat(63));
    assert!(validate_module_id(&long).is_ok());
    let too_long = format!("{}.{}.{}", "a".repeat(63), "b".repeat(63), "c");
    assert_eq!(too_long.len(), 129);
    assert!(validate_module_id(&too_long).is_err());
    match validate_module_id("a.B") {
        Err(ManifestError::Invalid(text)) => {
            assert_eq!(text, "module id \"a.B\" must be dot-separated lowercase ASCII identifiers")
        }
        other => panic!("{other:?}"),
    }
    match validate_module_id("a.\u{e9}\n") {
        Err(ManifestError::Invalid(text)) => {
            assert_eq!(text, "module id \"a.\u{e9}\\n\" must be dot-separated lowercase ASCII identifiers")
        }
        other => panic!("{other:?}"),
    }
}

#[test]
fn provider_ids() {
    assert!(validate_provider_id("docs").is_ok());
    assert!(validate_provider_id("a.b").is_err());
    assert!(validate_provider_id(&"a".repeat(64)).is_err());
}

#[test]
fn text_rule() {
    assert!(validate_text("name", "Docs", 1, 80).is_ok());
    assert!(validate_text("name", "", 0, 80).is_ok());
    assert!(validate_text("name", "", 1, 80).is_err());
    assert!(validate_text("name", "é", 1, 1).is_ok());
    assert!(validate_text("name", "a b", 1, 80).is_ok());
    assert!(validate_text("name", "a\u{a0}", 1, 80).is_err());
    assert!(validate_text("name", "a\tb", 1, 80).is_err());
    assert!(validate_text("name", "a\u{85}b", 1, 80).is_err());
    match validate_text("title", "", 2, 9) {
        Err(ManifestError::Invalid(text)) => {
            assert_eq!(text, "title must be trimmed printable text between 2 and 9 characters")
        }
        other => panic!("{other:?}"),
    }
}

#[test]
fn relative_paths() {
    assert!(validate_relative_path("icon", "icon.svg").is_ok());
    assert!(validate_relative_path("icon", "assets/icon.svg").is_ok());
    assert!(validate_relative_path("icon", "a/./b").is_ok());
    assert!(validate_relative_path("icon", "a//b").is_ok());
    assert!(validate_relative_path("icon", "..a").is_ok());
    assert!(validate_relative_path("icon", ".hidden").is_ok());
    assert!(validate_relative_path("icon", "").is_err());
    assert!(validate_relative_path("icon", "/icon.svg").is_err());
    assert!(validate_relative_path("icon", "./icon.svg").is_err());
    assert!(validate_relative_path("icon", ".").is_err());
    assert!(validate_relative_path("icon", "a/../b").is_err());
    assert!(validate_relative_path("icon", "a/..").is_err());
    match validate_relative_path("logo", "../x") {
        Err(ManifestError::Invalid(text)) => assert_eq!(text, "logo must be a safe relative package path"),
        other => panic!("{other:?}"),
    }
}

#[test]
fn https_origins() {
    assert!(is_https_origin("https://docs.example.com"));
    assert!(is_https_origin("https://example.com:8443"));
    assert!(!is_https_origin("https://"));
    assert!(!is_https_origin("http://example.com"));
    assert!(!is_https_origin("https://example.com/"));
    assert!(!is_https_origin("https://example.com?q"));
    assert!(!is_https_origin("https://example.com#f"));
    assert!(!is_https_origin("https://user@example.com"));
}
