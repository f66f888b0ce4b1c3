use rayslash_module_manifest::template::{hello_query, trim_text, Action, Icon};
use rayslash_module_manifest::version::parse_version;
use rayslash_module_manifest::{ComparatorOp, SemVersion, VersionComparator, VersionRequirement};

fn cmp(op: ComparatorOp, major: u64, minor: Option<u64>, patch: Option<u64>, pre: &str) -> VersionComparator {
    VersionComparator { op, major, minor, patch, pre: pre.to_string() }
}

#[test]
fn requirement_text_matches_semver_display() {
    let cases = vec![
        (vec![], "*"),
        (vec![cmp(ComparatorOp::Caret, 1, Some(0), None, "")], "^1.0"),
        (vec![cmp(ComparatorOp::Exact, 1, Some(2), Some(3), "rc.1")], "=1.2.3-rc.1"),
        (vec![cmp(ComparatorOp::Wildcard, 1, None, None, "")], "1.*"),
        (vec![cmp(ComparatorOp::Wildcard, 1, Some(2), None, "")], "1.2.*"),
        (vec![cmp(ComparatorOp::Tilde, 0, Some(3), None, "")], "~0.3"),
        (vec![cmp(ComparatorOp::GreaterEq, 1, None, None, ""), cmp(ComparatorOp::Less, 2, Some(0), Some(0), "")], ">=1, <2.0.0"),
        (vec![cmp(ComparatorOp::Greater, 10, Some(0), None, ""), cmp(ComparatorOp::LessEq, 12, None, None, "")], ">10.0, <=12"),
    ];
    for (comparators, text) in cases {
        let req = VersionRequirement { comparators };
        assert_eq!(req.to_text(), text);
        let parsed = semver::VersionReq::parse(text).unwrap();
        assert_eq!(parsed.to_string(), text);
    }
}

#[test]
fn requirement_matching() {
    let v = |major, minor, patch, pre: &str| SemVersion { major, minor, patch, pre: pre.into(), build: String::new() };
    let caret = VersionRequirement { comparators: vec![cmp(ComparatorOp::Caret, 1, Some(0), None, "")] };
    assert!(caret.matches(&v(1, 0, 0, "")));
    assert!(caret.matches(&v(1, 9, 0, "")));
    assert!(!caret.matches(&v(2, 0, 0, "")));
    assert!(!caret.matches(&v(1, 0, 0, "alpha")));
    let pre = VersionRequirement { comparators: vec![cmp(ComparatorOp::GreaterEq, 1, Some(0), Some(0), "alpha")] };
    assert!(pre.matches(&v(1, 0, 0, "beta")));
    assert!(pre.matches(&v(1, 0, 0, "")));
    assert!(VersionRequirement { comparators: vec![] }.matches(&v(7, 1, 0, "")));
}

#[test]
fn version_text_and_parse() {
    let parsed = parse_version("1.0.0").unwrap();
    assert_eq!((parsed.major, parsed.minor, parsed.patch), (1, 0, 0));
    assert_eq!(parsed.to_text(), "1.0.0");
    let parsed = parse_version("2.10.3-rc.1+build.5").unwrap();
    assert_eq!(parsed.pre, "rc.1");
    assert_eq!(parsed.build, "build.5");
    assert_eq!(parsed.to_text(), "2.10.3-rc.1+build.5");
    assert!(parse_version("1.0").is_none());
    assert!(parse_version("01.0.0").is_none());
}

#[test]
fn trims_unicode_whitespace() {
    assert_eq!(trim_text("  a b \u{3000}"), "a b");
    assert_eq!(trim_text("\t\n"), "");
    assert_eq!(trim_text("x"), "x");
}

#[test]
fn hello_query_greets() {
    let res = hello_query("  hello  World  ");
    assert!(!res.exclusive);
    assert_eq!(res.results.len(), 1);
    let item = &res.results[0];
    assert_eq!(item.id, "hello:world");
    assert_eq!(item.title, "Hello, World!");
    assert_eq!(item.subtitle, "Press Enter to copy");
    assert_eq!(item.icon, Icon::Text("H".into()));
    assert_eq!(item.action, Action::CopyText("Hello, World!".into()));
}

#[test]
fn hello_query_without_name_and_other_queries() {
    let res = hello_query("hello");
    assert_eq!(res.results[0].title, "Hello!");
    assert_eq!(res.results[0].id, "hello:");
    let res = hello_query("helloÉmile");
    assert_eq!(res.results[0].id, "hello:Émile");
    let res = hello_query("Hello there");
    assert!(res.results.is_empty());
    assert!(!res.exclusive);
    let res = hello_query("say hello");
    assert!(res.results.is_empty());
}


#[test]
fn text_that_semver_refuses_is_shown_empty() {
    let v = SemVersion { major: 1, minor: 2, patch: 3, pre: "a..b".into(), build: "ok.1".into() };
    assert_eq!(v.to_text(), "1.2.3+ok.1");
    let v = SemVersion { major: 1, minor: 2, patch: 3, pre: "01".into(), build: "x_y".into() };
    assert_eq!(v.to_text(), "1.2.3");
    let req = VersionRequirement { comparators: vec![cmp(ComparatorOp::Exact, 1, Some(2), Some(3), "é")] };
    assert_eq!(req.to_text(), "=1.2.3");
}
