use std::cmp::Ordering;

use aftman::ident::{check_ident, IdentProblem};
use aftman::tool_alias::ToolAlias;
use aftman::tool_id::ToolId;
use aftman::tool_name::ToolName;
use aftman::tool_spec::ToolSpec;
use aftman::version::Version;

fn name(scope: &str, name: &str) -> ToolName {
    ToolName::new(scope, name).expect("failed to create test ToolName")
}

fn id(scope: &str, name: &str, version: &str) -> ToolId {
    let name = ToolName::new(scope, name).expect("failed to create test ToolName");
    let version = Version::parse(version).expect("failed to create test Version");
    ToolId::new(name, version)
}

fn spec(scope: &str, name: &str, version: Option<&str>) -> ToolSpec {
    let name = ToolName::new(scope, name).expect("failed to create test ToolName");
    let version = version.map(|v| Version::parse(v).expect("failed to create test Version"));
    ToolSpec::new(name, version)
}

fn check_fragments(err: String, fragments: &[&str]) {
    let err_lowercase = err.to_lowercase();
    if fragments.is_empty() {
        panic!("Debug output, no fragments specified. Error message:\n{}", err);
    }
    for fragment in fragments {
        if !err_lowercase.contains(fragment) {
            panic!(
                "Expected error to contain '{}' but it did not. Error:\n{}",
                fragment, err
            );
        }
    }
}

#[test]
fn getters() {
    let name = name("hello", "world");

    assert_eq!(name.scope(), "hello");
    assert_eq!(name.name(), "world");
}

#[test]
fn tool_name_parse_success() {
    fn test(input: &str, expected: ToolName) {
        let parsed: ToolName = input.parse().expect("failed to parse ToolName");
        assert_eq!(parsed, expected);
    }

    test("a/b", name("a", "b"));
    test("hello/world", name("hello", "world"));
}

#[test]
fn tool_name_parse_failure() {
    fn test(input: &str, fragments: &[&str]) {
        let result: Result<ToolName, _> = input.parse();
        let err = result.expect_err("succeeded parsing bad ToolName").message();
        check_fragments(err, fragments);
    }

    test("", &["name is missing"]);
    test("abc", &["name is missing", "abc"]);

    test("/", &["scope must be non-empty"]);
    test("/abc", &["scope must be non-empty"]);

    test("abc/", &["name must be non-empty"]);
    test("abc/ ", &["name must be non-empty"]);
}

#[test]
fn tool_id_parse_success() {
    fn test(input: &str, expected: ToolId) {
        let parsed: ToolId = input.parse().expect("failed to parse ToolId");
        assert_eq!(parsed, expected);
    }

    test("a/b@1.0.0", id("a", "b", "1.0.0"));
}

#[test]
fn tool_id_parse_failure() {
    fn test(input: &str, fragments: &[&str]) {
        let result: Result<ToolId, _> = input.parse();
        let err = result.expect_err("succeeded parsing bad ToolSpec").message();
        check_fragments(err, fragments);
    }

    test("", &["name is missing"]);
    test("abc", &["name is missing", "abc"]);

    test("/", &["scope must be non-empty"]);
    test("/abc", &["scope must be non-empty"]);

    test("abc/", &["name must be non-empty"]);
    test("abc/ ", &["name must be non-empty"]);

    test("a/b", &["version is missing"]);
    test("hello/world", &["version is missing"]);

    test("abc/abc@", &["invalid version"]);
    test("abc/abc@1", &["invalid version"]);
}

#[test]
fn tool_spec_parse_success() {
    fn test(input: &str, expected: ToolSpec) {
        let parsed: ToolSpec = input.parse().expect("failed to parse ToolSpec");
        assert_eq!(parsed, expected);
    }

    test("a/b", spec("a", "b", None));
    test("hello/world", spec("hello", "world", None));
    test("a/b@1.0.0", spec("a", "b", Some("1.0.0")));
}

#[test]
fn tool_spec_parse_failure() {
    fn test(input: &str, fragments: &[&str]) {
        let result: Result<ToolSpec, _> = input.parse();
        let err = result.expect_err("succeeded parsing bad ToolSpec").message();
        check_fragments(err, fragments);
    }

    test("", &["name is missing"]);
    test("abc", &["name is missing", "abc"]);

    test("/", &["scope must be non-empty"]);
    test("/abc", &["scope must be non-empty"]);

    test("abc/", &["name must be non-empty"]);
    test("abc/ ", &["name must be non-empty"]);

    test("abc/abc@", &["version must be non-empty"]);
    test("abc/abc@1", &["invalid version"]);
}

#[test]
fn name_with_extra_slash_is_rejected() {
    let err = ToolName::parse("a/b/c").expect_err("parsed a name with two slashes");
    assert!(err.message().to_lowercase().contains("name must not contain a slash"));
}

#[test]
fn blank_scope_is_rejected() {
    let err = ToolName::parse("  /abc").expect_err("parsed a blank scope");
    assert!(err.message().to_lowercase().contains("scope must be non-empty"));
}

#[test]
fn end_to_end_id_parse() {
    let parsed = ToolId::parse("acme/tool@1.2.3").expect("failed to parse ToolId");
    assert_eq!(parsed.name().scope(), "acme");
    assert_eq!(parsed.name().name(), "tool");
    assert_eq!(parsed.version().major(), 1);
    assert_eq!(parsed.version().minor(), 2);
    assert_eq!(parsed.version().patch(), 3);
    assert_eq!(parsed.version().pre(), "");
}

#[test]
fn end_to_end_spec_without_version() {
    let parsed = ToolSpec::parse("acme/tool").expect("failed to parse ToolSpec");
    assert!(parsed.version().is_none());
    assert_eq!(parsed.name().to_string(), "acme/tool");
}

#[test]
fn round_trip_texts() {
    for text in ["a/b", "rojo-rbx/rojo", "x/y z"] {
        assert_eq!(ToolName::parse(text).unwrap().to_string(), text);
        assert_eq!(ToolSpec::parse(text).unwrap().to_string(), text);
    }
    for text in ["a/b@1.0.0", "rojo-rbx/rojo@7.2.1", "a/b@1.0.0-beta.2+build.5", "a/b@10.20.30"] {
        let parsed = ToolId::parse(text).unwrap();
        assert_eq!(parsed.to_string(), text);
        assert_eq!(ToolId::parse(&parsed.to_string()).unwrap(), parsed);
        let spec = ToolSpec::parse(text).unwrap();
        assert_eq!(spec.to_string(), text);
    }
}

#[test]
fn version_parts_and_text() {
    let v = Version::parse("1.0.0-beta.2+build.5").unwrap();
    assert_eq!(v.major(), 1);
    assert_eq!(v.pre(), "beta.2");
    assert_eq!(v.build(), "build.5");
    assert_eq!(v.to_string(), "1.0.0-beta.2+build.5");
    assert!(Version::parse("01.0.0").is_none());
    assert!(Version::parse("1.0").is_none());
    assert!(Version::parse("v1.0.0").is_none());
}

#[test]
fn version_order_follows_semver() {
    let v = |s: &str| Version::parse(s).unwrap();
    assert_eq!(v("1.10.0").compare(&v("1.9.0")), Ordering::Greater);
    assert_eq!(v("1.0.0-alpha").compare(&v("1.0.0")), Ordering::Less);
    assert_eq!(v("1.0.0-beta.11").compare(&v("1.0.0-beta.2")), Ordering::Greater);
    assert_eq!(v("2.0.0").compare(&v("2.0.0")), Ordering::Equal);
}

#[test]
fn alias_rules() {
    assert_eq!(ToolAlias::new("rojo").unwrap().as_str(), "rojo");
    assert!(ToolAlias::new("").is_err());
    assert!(ToolAlias::new("   ").is_err());
    assert!(ToolAlias::new("a/b").is_err());
    let err = ToolAlias::parse("a/b").unwrap_err();
    assert!(err.message().to_lowercase().contains("must not contain a slash"));
}

#[test]
fn check_ident_rules() {
    assert!(check_ident("Scope", "abc").is_ok());
    assert_eq!(check_ident("Scope", "").unwrap_err().problem, IdentProblem::Empty);
    assert_eq!(check_ident("Scope", " \t").unwrap_err().problem, IdentProblem::Blank);
    assert_eq!(check_ident("Name", "a/b").unwrap_err().problem, IdentProblem::ContainsSlash);
    assert_eq!(check_ident("Name", "a/b").unwrap_err().subject, "Name");
}

#[test]
fn tool_name_parse_json() {
    fn test(input: &str, expected: ToolName) {
        let text: String = serde_json::from_str(input).expect("failed to parse ToolName");
        let parsed: ToolName = text.parse().expect("failed to parse ToolName");
        assert_eq!(parsed, expected);
    }

    test(r#""abc/def""#, name("abc", "def"));
}

#[test]
fn tool_id_parse_json() {
    fn test(input: &str, expected: ToolId) {
        let text: String = serde_json::from_str(input).expect("failed to parse ToolId");
        let parsed: ToolId = text.parse().expect("failed to parse ToolId");
        assert_eq!(parsed, expected);
    }

    test(r#""abc/abc@1.0.0""#, id("abc", "abc", "1.0.0"));
}

#[test]
fn tool_spec_parse_json() {
    fn test(input: &str, expected: ToolSpec) {
        let text: String = serde_json::from_str(input).expect("failed to parse ToolSpec");
        let parsed: ToolSpec = text.parse().expect("failed to parse ToolSpec");
        assert_eq!(parsed, expected);
    }

    test(r#""abc/abc@1.0.0""#, spec("abc", "abc", Some("1.0.0")));
}
