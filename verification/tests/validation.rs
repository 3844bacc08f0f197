use kubecove::error::AppErrorKind;
use kubecove::validation::{
    validate_api_resource, validate_namespace, validate_path_segment, ApiResource,
};

fn resource(group: &str, version: &str, api_version: &str, plural: &str) -> ApiResource {
    ApiResource {
        group: group.to_string(),
        version: version.to_string(),
        api_version: api_version.to_string(),
        kind: "Thing".to_string(),
        plural: plural.to_string(),
    }
}

#[test]
fn preserves_names_but_rejects_uri_controls() {
    for name in [
        "default",
        "web-0",
        "example.com",
        "system:aggregate-to-admin",
    ] {
        assert!(validate_path_segment(name, "name").is_ok());
    }
    for name in [
        "", ".", "..", "a/b", "a\\b", "%2f", "a?b", "a#b", "a\nb", " a",
    ] {
        assert!(validate_path_segment(name, "name").is_err(), "{name:?}");
    }
}

#[test]
fn a_refused_segment_names_its_field() {
    let error = validate_path_segment("a/b", "pod name").unwrap_err();
    assert_eq!(
        error.message,
        "pod name must be a valid Kubernetes path segment"
    );
    assert_eq!(error.kind, AppErrorKind::Validation);
    assert!(error.source().is_none());
}

#[test]
fn every_character_is_judged_as_the_standard_library_judges_it() {
    for code in 0..=0x10ffff_u32 {
        let Some(character) = char::from_u32(code) else {
            continue;
        };
        let refused = character.is_whitespace()
            || character.is_control()
            || matches!(character, '/' | '\\' | '%' | '?' | '#');
        let name = format!("a{character}b");
        assert_eq!(
            validate_path_segment(&name, "name").is_err(),
            refused,
            "{code:x}"
        );
    }
}

#[test]
fn dots_are_refused_only_alone() {
    assert!(validate_path_segment("...", "name").is_ok());
    assert!(validate_path_segment(".a", "name").is_ok());
    assert!(validate_path_segment(".", "name").is_err());
}

#[test]
fn a_missing_namespace_is_accepted() {
    assert!(validate_namespace(None).is_ok());
    assert!(validate_namespace(Some("payments")).is_ok());
    assert_eq!(
        validate_namespace(Some("")).unwrap_err().message,
        "namespace must be a valid Kubernetes path segment"
    );
}

#[test]
fn resources_need_valid_parts_and_a_matching_api_version() {
    assert!(validate_api_resource(&resource("", "v1", "v1", "pods")).is_ok());
    assert!(validate_api_resource(&resource("apps", "v1", "apps/v1", "deployments")).is_ok());
    for (given, message) in [
        (
            resource("a/b", "v1", "a/b/v1", "pods"),
            "API group must be a valid Kubernetes path segment",
        ),
        (
            resource("apps", "", "apps/", "pods"),
            "API version must be a valid Kubernetes path segment",
        ),
        (
            resource("apps", "v1", "apps/v1", "a b"),
            "resource plural must be a valid Kubernetes path segment",
        ),
        (
            resource("apps", "v1", "v1", "pods"),
            "apiVersion does not match group and version",
        ),
        (
            resource("", "v1", "/v1", "pods"),
            "apiVersion does not match group and version",
        ),
    ] {
        let error = validate_api_resource(&given).unwrap_err();
        assert_eq!(error.message, message);
        assert_eq!(error.kind, AppErrorKind::Validation);
    }
}
