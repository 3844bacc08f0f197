//! Values that go into the paths of Kubernetes requests.

use crate::error::{failure, AppError, AppErrorKind, AppErrorView};
use crate::text::{chars_of, is_control_code, is_white_space, text_eq};
use vstd::prelude::*;
use vstd::string::*;

verus! {

/// A resource of the Kubernetes API.
#[derive(Debug)]
pub struct ApiResource {
    pub group: String,
    pub version: String,
    pub api_version: String,
    pub kind: String,
    pub plural: String,
}

/// The characters that can change the endpoint or the query of a request.
pub open spec fn is_path_control(c: char) -> bool {
    is_white_space(c) || is_control_code(c) || c == '/' || c == '\\' || c == '%' || c == '?' || c
        == '#'
}

/// Whether `value` names one segment of a path and nothing else.
pub open spec fn is_path_segment(value: Seq<char>) -> bool {
    &&& value.len() > 0
    &&& value != "."@
    &&& value != ".."@
    &&& forall|i: int| 0 <= i < value.len() ==> !is_path_control(#[trigger] value[i])
}

/// The failure of a `field` whose value is no path segment.
pub open spec fn segment_failure(field: Seq<char>) -> AppErrorView {
    failure(field + " must be a valid Kubernetes path segment"@, AppErrorKind::Validation)
}

/// Accepts identifiers as they are, and refuses a value with characters that can
/// change the endpoint or the query: values go into URI paths as they are.
pub fn validate_path_segment(value: &str, field: &str) -> (checked: Result<(), AppError>)
    ensures
        checked is Ok <==> is_path_segment(value@),
        checked matches Err(error) ==> error@ == segment_failure(field@),
{
    let mut accepted: bool = !value.is_empty() && !text_eq(value, ".") && !text_eq(value, "..");
    let chars: Vec<char> = chars_of(value);
    let mut i: usize = 0;
    while i < chars.len()
        invariant
            chars@ == value@,
            i <= chars@.len(),
            accepted == (value@.len() > 0 && value@ != "."@ && value@ != ".."@ && forall|j: int|
                0 <= j < i ==> !is_path_control(#[trigger] value@[j])),
        decreases chars@.len() - i,
    {
        let c: char = chars[i];
        if c.is_whitespace() || c.is_control() || c == '/' || c == '\\' || c == '%' || c == '?' || c
            == '#' {
            assert(is_path_control(value@[i as int]));
            accepted = false;
        }
        i = i + 1;
    }
    if accepted {
        Ok(())
    } else {
        let message: String = field.to_owned().concat(" must be a valid Kubernetes path segment");
        Err(AppError::new(message.as_str(), AppErrorKind::Validation))
    }
}

/// Checks a namespace, where one is given.
pub fn validate_namespace(namespace: Option<&str>) -> (checked: Result<(), AppError>)
    ensures
        checked is Ok <==> (namespace matches Some(value) ==> is_path_segment(value@)),
        checked matches Err(error) ==> error@ == segment_failure("namespace"@),
{
    match namespace {
        Some(value) => validate_path_segment(value, "namespace"),
        None => Ok(()),
    }
}

/// The `apiVersion` of a group and a version: the version alone in the core group.
pub open spec fn api_version_of(group: Seq<char>, version: Seq<char>) -> Seq<char> {
    if group.len() == 0 {
        version
    } else {
        group + "/"@ + version
    }
}

/// What is wrong with a resource, if anything.
pub open spec fn resource_failure(resource: ApiResource) -> Option<AppErrorView> {
    if resource.group@.len() > 0 && !is_path_segment(resource.group@) {
        Some(segment_failure("API group"@))
    } else if !is_path_segment(resource.version@) {
        Some(segment_failure("API version"@))
    } else if !is_path_segment(resource.plural@) {
        Some(segment_failure("resource plural"@))
    } else if resource.api_version@ != api_version_of(resource.group@, resource.version@) {
        Some(failure("apiVersion does not match group and version"@, AppErrorKind::Validation))
    } else {
        None
    }
}

/// Checks that the parts of a resource are path segments and that its `apiVersion` is
/// that of its group and version.
pub fn validate_api_resource(resource: &ApiResource) -> (checked: Result<(), AppError>)
    ensures
        checked is Ok <==> resource_failure(*resource) is None,
        checked matches Err(error) ==> resource_failure(*resource) == Some(error@),
{
    if !resource.group.as_str().is_empty() {
        match validate_path_segment(resource.group.as_str(), "API group") {
            Ok(()) => {},
            Err(error) => {
                return Err(error);
            },
        }
    }
    match validate_path_segment(resource.version.as_str(), "API version") {
        Ok(()) => {},
        Err(error) => {
            return Err(error);
        },
    }
    match validate_path_segment(resource.plural.as_str(), "resource plural") {
        Ok(()) => {},
        Err(error) => {
            return Err(error);
        },
    }
    let expected: String = if resource.group.as_str().is_empty() {
        resource.version.clone()
    } else {
        resource.group.clone().concat("/").concat(resource.version.as_str())
    };
    if !text_eq(resource.api_version.as_str(), expected.as_str()) {
        return Err(
            AppError::new(
                "apiVersion does not match group and version",
                AppErrorKind::Validation,
            ),
        );
    }
    Ok(())
}

/// An accepted segment holds no slash, no query and no fragment, so it stays one
/// segment between the slashes of a path.
pub proof fn accepted_segments_stay_whole(value: Seq<char>)
    requires
        is_path_segment(value),
    ensures
        !value.contains('/'),
        !value.contains('\\'),
        !value.contains('%'),
        !value.contains('?'),
        !value.contains('#'),
{
    assert forall|c: char| #[trigger] value.contains(c) implies !is_path_control(c) by {
        let i = value.index_of(c);
        assert(!is_path_control(value[i]));
    }
}

/// A value is refused only for a reason: it is empty or a dot segment, or it holds white
/// space, a control character or one of the characters that delimit or escape in a path.
/// Every other value is accepted as it is, and none of these ever is.
pub proof fn values_are_refused_for_a_reason(value: Seq<char>)
    ensures
        is_path_segment(value) <==> value.len() > 0 && value != seq!['.'] && value != seq!['.', '.']
            && !exists|i: int|
            0 <= i < value.len() && {
                let c = #[trigger] value[i];
                ||| is_white_space(c)
                ||| is_control_code(c)
                ||| c == '/'
                ||| c == '\\'
                ||| c == '%'
                ||| c == '?'
                ||| c == '#'
            },
{
    reveal_strlit(".");
    reveal_strlit("..");
    assert("."@ =~= seq!['.']);
    assert(".."@ =~= seq!['.', '.']);
    if is_path_segment(value) {
        assert(forall|i: int| 0 <= i < value.len() ==> !is_path_control(#[trigger] value[i]));
    }
}

/// A resource is accepted exactly where its version and its plural are path segments, its
/// group is one or is empty, and its `apiVersion` is the version alone in the core group
/// and otherwise the group, a slash and the version.
pub proof fn a_resource_is_accepted_by_its_parts(resource: ApiResource)
    ensures
        resource_failure(resource) is None <==> {
            &&& resource.group@.len() == 0 || is_path_segment(resource.group@)
            &&& is_path_segment(resource.version@)
            &&& is_path_segment(resource.plural@)
            &&& resource.group@.len() == 0 ==> resource.api_version@ == resource.version@
            &&& resource.group@.len() > 0 ==> resource.api_version@ == resource.group@ + seq!['/']
                + resource.version@
        },
        resource_failure(resource) matches Some(error) ==> error.kind == AppErrorKind::Validation,
{
    reveal_strlit("/");
    assert("/"@ =~= seq!['/']);
}

/// The first part of a resource that is wrong is the one that is named.
pub proof fn the_wrong_part_is_named(resource: ApiResource, field: Seq<char>)
    ensures
        segment_failure(field).message == field + " must be a valid Kubernetes path segment"@,
        segment_failure(field).kind == AppErrorKind::Validation,
        ({
            let group = resource.group@.len() == 0 || is_path_segment(resource.group@);
            let version = is_path_segment(resource.version@);
            let plural = is_path_segment(resource.plural@);
            let failed = resource_failure(resource);
            &&& !group ==> failed == Some(segment_failure("API group"@))
            &&& group && !version ==> failed == Some(segment_failure("API version"@))
            &&& group && version && !plural ==> failed == Some(segment_failure("resource plural"@))
            &&& group && version && plural && failed is Some ==> failed->0.message
                == "apiVersion does not match group and version"@
        }),
{
}

} // verus!
