//! What is asked of the API server for the metrics of a cluster, and what its answers
//! come to.

use crate::error::{
    client_error_kind, client_failure, kube_error_kind, AppError, AppErrorKind, KubeError,
};
use crate::metrics::MetricsObject;
use crate::text::{text_eq, text_opt, text_seq};
use crate::validation::{api_version_of, is_path_segment, resource_failure, ApiResource};
use crate::workload::OwnedObject;
use kube::discovery::{ApiCapabilities, Scope};
use vstd::prelude::*;
use vstd::string::*;

verus! {

/// How many namespaces are asked at a time.
pub const MAX_NAMESPACE_CONCURRENCY: usize = 16;

/// Why metrics could not be listed.
#[derive(Debug, Clone, Copy, PartialEq, Eq, Structural)]
pub enum MetricsListStatus {
    Forbidden,
    Unavailable,
}

/// Why metrics could not be listed: by the kind of the failure alone.
pub open spec fn list_status(error: KubeError) -> MetricsListStatus {
    if client_error_kind(error) == AppErrorKind::Forbidden {
        MetricsListStatus::Forbidden
    } else {
        MetricsListStatus::Unavailable
    }
}

/// Why metrics could not be listed.
pub fn classify_metrics_error(error: &KubeError) -> (status: MetricsListStatus)
    ensures
        status == list_status(*error),
{
    if kube_error_kind(error) == AppErrorKind::Forbidden {
        MetricsListStatus::Forbidden
    } else {
        MetricsListStatus::Unavailable
    }
}

/// A resource of the metrics API.
pub fn metrics_api_resource(kind: &str, plural: &str) -> (resource: ApiResource)
    ensures
        resource.group@ == "metrics.k8s.io"@,
        resource.version@ == "v1beta1"@,
        resource.api_version@ == "metrics.k8s.io/v1beta1"@,
        resource.kind@ == kind@,
        resource.plural@ == plural@,
{
    ApiResource {
        group: "metrics.k8s.io".to_owned(),
        version: "v1beta1".to_owned(),
        api_version: "metrics.k8s.io/v1beta1".to_owned(),
        kind: kind.to_owned(),
        plural: plural.to_owned(),
    }
}

/// The resources of the metrics API are valid: they go into request paths as they are.
pub proof fn metrics_resources_are_valid(resource: ApiResource)
    requires
        resource.group@ == "metrics.k8s.io"@,
        resource.version@ == "v1beta1"@,
        resource.api_version@ == "metrics.k8s.io/v1beta1"@,
        is_path_segment(resource.plural@),
    ensures
        resource_failure(resource) is None,
{
    reveal_strlit("metrics.k8s.io");
    reveal_strlit("v1beta1");
    reveal_strlit("metrics.k8s.io/v1beta1");
    reveal_strlit("/");
    reveal_strlit(".");
    reveal_strlit("..");
    assert(is_path_segment(resource.group@));
    assert(resource.version@.len() == 7 && "."@.len() == 1 && ".."@.len() == 2);
    assert(is_path_segment(resource.version@));
    assert(resource.api_version@ =~= api_version_of(resource.group@, resource.version@));
}

/// A resource that discovery found.
#[derive(Debug)]
pub struct DiscoveredResource {
    pub api_version: String,
    pub kind: String,
    pub operations: Vec<String>,
}

/// A group that discovery found, with its recommended resources.
#[derive(Debug)]
pub struct DiscoveredGroup {
    pub name: String,
    pub resources: Vec<DiscoveredResource>,
}

/// `kube::discovery::ApiCapabilities::supports_operation` tells whether a resource has
/// an operation; the claim is that it does exactly where one of the operations is
/// written so.
#[verifier::external_body]
fn supports_operation(operations: &Vec<String>, operation: &str) -> (supported: bool)
    ensures
        supported == text_seq(operations@).contains(operation@),
{
    let capabilities = ApiCapabilities {
        scope: Scope::Namespaced,
        subresources: Vec::new(),
        operations: operations.clone(),
    };
    capabilities.supports_operation(operation)
}

/// Whether a resource is one of the metrics of pods or nodes and can be listed.
pub open spec fn is_metrics_resource(resource: DiscoveredResource) -> bool {
    &&& resource.api_version@ == "metrics.k8s.io/v1beta1"@
    &&& resource.kind@ == "PodMetrics"@ || resource.kind@ == "NodeMetrics"@
    &&& text_seq(resource.operations@).contains("list"@)
}

/// Whether a group is that of the metrics and offers any.
pub open spec fn is_metrics_group(group: DiscoveredGroup) -> bool {
    &&& group.name@ == "metrics.k8s.io"@
    &&& exists|i: int|
        0 <= i < group.resources@.len() && #[trigger] is_metrics_resource(group.resources@[i])
}

/// Whether any of `groups` offers metrics.
pub open spec fn offers_metrics(groups: Seq<DiscoveredGroup>) -> bool {
    exists|i: int| 0 <= i < groups.len() && #[trigger] is_metrics_group(groups[i])
}

fn lists_metrics(resource: &DiscoveredResource) -> (yes: bool)
    ensures
        yes == is_metrics_resource(*resource),
{
    text_eq(resource.api_version.as_str(), "metrics.k8s.io/v1beta1") && (text_eq(
        resource.kind.as_str(),
        "PodMetrics",
    ) || text_eq(resource.kind.as_str(), "NodeMetrics")) && supports_operation(
        &resource.operations,
        "list",
    )
}

fn group_lists_metrics(group: &DiscoveredGroup) -> (yes: bool)
    ensures
        yes == is_metrics_group(*group),
{
    if !text_eq(group.name.as_str(), "metrics.k8s.io") {
        return false;
    }
    let mut i: usize = 0;
    while i < group.resources.len()
        invariant
            group.name@ == "metrics.k8s.io"@,
            i <= group.resources@.len(),
            forall|j: int| 0 <= j < i ==> !#[trigger] is_metrics_resource(group.resources@[j]),
        decreases group.resources@.len() - i,
    {
        if lists_metrics(&group.resources[i]) {
            assert(is_metrics_resource(group.resources@[i as int]));
            return true;
        }
        i = i + 1;
    }
    false
}

/// Whether a cluster offers metrics, by what discovery found in it.
pub fn has_metrics_api(groups: &[DiscoveredGroup]) -> (available: bool)
    ensures
        available == offers_metrics(groups@),
{
    let mut i: usize = 0;
    while i < groups.len()
        invariant
            i <= groups@.len(),
            forall|j: int| 0 <= j < i ==> !#[trigger] is_metrics_group(groups@[j]),
        decreases groups@.len() - i,
    {
        if group_lists_metrics(&groups[i]) {
            return true;
        }
        i = i + 1;
    }
    false
}

/// Where objects are listed: in each of `namespaces`, or in all where none is named.
pub open spec fn scopes_of(namespaces: Seq<String>) -> Seq<Option<Seq<char>>> {
    if namespaces.len() == 0 {
        seq![None]
    } else {
        namespaces.map_values(|namespace: String| Some(namespace@))
    }
}

/// Where objects are listed: in each of `namespaces`, in order, or in all where none
/// is named.
pub fn list_scopes(namespaces: &Vec<String>) -> (scopes: Vec<Option<String>>)
    ensures
        scopes@.map_values(|scope: Option<String>| text_opt(scope)) == scopes_of(namespaces@),
{
    let mut scopes: Vec<Option<String>> = Vec::new();
    if namespaces.len() == 0 {
        scopes.push(None);
        assert(scopes@.map_values(|scope: Option<String>| text_opt(scope)) =~= seq![None]);
        return scopes;
    }
    let mut i: usize = 0;
    while i < namespaces.len()
        invariant
            namespaces@.len() > 0,
            i <= namespaces@.len(),
            scopes@.map_values(|scope: Option<String>| text_opt(scope)) == scopes_of(
                namespaces@,
            ).take(i as int),
        decreases namespaces@.len() - i,
    {
        let ghost before = scopes@;
        scopes.push(Some(namespaces[i].clone()));
        assert(scopes@.map_values(|scope: Option<String>| text_opt(scope))
            =~= before.map_values(|scope: Option<String>| text_opt(scope)).push(
            Some(namespaces@[i as int]@),
        ));
        assert(scopes_of(namespaces@).take(i + 1) =~= scopes_of(namespaces@).take(i as int).push(
            Some(namespaces@[i as int]@),
        ));
        i = i + 1;
    }
    assert(scopes_of(namespaces@).take(i as int) =~= scopes_of(namespaces@));
    scopes
}

/// What was listed, one answer behind the other.
pub open spec fn listed<T>(answers: Seq<Result<Vec<T>, KubeError>>) -> Seq<T>
    decreases answers.len(),
{
    if answers.len() == 0 {
        seq![]
    } else {
        listed(answers.drop_last()) + match answers.last() {
            Ok(items) => items@,
            Err(_) => seq![],
        }
    }
}

/// Why answers failed, in order.
pub open spec fn failures_in<T>(answers: Seq<Result<Vec<T>, KubeError>>) -> Seq<MetricsListStatus>
    decreases answers.len(),
{
    if answers.len() == 0 {
        seq![]
    } else {
        failures_in(answers.drop_last()) + match answers.last() {
            Ok(_) => seq![],
            Err(error) => seq![list_status(error)],
        }
    }
}

/// The first answer that failed.
pub open spec fn first_failure<T>(answers: Seq<Result<Vec<T>, KubeError>>) -> Option<KubeError>
    decreases answers.len(),
{
    if answers.len() == 0 {
        None
    } else if first_failure(answers.drop_last()) is Some {
        first_failure(answers.drop_last())
    } else {
        match answers.last() {
            Ok(_) => None,
            Err(error) => Some(error),
        }
    }
}

/// Objects of the metrics API, and why some could not be listed.
#[derive(Debug)]
pub struct MetricsObjectList {
    pub objects: Vec<MetricsObject>,
    pub failures: Vec<MetricsListStatus>,
}

/// Puts the answers on metrics of pods together: a failure loses only its own part.
pub fn collect_metric_objects(answers: Vec<Result<Vec<MetricsObject>, KubeError>>) -> (list:
    MetricsObjectList)
    ensures
        list.objects@ == listed(answers@),
        list.failures@ == failures_in(answers@),
{
    let mut list: MetricsObjectList = MetricsObjectList {
        objects: Vec::new(),
        failures: Vec::new(),
    };
    assert(answers@.take(0) =~= seq![]);
    for answer in it: answers
        invariant
            it.seq() == answers@,
            list.objects@ == listed(answers@.take(it.index())),
            list.failures@ == failures_in(answers@.take(it.index())),
    {
        let ghost now = answers@.take(it.index() + 1);
        assert(now.drop_last() =~= answers@.take(it.index()));
        assert(now.last() == answer);
        match answer {
            Ok(items) => {
                let mut items: Vec<MetricsObject> = items;
                list.objects.append(&mut items);
                assert(list.failures@ =~= failures_in(now));
            },
            Err(error) => {
                list.failures.push(classify_metrics_error(&error));
                assert(list.objects@ =~= listed(now));
                assert(list.failures@ =~= failures_in(now));
            },
        }
    }
    assert(answers@.take(answers@.len() as int) =~= answers@);
    list
}

/// Puts the answers on pods or replica sets together: the first failure loses all.
pub fn collect_owned_objects(answers: Vec<Result<Vec<OwnedObject>, KubeError>>) -> (list: Result<
    Vec<OwnedObject>,
    AppError,
>)
    ensures
        match first_failure(answers@) {
            None => list matches Ok(objects) && objects@ == listed(answers@),
            Some(cause) => list matches Err(error) && error@ == client_failure(cause),
        },
{
    let mut objects: Vec<OwnedObject> = Vec::new();
    let mut failed: Option<KubeError> = None;
    assert(answers@.take(0) =~= seq![]);
    for answer in it: answers
        invariant
            it.seq() == answers@,
            failed == first_failure(answers@.take(it.index())),
            failed is None ==> objects@ == listed(answers@.take(it.index())),
    {
        let ghost now = answers@.take(it.index() + 1);
        assert(now.drop_last() =~= answers@.take(it.index()));
        assert(now.last() == answer);
        if failed.is_none() {
            match answer {
                Ok(items) => {
                    let mut items: Vec<OwnedObject> = items;
                    objects.append(&mut items);
                },
                Err(error) => {
                    failed = Some(error);
                },
            }
        }
    }
    assert(answers@.take(answers@.len() as int) =~= answers@);
    match failed {
        Some(error) => Err(AppError::from(error)),
        None => Ok(objects),
    }
}

/// Answers without a failure lose nothing: as many objects come out as were listed.
pub proof fn good_answers_lose_nothing<T>(answers: Seq<Result<Vec<T>, KubeError>>)
    requires
        forall|i: int| 0 <= i < answers.len() ==> #[trigger] answers[i] is Ok,
    ensures
        first_failure(answers) is None,
        failures_in(answers) == Seq::<MetricsListStatus>::empty(),
        listed(answers) == answers.map_values(
            |answer: Result<Vec<T>, KubeError>| answer->Ok_0@,
        ).flatten(),
    decreases answers.len(),
{
    let items = |answer: Result<Vec<T>, KubeError>| answer->Ok_0@;
    if answers.len() > 0 {
        let earlier = answers.drop_last();
        assert forall|i: int| 0 <= i < earlier.len() implies #[trigger] earlier[i] is Ok by {
            assert(earlier[i] == answers[i]);
        }
        good_answers_lose_nothing(earlier);
        assert(answers[answers.len() - 1] is Ok);
        let parts = answers.map_values(items);
        assert(parts.drop_last() =~= earlier.map_values(items));
        parts.lemma_flatten_and_flatten_alt_are_equivalent();
        parts.drop_last().lemma_flatten_and_flatten_alt_are_equivalent();
        assert(failures_in(answers) =~= seq![]);
    } else {
        assert(answers.map_values(items) =~= seq![]);
    }
}

/// A failure to list metrics is a refusal exactly where the API server refused the
/// request.
pub proof fn only_a_refusal_is_forbidden(error: KubeError)
    ensures
        list_status(error) is Forbidden <==> client_error_kind(error) == AppErrorKind::Forbidden,
        list_status(error) is Unavailable <==> client_error_kind(error) != AppErrorKind::Forbidden,
{
}

/// Metrics are offered as soon as one group of that name has one resource of the metrics
/// of pods or of nodes that can be listed, whatever else discovery found.
pub proof fn one_listable_resource_is_enough(
    groups: Seq<DiscoveredGroup>,
    group: int,
    resource: int,
    operation: int,
)
    requires
        0 <= group < groups.len(),
        groups[group].name@ == "metrics.k8s.io"@,
        0 <= resource < groups[group].resources@.len(),
        ({
            let found = groups[group].resources@[resource];
            &&& found.api_version@ == "metrics.k8s.io/v1beta1"@
            &&& found.kind@ == "PodMetrics"@ || found.kind@ == "NodeMetrics"@
            &&& 0 <= operation < found.operations@.len()
            &&& found.operations@[operation]@ == "list"@
        }),
    ensures
        offers_metrics(groups),
{
    let found = groups[group].resources@[resource];
    assert(text_seq(found.operations@)[operation] == "list"@);
    assert(is_metrics_resource(found));
    assert(is_metrics_group(groups[group]));
}

/// Metrics are offered by nothing else: where they are offered there is such a resource.
pub proof fn offered_metrics_can_be_listed(groups: Seq<DiscoveredGroup>) -> (found: (int, int, int))
    requires
        offers_metrics(groups),
    ensures
        0 <= found.0 < groups.len(),
        groups[found.0].name@ == "metrics.k8s.io"@,
        0 <= found.1 < groups[found.0].resources@.len(),
        ({
            let resource = groups[found.0].resources@[found.1];
            &&& resource.api_version@ == "metrics.k8s.io/v1beta1"@
            &&& resource.kind@ == "PodMetrics"@ || resource.kind@ == "NodeMetrics"@
            &&& 0 <= found.2 < resource.operations@.len()
            &&& resource.operations@[found.2]@ == "list"@
        }),
{
    let group = choose|i: int| 0 <= i < groups.len() && #[trigger] is_metrics_group(groups[i]);
    let resources = groups[group].resources@;
    let resource = choose|i: int|
        0 <= i < resources.len() && #[trigger] is_metrics_resource(resources[i]);
    let operations = text_seq(resources[resource].operations@);
    let operation = operations.index_of("list"@);
    assert(operations[operation] == "list"@);
    (group, resource, operation)
}

/// Objects are listed once in each namespace that is named, in the order of the names, and
/// once in all of them where none is named.
pub proof fn each_namespace_is_asked_once(namespaces: Seq<String>)
    ensures
        namespaces.len() == 0 ==> scopes_of(namespaces).len() == 1 && scopes_of(
            namespaces,
        )[0] is None,
        namespaces.len() > 0 ==> scopes_of(namespaces).len() == namespaces.len(),
        forall|i: int|
            0 <= i < namespaces.len() ==> #[trigger] scopes_of(namespaces)[i] == Some(
                namespaces[i]@,
            ),
{
}

/// What several answers list is what each of them lists, one behind the other, and so it
/// is with their failures: no answer changes what another one gives.
pub proof fn answers_count_one_by_one<T>(
    a: Seq<Result<Vec<T>, KubeError>>,
    b: Seq<Result<Vec<T>, KubeError>>,
)
    ensures
        listed(a + b) == listed(a) + listed(b),
        failures_in(a + b) == failures_in(a) + failures_in(b),
    decreases b.len(),
{
    if b.len() == 0 {
        assert(a + b =~= a);
        assert(listed(a) + listed(b) =~= listed(a));
        assert(failures_in(a) + failures_in(b) =~= failures_in(a));
    } else {
        answers_count_one_by_one(a, b.drop_last());
        assert((a + b).drop_last() =~= a + b.drop_last());
        assert((a + b).last() == b.last());
        assert(listed(a + b) =~= listed(a) + listed(b));
        assert(failures_in(a + b) =~= failures_in(a) + failures_in(b));
    }
}

/// An answer that succeeded lists what it holds and is no failure; one that failed lists
/// nothing and is one failure, by its kind.
pub proof fn an_answer_lists_or_fails<T>(items: Vec<T>, error: KubeError)
    ensures
        listed(seq![Ok::<Vec<T>, KubeError>(items)]) == items@,
        failures_in(seq![Ok::<Vec<T>, KubeError>(items)]).len() == 0,
        listed(seq![Err::<Vec<T>, KubeError>(error)]).len() == 0,
        failures_in(seq![Err::<Vec<T>, KubeError>(error)]) == seq![
            if client_error_kind(error) == AppErrorKind::Forbidden {
                MetricsListStatus::Forbidden
            } else {
                MetricsListStatus::Unavailable
            },
        ],
{
    reveal_with_fuel(listed, 2);
    reveal_with_fuel(failures_in, 2);
    let good = seq![Ok::<Vec<T>, KubeError>(items)];
    let bad = seq![Err::<Vec<T>, KubeError>(error)];
    assert(good.drop_last() =~= seq![]);
    assert(bad.drop_last() =~= seq![]);
    assert(listed(good) =~= items@);
    assert(failures_in(bad) =~= seq![list_status(error)]);
}

/// The first answer that failed is the one that is reported, whatever comes behind it.
pub proof fn the_first_failure_is_reported<T>(
    answers: Seq<Result<Vec<T>, KubeError>>,
    at: int,
    error: KubeError,
)
    requires
        0 <= at < answers.len(),
        answers[at] == Err::<Vec<T>, KubeError>(error),
        forall|i: int| 0 <= i < at ==> #[trigger] answers[i] is Ok,
    ensures
        first_failure(answers) == Some(error),
    decreases answers.len(),
{
    let earlier = answers.drop_last();
    if at == answers.len() - 1 {
        assert forall|i: int| 0 <= i < earlier.len() implies #[trigger] earlier[i] is Ok by {
            assert(earlier[i] == answers[i]);
        }
        good_answers_lose_nothing(earlier);
    } else {
        assert forall|i: int| 0 <= i < at implies #[trigger] earlier[i] is Ok by {
            assert(earlier[i] == answers[i]);
        }
        the_first_failure_is_reported(earlier, at, error);
    }
}

} // verus!
